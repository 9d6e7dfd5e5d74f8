//! The batch driver: every pair of a mapping through the reconciler, one
//! after the other, stopping at the first that fails.
//!
//! Pairs are taken in the order in which the mapping store hands them out,
//! which the configuration does not fix. Where more than one pair would
//! fail, that order decides which failure is reported.

use vstd::prelude::*;

use crate::filesystem::{Operation, OperationView, Reply};
use crate::mapping::{expands, pair_views, Mapping, Pair, PairView};
use crate::reconcile::{answers, expects, next, transition, Stage, Step, StepView};

verus! {

/// A run over a list of pairs, under way.
#[derive(Debug)]
pub struct Batch {
    pairs: Vec<Pair>,
    index: usize,
    stage: Stage,
}

/// A [`Batch`] with its paths as sequences of characters: the pairs, how
/// many of them are done with, and where the current one stands.
pub struct BatchView {
    pub pairs: Seq<PairView>,
    pub index: nat,
    pub stage: Stage,
}

impl BatchView {
    /// The batch is finished, or it is at one of its pairs.
    pub open spec fn wf(self) -> bool {
        self.index <= self.pairs.len() && (self.stage != Stage::Finished ==> self.index
            < self.pairs.len())
    }
}

impl View for Batch {
    type V = BatchView;

    closed spec fn view(&self) -> BatchView {
        BatchView { pairs: pair_views(self.pairs@), index: self.index as nat, stage: self.stage }
    }
}

/// The batch as it turns to the pair at `index`: a look at that pair's
/// destination, or the end of the run where no pair is left.
pub open spec fn turn_to(pairs: Seq<PairView>, index: nat) -> (BatchView, StepView) {
    if index < pairs.len() {
        (
            BatchView { pairs, index, stage: Stage::Examine },
            StepView::Perform(OperationView::Inspect(pairs[index as int].destination)),
        )
    } else {
        (BatchView { pairs, index, stage: Stage::Finished }, StepView::Done(Ok(())))
    }
}

/// The batch and step that follow `batch` on `reply`: the current pair's
/// reconciliation moves on; where it succeeds, the batch turns to the next
/// pair; where it fails, the run ends with that error.
pub open spec fn batch_next(batch: BatchView, reply: Reply) -> (BatchView, StepView)
    recommends
        batch.wf(),
        expects(batch.stage, reply),
{
    let pair = batch.pairs[batch.index as int];
    let (stage, step) = next(pair.source, pair.destination, batch.stage, reply);
    match step {
        StepView::Done(Ok(())) => turn_to(batch.pairs, batch.index + 1),
        StepView::Done(Err(_)) => (BatchView { stage: Stage::Finished, ..batch }, step),
        StepView::Perform(_) => (BatchView { stage, ..batch }, step),
    }
}

impl Batch {
    /// Turns to the pair at `self.index`.
    fn turn(&mut self) -> (step: Step)
        requires
            old(self).index <= old(self).pairs@.len(),
        ensures
            (final(self)@, step@) == turn_to(old(self)@.pairs, old(self)@.index),
    {
        if self.index < self.pairs.len() {
            self.stage = Stage::Examine;
            Step::Perform(Operation::Inspect(self.pairs[self.index].destination.clone()))
        } else {
            self.stage = Stage::Finished;
            Step::Done(Ok(()))
        }
    }

    /// Begins a run over `pairs`: the batch, and its first step.
    pub fn new(pairs: Vec<Pair>) -> (r: (Batch, Step))
        ensures
            (r.0@, r.1@) == turn_to(pair_views(pairs@), 0),
    {
        let mut batch = Batch { pairs, index: 0, stage: Stage::Finished };
        let step = batch.turn();
        (batch, step)
    }

    /// Which reply the batch waits for.
    pub fn stage(&self) -> (r: Stage)
        ensures
            r == self@.stage,
    {
        self.stage
    }

    /// How many pairs the batch is done with.
    pub fn index(&self) -> (r: usize)
        ensures
            r == self@.index,
    {
        self.index
    }

    /// Whether `reply` answers the operation that is pending.
    pub fn accepts(&self, reply: &Reply) -> (r: bool)
        ensures
            r == (self@.wf() && expects(self@.stage, *reply)),
    {
        self.index < self.pairs.len() && answers(self.stage, reply)
    }

    /// Takes the reply to the operation that was asked for last, and says
    /// what follows as [`batch_next`] has it.
    pub fn advance(&mut self, reply: Reply) -> (step: Step)
        requires
            old(self)@.wf(),
            expects(old(self)@.stage, reply),
        ensures
            (final(self)@, step@) == batch_next(old(self)@, reply),
            final(self)@.wf(),
    {
        let count: usize = self.pairs.len();
        let (stage, step) = transition(
            self.pairs[self.index].source.as_str(),
            self.pairs[self.index].destination.as_str(),
            self.stage,
            reply,
        );
        match step {
            Step::Done(Ok(())) => {
                assert(self.index < count);
                self.index = self.index + 1;
                self.turn()
            },
            Step::Done(Err(error)) => {
                self.stage = Stage::Finished;
                Step::Done(Err(error))
            },
            Step::Perform(operation) => {
                self.stage = stage;
                Step::Perform(operation)
            },
        }
    }
}

/// Begins the run for `mapping`: its entries expanded for the repository at
/// `directory` and the home directory `home`, and the batch over them.
pub fn run(mapping: &Mapping, directory: &str, home: &str) -> (r: (Batch, Step))
    ensures
        r.0@.pairs.len() == mapping.entries().len(),
        forall|i: int|
            0 <= i < r.0@.pairs.len() ==> expands(
                #[trigger] mapping.entries()[i],
                directory@,
                home@,
                r.0@.pairs[i],
            ),
        (r.0@, r.1@) == turn_to(r.0@.pairs, 0),
{
    Batch::new(mapping.expand(directory, home))
}

} // verus!
