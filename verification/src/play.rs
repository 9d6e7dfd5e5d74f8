//! The reconciler and the batch, played against the model tree: each
//! operation they ask for is answered by the tree and changes it. Played
//! to the end, they leave what [`reconciled`] and [`ran`] state, and ask
//! for nothing that the tree cannot do.
//!
//! This is what ties the laws, which speak of [`reconciled`] and [`ran`],
//! to the steps that [`crate::reconcile::Reconciler::advance`] and
//! [`crate::batch::Batch::advance`] take.

use vstd::prelude::*;

use crate::batch::{batch_next, turn_to, BatchView};
use crate::error::SyncErrorView;
use crate::filesystem::OperationView;
use crate::mapping::PairView;
use crate::reconcile::{expects, first, next, Stage, StepView};
use crate::tree::{
    answer, effect, lemma_resolve_no_link, max_hops, permits, ran, ran_from, reconciled, vacated,
    Outcome, Tree,
};

verus! {

/// Where a play ends, and whether it went by the rules: each time, the
/// tree was in a state in which the operation asked of it could succeed,
/// and its reply was the one that was waited for.
pub struct Played {
    pub outcome: Outcome,
    pub orderly: bool,
}

/// A play that ends here with `result`.
pub open spec fn ended(tree: Tree, result: Result<(), SyncErrorView>) -> Played {
    Played { outcome: Outcome { tree, result }, orderly: true }
}

/// A play that is cut short because its fuel is spent.
pub open spec fn cut(tree: Tree) -> Played {
    Played { outcome: Outcome { tree, result: Ok(()) }, orderly: false }
}

/// The reconciler played against the tree from `stage` and `step` on, for
/// at most `fuel` operations.
pub open spec fn played(
    source: Seq<char>,
    destination: Seq<char>,
    stage: Stage,
    step: StepView,
    tree: Tree,
    fuel: nat,
) -> Played
    decreases fuel,
{
    match step {
        StepView::Done(result) => ended(tree, result),
        StepView::Perform(operation) => if fuel == 0 {
            cut(tree)
        } else {
            let reply = answer(tree, operation);
            let (stage2, step2) = next(source, destination, stage, reply);
            let rest = played(
                source,
                destination,
                stage2,
                step2,
                effect(tree, operation),
                (fuel - 1) as nat,
            );
            Played {
                orderly: permits(tree, operation) && expects(stage, reply) && rest.orderly,
                ..rest
            }
        },
    }
}

/// The batch played against the tree from `batch` and `step` on, for at
/// most `fuel` operations.
pub open spec fn batch_played(batch: BatchView, step: StepView, tree: Tree, fuel: nat) -> Played
    decreases fuel,
{
    match step {
        StepView::Done(result) => ended(tree, result),
        StepView::Perform(operation) => if fuel == 0 {
            cut(tree)
        } else {
            let reply = answer(tree, operation);
            let (batch2, step2) = batch_next(batch, reply);
            let rest = batch_played(batch2, step2, effect(tree, operation), (fuel - 1) as nat);
            Played {
                orderly: permits(tree, operation) && batch.wf() && expects(batch.stage, reply)
                    && rest.orderly,
                ..rest
            }
        },
    }
}

/// How many operations a reconciliation in `stage` can still ask for.
pub open spec fn rank(stage: Stage) -> nat {
    match stage {
        Stage::Examine => 4,
        Stage::Clear => 3,
        Stage::Survey => 2,
        Stage::Link => 1,
        Stage::Finished => 0,
    }
}

/// `step` is one that a reconciliation in `stage` can have pending: a look
/// while it examines or surveys, a change while it clears or links, and
/// the end exactly when it is finished.
pub open spec fn pending(stage: Stage, step: StepView) -> bool {
    match stage {
        Stage::Examine | Stage::Survey => step matches StepView::Perform(
            OperationView::Inspect(_),
        ),
        Stage::Clear | Stage::Link => step matches StepView::Perform(operation)
            && !(operation is Inspect),
        Stage::Finished => step is Done,
    }
}

/// One step of the reconciler leads to a later stage with a fitting step.
proof fn lemma_next_pending(
    source: Seq<char>,
    destination: Seq<char>,
    stage: Stage,
    operation: OperationView,
    tree: Tree,
)
    requires
        pending(stage, StepView::Perform(operation)),
    ensures
        ({
            let (stage2, step2) = next(source, destination, stage, answer(tree, operation));
            pending(stage2, step2) && rank(stage2) < rank(stage)
        }),
{
}

/// Fuel beyond the rank of the stage changes nothing.
proof fn lemma_played_enough(
    source: Seq<char>,
    destination: Seq<char>,
    stage: Stage,
    step: StepView,
    tree: Tree,
    fuel: nat,
)
    requires
        pending(stage, step),
        fuel >= rank(stage),
    ensures
        played(source, destination, stage, step, tree, fuel) == played(
            source,
            destination,
            stage,
            step,
            tree,
            rank(stage),
        ),
    decreases fuel,
{
    match step {
        StepView::Done(_) => {},
        StepView::Perform(operation) => {
            lemma_next_pending(source, destination, stage, operation, tree);
            let (stage2, step2) = next(source, destination, stage, answer(tree, operation));
            let tree2 = effect(tree, operation);
            lemma_played_enough(source, destination, stage2, step2, tree2, (fuel - 1) as nat);
            lemma_played_enough(
                source,
                destination,
                stage2,
                step2,
                tree2,
                (rank(stage) - 1) as nat,
            );
        },
    }
}

/// The reconciler, played against the tree from its first step on, leaves
/// what [`reconciled`] states. On the way the tree permits every operation
/// it asks for, and every reply is the one it waits for.
pub proof fn law_reconciler_plays(tree: Tree, source: Seq<char>, destination: Seq<char>)
    ensures
        played(source, destination, first(destination).0, first(destination).1, tree, 4)
            == (Played { outcome: reconciled(tree, source, destination), orderly: true }),
{
    reveal_with_fuel(played, 5);
    lemma_resolve_no_link(tree, destination, max_hops());
    match vacated(tree, destination) {
        None => {},
        Some(base) => {
            lemma_resolve_no_link(base, source, max_hops());
        },
    }
}

/// What is left of a run once the current pair's reconciliation is played
/// to its end: its failure, or the run over the pairs after it.
pub open spec fn continued(batch: BatchView, step: StepView, tree: Tree) -> Played {
    let pair = batch.pairs[batch.index as int];
    let one = played(pair.source, pair.destination, batch.stage, step, tree, rank(batch.stage));
    if one.outcome.result is Err {
        one
    } else {
        Played { outcome: ran_from(one.outcome.tree, batch.pairs, batch.index + 1), ..one }
    }
}

/// The batch, played from the middle of one pair's reconciliation, leaves
/// what [`continued`] states.
proof fn lemma_batch_continues(batch: BatchView, step: StepView, tree: Tree, fuel: nat)
    requires
        batch.wf(),
        batch.stage != Stage::Finished,
        pending(batch.stage, step),
        fuel >= rank(batch.stage) + 4 * (batch.pairs.len() - batch.index - 1),
    ensures
        batch_played(batch, step, tree, fuel) == continued(batch, step, tree),
    decreases fuel,
{
    let pair = batch.pairs[batch.index as int];
    let operation = step->Perform_0;
    let reply = answer(tree, operation);
    let tree2 = effect(tree, operation);
    let (stage2, step2) = next(pair.source, pair.destination, batch.stage, reply);
    let (batch2, follow) = batch_next(batch, reply);
    lemma_next_pending(pair.source, pair.destination, batch.stage, operation, tree);
    lemma_played_enough(
        pair.source,
        pair.destination,
        stage2,
        step2,
        tree2,
        (rank(batch.stage) - 1) as nat,
    );
    match step2 {
        StepView::Perform(_) => {
            lemma_batch_continues(batch2, follow, tree2, (fuel - 1) as nat);
        },
        StepView::Done(Err(_)) => {},
        StepView::Done(Ok(())) => {
            if batch.index + 1 < batch.pairs.len() {
                let after = batch.pairs[batch.index + 1 as int];
                lemma_batch_continues(batch2, follow, tree2, (fuel - 1) as nat);
                law_reconciler_plays(tree2, after.source, after.destination);
            }
        },
    }
}

/// The batch, played against the tree from its first step on, leaves what
/// [`ran`] states. On the way the tree permits every operation it asks for,
/// and every reply is the one it waits for.
pub proof fn law_batch_plays(tree: Tree, pairs: Seq<PairView>)
    ensures
        batch_played(turn_to(pairs, 0).0, turn_to(pairs, 0).1, tree, 4 * pairs.len())
            == (Played { outcome: ran(tree, pairs), orderly: true }),
{
    if pairs.len() > 0 {
        let (batch, step) = turn_to(pairs, 0);
        lemma_batch_continues(batch, step, tree, 4 * pairs.len());
        law_reconciler_plays(tree, pairs[0].source, pairs[0].destination);
    }
}

} // verus!
