//! The reconciler: the steps that make one destination a link to its
//! source, decided one reply at a time.
//!
//! The order is fixed. What occupies the destination is removed first: a
//! link by unlinking it, a file or directory by deleting it. Only then is
//! the source looked at, so a missing source is reported after the old
//! destination is gone, and nothing is linked.

use vstd::prelude::*;

use crate::error::{io_failure, SyncError, SyncErrorView};
use crate::filesystem::{
    delete, linking, removal, symlink, symlink_delete, symlink_exists, FilesystemError, Operation,
    OperationView, Reply,
};

verus! {

/// Where a reconciliation stands: which reply it waits for.
#[derive(Clone, Copy, Debug, PartialEq, Eq, Structural)]
pub enum Stage {
    /// Waiting for the look at the destination.
    Examine,
    /// Waiting for the removal of what occupied the destination.
    Clear,
    /// Waiting for the look at the source.
    Survey,
    /// Waiting for the creation of the link.
    Link,
    /// Nothing is pending.
    Finished,
}

/// What the caller is to do next.
#[derive(Debug)]
pub enum Step {
    /// Carry out the operation and hand its reply to `advance`.
    Perform(Operation),
    /// Stop: this is the result.
    Done(Result<(), SyncError>),
}

/// A [`Step`] with its paths as sequences of characters.
pub enum StepView {
    Perform(OperationView),
    Done(Result<(), SyncErrorView>),
}

impl View for Step {
    type V = StepView;

    open spec fn view(&self) -> StepView {
        match self {
            Step::Perform(operation) => StepView::Perform(operation@),
            Step::Done(Ok(())) => StepView::Done(Ok(())),
            Step::Done(Err(error)) => StepView::Done(Err(error@)),
        }
    }
}

/// The reply answers the operation that is pending in `stage`.
pub open spec fn expects(stage: Stage, reply: Reply) -> bool {
    match stage {
        Stage::Examine | Stage::Survey => reply is Probed,
        Stage::Clear | Stage::Link => reply is Performed,
        Stage::Finished => false,
    }
}

/// The first step of a reconciliation: a look at the destination.
pub open spec fn first(destination: Seq<char>) -> (Stage, StepView) {
    (Stage::Examine, StepView::Perform(OperationView::Inspect(destination)))
}

/// The look at the source, which follows once the destination is clear.
pub open spec fn survey(source: Seq<char>) -> (Stage, StepView) {
    (Stage::Survey, StepView::Perform(OperationView::Inspect(source)))
}

/// The end of a reconciliation with `error`.
pub open spec fn fail(error: SyncErrorView) -> (Stage, StepView) {
    (Stage::Finished, StepView::Done(Err(error)))
}

/// The stage and step that follow `stage` on `reply`, for the pair of
/// `source` and `destination`. It is meant for a reply that the stage
/// [`expects`].
pub open spec fn next(source: Seq<char>, destination: Seq<char>, stage: Stage, reply: Reply) -> (
    Stage,
    StepView,
)
    recommends
        expects(stage, reply),
{
    match (stage, reply) {
        (Stage::Examine, Reply::Probed(probe)) => {
            if probe.is_link {
                (Stage::Clear, StepView::Perform(OperationView::Unlink(destination)))
            } else if probe.exists {
                match removal(destination, probe) {
                    Ok(operation) => (Stage::Clear, StepView::Perform(operation)),
                    Err(error) => fail(SyncErrorView::Filesystem(error)),
                }
            } else {
                survey(source)
            }
        },
        (Stage::Clear, Reply::Performed(Ok(()))) => survey(source),
        (Stage::Survey, Reply::Probed(probe)) => {
            if !probe.exists {
                fail(SyncErrorView::SourceMissing(source))
            } else {
                match linking(source, destination, probe) {
                    Ok(operation) => (Stage::Link, StepView::Perform(operation)),
                    Err(error) => fail(SyncErrorView::Filesystem(error)),
                }
            }
        },
        (Stage::Link, Reply::Performed(Ok(()))) => (Stage::Finished, StepView::Done(Ok(()))),
        (_, Reply::Performed(Err(cause))) => fail(io_failure(cause)),
        (_, Reply::Probed(_)) => (Stage::Finished, StepView::Done(Ok(()))),
        (_, Reply::Performed(Ok(()))) => (Stage::Finished, StepView::Done(Ok(()))),
    }
}

/// Whether `reply` answers the operation that is pending in `stage`.
pub fn answers(stage: Stage, reply: &Reply) -> (r: bool)
    ensures
        r == expects(stage, *reply),
{
    match stage {
        Stage::Examine | Stage::Survey => match reply {
            Reply::Probed(_) => true,
            Reply::Performed(_) => false,
        },
        Stage::Clear | Stage::Link => match reply {
            Reply::Probed(_) => false,
            Reply::Performed(_) => true,
        },
        Stage::Finished => false,
    }
}

/// Decides the stage and step that follow `stage` on `reply`.
pub fn transition(source: &str, destination: &str, stage: Stage, reply: Reply) -> (r: (Stage, Step))
    requires
        expects(stage, reply),
    ensures
        (r.0, r.1@) == next(source@, destination@, stage, reply),
{
    match reply {
        Reply::Probed(probe) => match stage {
            Stage::Examine => {
                if symlink_exists(&probe) {
                    (Stage::Clear, Step::Perform(symlink_delete(destination)))
                } else if probe.exists {
                    match delete(destination, &probe) {
                        Ok(operation) => (Stage::Clear, Step::Perform(operation)),
                        Err(error) => (
                            Stage::Finished,
                            Step::Done(Err(SyncError::Filesystem(error))),
                        ),
                    }
                } else {
                    (Stage::Survey, Step::Perform(Operation::Inspect(source.to_owned())))
                }
            },
            _ => {
                if !probe.exists {
                    (
                        Stage::Finished,
                        Step::Done(Err(SyncError::SourceMissing(source.to_owned()))),
                    )
                } else {
                    match symlink(source, destination, &probe) {
                        Ok(operation) => (Stage::Link, Step::Perform(operation)),
                        Err(error) => (
                            Stage::Finished,
                            Step::Done(Err(SyncError::Filesystem(error))),
                        ),
                    }
                }
            },
        },
        Reply::Performed(Err(cause)) => (
            Stage::Finished,
            Step::Done(Err(SyncError::Filesystem(FilesystemError::Io(cause)))),
        ),
        Reply::Performed(Ok(())) => match stage {
            Stage::Clear => (Stage::Survey, Step::Perform(Operation::Inspect(source.to_owned()))),
            _ => (Stage::Finished, Step::Done(Ok(()))),
        },
    }
}

/// The reconciliation of one pair, under way.
#[derive(Debug)]
pub struct Reconciler {
    source: String,
    destination: String,
    stage: Stage,
}

/// A [`Reconciler`] with its paths as sequences of characters.
pub struct ReconcilerView {
    pub source: Seq<char>,
    pub destination: Seq<char>,
    pub stage: Stage,
}

impl View for Reconciler {
    type V = ReconcilerView;

    closed spec fn view(&self) -> ReconcilerView {
        ReconcilerView { source: self.source@, destination: self.destination@, stage: self.stage }
    }
}

impl Reconciler {
    /// Begins to make `destination` a link to `source`: the reconciler, and
    /// its first step.
    pub fn new(source: &str, destination: &str) -> (r: (Reconciler, Step))
        ensures
            r.0@.source == source@,
            r.0@.destination == destination@,
            (r.0@.stage, r.1@) == first(destination@),
    {
        (
            Reconciler {
                source: source.to_owned(),
                destination: destination.to_owned(),
                stage: Stage::Examine,
            },
            Step::Perform(Operation::Inspect(destination.to_owned())),
        )
    }

    /// Which reply the reconciler waits for.
    pub fn stage(&self) -> (r: Stage)
        ensures
            r == self@.stage,
    {
        self.stage
    }

    /// Whether `reply` answers the operation that is pending.
    pub fn accepts(&self, reply: &Reply) -> (r: bool)
        ensures
            r == expects(self@.stage, *reply),
    {
        answers(self.stage, reply)
    }

    /// Takes the reply to the operation that was asked for last, and says
    /// what follows as [`next`] has it.
    pub fn advance(&mut self, reply: Reply) -> (step: Step)
        requires
            expects(old(self)@.stage, reply),
        ensures
            final(self)@.source == old(self)@.source,
            final(self)@.destination == old(self)@.destination,
            (final(self)@.stage, step@) == next(
                old(self)@.source,
                old(self)@.destination,
                old(self)@.stage,
                reply,
            ),
    {
        let (stage, step) = transition(
            self.source.as_str(),
            self.destination.as_str(),
            self.stage,
            reply,
        );
        self.stage = stage;
        step
    }
}

} // verus!
