//! Handing a gateway's stored task to the queue.
//!
//! The task is taken from those that are ready, then enqueued. Where it cannot be
//! enqueued, it is put back, so that recovery finds it.

use vstd::prelude::*;

use crate::bus::error::BusError;

verus! {

/// Where a handoff is.
#[derive(Debug, Clone, Copy, PartialEq, Eq, Structural)]
pub enum HandoffStage {
    AwaitTaken,
    AwaitEnqueued,
    AwaitRestored(BusError),
    Done,
}

/// What came of an action.
#[derive(Debug, PartialEq, Eq)]
pub enum HandoffInput {
    /// Whether the task was taken; nothing where the store failed.
    Taken(Option<bool>),
    /// Whether the task was enqueued.
    Enqueued(Result<(), BusError>),
    /// The task was put back, or could not be.
    Restored,
}

/// What to do next for a handoff.
#[derive(Debug, PartialEq, Eq)]
pub enum HandoffAction {
    /// Take the task at this revision.
    Take { revision: i64 },
    /// Enqueue the task.
    Enqueue,
    /// Put the task back at this revision.
    Restore { revision: i64 },
    /// This is how the handoff ended.
    Finished(Result<(), BusError>),
}

/// Whether `input` answers what a handoff in `stage` waits for.
pub open spec fn handoff_expects(stage: HandoffStage, input: HandoffInput) -> bool {
    match stage {
        HandoffStage::AwaitTaken => input is Taken,
        HandoffStage::AwaitEnqueued => input is Enqueued,
        HandoffStage::AwaitRestored(_) => input is Restored,
        HandoffStage::Done => false,
    }
}

/// How a handoff goes on of a task that was ready at `revision`. Taking it is itself
/// a revision.
pub open spec fn handoff_next(revision: i64, stage: HandoffStage, input: HandoffInput) -> (
    HandoffStage,
    HandoffAction,
) {
    match (stage, input) {
        (HandoffStage::AwaitTaken, HandoffInput::Taken(Some(true))) => (
            HandoffStage::AwaitEnqueued,
            HandoffAction::Enqueue,
        ),
        (HandoffStage::AwaitEnqueued, HandoffInput::Enqueued(Ok(()))) => (
            HandoffStage::Done,
            HandoffAction::Finished(Ok(())),
        ),
        (HandoffStage::AwaitEnqueued, HandoffInput::Enqueued(Err(error))) => (
            HandoffStage::AwaitRestored(error),
            HandoffAction::Restore { revision: (revision + 1) as i64 },
        ),
        (HandoffStage::AwaitRestored(error), HandoffInput::Restored) => (
            HandoffStage::Done,
            HandoffAction::Finished(Err(error)),
        ),
        _ => (HandoffStage::Done, HandoffAction::Finished(Err(BusError::TaskChannelClosed))),
    }
}

/// A task on its way from the gateway to the queue.
#[derive(Debug)]
pub struct GatewayHandoff {
    revision: i64,
    stage: HandoffStage,
}

impl GatewayHandoff {
    /// The revision that the task was ready at.
    pub closed spec fn revision(&self) -> i64 {
        self.revision
    }

    /// Where the handoff is.
    pub closed spec fn stage(&self) -> HandoffStage {
        self.stage
    }

    /// Begin to hand over a task that is ready at `revision`.
    pub fn handoff(revision: i64) -> (run: (GatewayHandoff, HandoffAction))
        requires
            revision < i64::MAX,
        ensures
            run.0.revision() == revision,
            run.0.stage() is AwaitTaken,
            run.1 == (HandoffAction::Take { revision }),
    {
        let run = GatewayHandoff { revision, stage: HandoffStage::AwaitTaken };
        (run, HandoffAction::Take { revision })
    }

    /// Whether `input` answers what the handoff waits for.
    pub fn expects(&self, input: &HandoffInput) -> (yes: bool)
        ensures
            yes == handoff_expects(self.stage(), *input),
    {
        match (self.stage, input) {
            (HandoffStage::AwaitTaken, HandoffInput::Taken(_)) => true,
            (HandoffStage::AwaitEnqueued, HandoffInput::Enqueued(_)) => true,
            (HandoffStage::AwaitRestored(_), HandoffInput::Restored) => true,
            _ => false,
        }
    }

    /// Go on with what came of the last action.
    pub fn step(&mut self, input: HandoffInput) -> (action: HandoffAction)
        requires
            old(self).revision() < i64::MAX,
            handoff_expects(old(self).stage(), input),
        ensures
            final(self).revision() == old(self).revision(),
            (final(self).stage(), action) == handoff_next(
                old(self).revision(),
                old(self).stage(),
                input,
            ),
    {
        let stage = self.stage;
        self.stage = HandoffStage::Done;
        match (stage, input) {
            (HandoffStage::AwaitTaken, HandoffInput::Taken(Some(true))) => {
                self.stage = HandoffStage::AwaitEnqueued;
                HandoffAction::Enqueue
            },
            (HandoffStage::AwaitEnqueued, HandoffInput::Enqueued(Ok(()))) => {
                HandoffAction::Finished(Ok(()))
            },
            (HandoffStage::AwaitEnqueued, HandoffInput::Enqueued(Err(error))) => {
                self.stage = HandoffStage::AwaitRestored(error);
                HandoffAction::Restore { revision: self.revision + 1 }
            },
            (HandoffStage::AwaitRestored(error), HandoffInput::Restored) => {
                HandoffAction::Finished(Err(error))
            },
            _ => HandoffAction::Finished(Err(BusError::TaskChannelClosed)),
        }
    }
}

/// A task that was taken and could not be enqueued is put back before the handoff
/// ends, and the caller learns why it was not enqueued.
pub proof fn law_a_refused_task_is_put_back(revision: i64, error: BusError)
    requires
        revision < i64::MAX,
    ensures
        ({
            let (waiting, first) = handoff_next(
                revision,
                HandoffStage::AwaitEnqueued,
                HandoffInput::Enqueued(Err(error)),
            );
            let (ended, second) = handoff_next(revision, waiting, HandoffInput::Restored);
            &&& first == (HandoffAction::Restore { revision: (revision + 1) as i64 })
            &&& second == HandoffAction::Finished(Err(error))
            &&& ended is Done
        }),
{
}

/// How a handoff ends: with the task in the queue where it was taken and enqueued, and with
/// an error otherwise. What is taken is enqueued, and nothing else; what could not be
/// enqueued is put back, at the revision that taking it made.
pub proof fn law_a_handoff_ends_as_the_queue_answers(
    revision: i64,
    taken: Option<bool>,
    enqueued: Result<(), BusError>,
)
    requires
        revision < i64::MAX,
    ensures
        ({
            let (second, asked) = handoff_next(
                revision,
                HandoffStage::AwaitTaken,
                HandoffInput::Taken(taken),
            );
            let (third, told) = handoff_next(revision, second, HandoffInput::Enqueued(enqueued));
            let (fourth, end) = handoff_next(revision, third, HandoffInput::Restored);
            if taken != Some(true) {
                second is Done && asked == HandoffAction::Finished(
                    Err(BusError::TaskChannelClosed),
                )
            } else {
                &&& asked == HandoffAction::Enqueue
                &&& forall|next: HandoffInput| #[trigger]
                    handoff_expects(second, next) <==> next is Enqueued
                &&& match enqueued {
                    Ok(_) => third is Done && told == HandoffAction::Finished(Ok(())),
                    Err(error) => {
                        &&& told == (HandoffAction::Restore { revision: (revision + 1) as i64 })
                        &&& forall|next: HandoffInput| #[trigger]
                            handoff_expects(third, next) <==> next is Restored
                        &&& fourth is Done
                        &&& end == HandoffAction::Finished(Err(error))
                    },
                }
            }
        }),
        forall|next: HandoffInput| #[trigger]
            handoff_expects(HandoffStage::AwaitTaken, next) <==> next is Taken,
        forall|next: HandoffInput| !#[trigger] handoff_expects(HandoffStage::Done, next),
{
}

} // verus!
