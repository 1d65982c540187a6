//! What is said of a consumer that could not process an event.

use vstd::prelude::*;
use crate::text::concat2;

verus! {

/// A consumer could not process an event. The event stays recorded, and the other
/// consumers still get it.
#[derive(Debug, Clone, PartialEq, Eq)]
pub enum ConsumerError {
    /// It failed.
    Failed {
        /// Why.
        reason: String,
    },
}

impl ConsumerError {
    /// Renders the error.
    pub fn to_string(&self) -> (text: String)
        ensures
            text@ == "event consumer failed: "@ + self->reason@,
    {
        match self {
            ConsumerError::Failed { reason } => concat2("event consumer failed: ", reason.as_str()),
        }
    }
}

/// An event on its way to the consumers, in their order.
#[derive(Debug, Clone, Copy, PartialEq, Eq, Structural)]
pub struct EventBroadcaster {
    consumers: usize,
    at: usize,
}

impl EventBroadcaster {
    /// How many consumers there are.
    pub closed spec fn count(&self) -> nat {
        self.consumers as nat
    }

    /// How many of them had the event.
    pub closed spec fn done(&self) -> nat {
        self.at as nat
    }

    /// An event for `consumers` consumers.
    pub fn new(consumers: usize) -> (broadcaster: EventBroadcaster)
        ensures
            broadcaster.count() == consumers,
            broadcaster.done() == 0,
    {
        EventBroadcaster { consumers, at: 0 }
    }

    /// The number of consumers.
    pub fn consumer_count(&self) -> (count: usize)
        ensures
            count == self.count(),
    {
        self.consumers
    }

    /// The consumer that gets the event next, until everyone had it. What the one
    /// before made of it changes nothing.
    pub fn next(&mut self) -> (consumer: Option<usize>)
        ensures
            final(self).count() == old(self).count(),
            match consumer {
                Some(number) => number == old(self).done() && number < old(self).count()
                    && final(self).done() == old(self).done() + 1,
                None => old(self).done() >= old(self).count() && final(self).done() == old(
                    self,
                ).done(),
            },
    {
        if self.at < self.consumers {
            self.at = self.at + 1;
            Some(self.at - 1)
        } else {
            None
        }
    }
}

} // verus!
