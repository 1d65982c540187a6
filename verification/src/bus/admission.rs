//! Where a task came from.

use vstd::prelude::*;

verus! {

/// The outside event that a task was made of, and where its answer goes.
#[derive(Debug, Clone, PartialEq, Eq)]
pub struct AdmissionContext {
    /// The transport it arrived by.
    pub transport: String,
    /// The identity of the event on that transport.
    pub external_event_id: String,
    /// The room or context it belongs to.
    pub room_id: String,
    /// The thread it belongs to.
    pub thread_root: Option<String>,
    /// The event that an answer replies to.
    pub reply_event_id: String,
    /// The room that observes the task.
    pub monitor_room: Option<String>,
    /// The configuration under which it is observed.
    pub monitor_generation: u64,
}

} // verus!
