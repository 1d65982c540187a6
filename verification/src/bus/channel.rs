//! The bounded channels that tasks and events travel through.

use vstd::prelude::*;
use crate::models::{AgentTask, TaskEvent};

verus! {

/// `tokio::sync::mpsc::Receiver`, the reading end of a bounded channel.
#[verifier::external_type_specification]
#[verifier::external_body]
#[verifier::reject_recursive_types(T)]
pub struct ExReceiver<T>(tokio::sync::mpsc::Receiver<T>);

/// `tokio::sync::mpsc::Sender`, the writing end of a bounded channel.
#[verifier::external_type_specification]
#[verifier::external_body]
#[verifier::reject_recursive_types(T)]
pub struct ExSender<T>(tokio::sync::mpsc::Sender<T>);

/// The most that a channel can be made to hold.
pub const MAX_CHANNEL_CAPACITY: usize = usize::MAX / 8;

/// The capacity that a task channel was made with.
pub uninterp spec fn task_capacity(tasks: tokio::sync::mpsc::Receiver<AgentTask>) -> nat;

/// The capacity that an event channel was made with.
pub uninterp spec fn event_capacity(events: tokio::sync::mpsc::Receiver<TaskEvent>) -> nat;

/// What the looks at a task channel gave so far, in order. It is empty for a channel
/// that was just made.
pub uninterp spec fn looks(tasks: tokio::sync::mpsc::Receiver<AgentTask>) -> Seq<Received>;

/// What was handed to a task channel through this end so far, in order, and what became
/// of it. It is empty for a channel that was just made.
pub uninterp spec fn task_offers(tasks: tokio::sync::mpsc::Sender<AgentTask>) -> Seq<
    (AgentTask, SendOutcome),
>;

/// What was handed to an event channel through this end so far, in order, and what became
/// of it. It is empty for a channel that was just made.
pub uninterp spec fn event_offers(events: tokio::sync::mpsc::Sender<TaskEvent>) -> Seq<
    (TaskEvent, SendOutcome),
>;

/// What a look at the task channel gave.
#[derive(Debug, Clone, PartialEq, Eq)]
pub enum Received {
    /// A task.
    Task(AgentTask),
    /// Nothing at the moment.
    Empty,
    /// Nothing ever again: no sender is left, and every task was read.
    Disconnected,
}

/// What became of something handed to a channel.
#[derive(Debug, Clone, Copy, PartialEq, Eq, Structural)]
pub enum SendOutcome {
    /// It is in the channel.
    Sent,
    /// The channel is full, and it was not taken.
    Full,
    /// Nobody reads the channel any more, and it was not taken.
    Closed,
}

/// `tokio::sync::mpsc::channel` for tasks: a channel of the given capacity. The
/// function panics on a capacity of 0 and on one above `MAX_CHANNEL_CAPACITY`.
#[verifier::external_body]
pub(crate) fn task_channel(capacity: usize) -> (ends: (
    tokio::sync::mpsc::Sender<AgentTask>,
    tokio::sync::mpsc::Receiver<AgentTask>,
))
    requires
        0 < capacity <= MAX_CHANNEL_CAPACITY,
    ensures
        task_offers(ends.0) == Seq::<(AgentTask, SendOutcome)>::empty(),
        task_capacity(ends.1) == capacity,
        looks(ends.1) == Seq::<Received>::empty(),
{
    tokio::sync::mpsc::channel(capacity)
}

/// `tokio::sync::mpsc::channel` for events: a channel of the given capacity. The
/// function panics on a capacity of 0 and on one above `MAX_CHANNEL_CAPACITY`.
#[verifier::external_body]
pub(crate) fn event_channel(capacity: usize) -> (ends: (
    tokio::sync::mpsc::Sender<TaskEvent>,
    tokio::sync::mpsc::Receiver<TaskEvent>,
))
    requires
        0 < capacity <= MAX_CHANNEL_CAPACITY,
    ensures
        event_offers(ends.0) == Seq::<(TaskEvent, SendOutcome)>::empty(),
        event_capacity(ends.1) == capacity,
{
    tokio::sync::mpsc::channel(capacity)
}

/// `tokio::sync::mpsc::Receiver::max_capacity`: the capacity the channel was made
/// with, which is never above `MAX_CHANNEL_CAPACITY`.
#[verifier::external_body]
pub(crate) fn max_capacity(tasks: &tokio::sync::mpsc::Receiver<AgentTask>) -> (capacity: usize)
    ensures
        capacity == task_capacity(*tasks),
        capacity <= MAX_CHANNEL_CAPACITY,
{
    tasks.max_capacity()
}

/// `tokio::sync::mpsc::Receiver::try_recv`: the next task, or that there is none now,
/// or that there will be none. What it gives depends on what others send, so nothing
/// is claimed of it but that it is the look that was taken. The channel's capacity
/// stays as it is.
#[verifier::external_body]
pub(crate) fn try_recv(tasks: &mut tokio::sync::mpsc::Receiver<AgentTask>) -> (received: Received)
    ensures
        task_capacity(*final(tasks)) == task_capacity(*old(tasks)),
        looks(*final(tasks)) == looks(*old(tasks)).push(received),
{
    match tasks.try_recv() {
        Ok(task) => Received::Task(task),
        Err(tokio::sync::mpsc::error::TryRecvError::Empty) => Received::Empty,
        Err(tokio::sync::mpsc::error::TryRecvError::Disconnected) => Received::Disconnected,
    }
}

/// `tokio::sync::mpsc::Sender::try_send` for tasks: hands a task to the channel without
/// waiting. Whether the channel takes it depends on its other users, so nothing is
/// claimed of the outcome but that it is what became of the task.
#[verifier::external_body]
pub(crate) fn try_send_task(
    tasks: &mut tokio::sync::mpsc::Sender<AgentTask>,
    task: AgentTask,
) -> (outcome: SendOutcome)
    ensures
        task_offers(*final(tasks)) == task_offers(*old(tasks)).push((task, outcome)),
{
    match tasks.try_send(task) {
        Ok(()) => SendOutcome::Sent,
        Err(tokio::sync::mpsc::error::TrySendError::Full(_)) => SendOutcome::Full,
        Err(tokio::sync::mpsc::error::TrySendError::Closed(_)) => SendOutcome::Closed,
    }
}

/// `tokio::sync::mpsc::Sender::try_send` for events: hands an event to the channel
/// without waiting. Whether the channel takes it depends on its other users, so nothing
/// is claimed of the outcome but that it is what became of the event.
#[verifier::external_body]
pub(crate) fn try_send_event(
    events: &mut tokio::sync::mpsc::Sender<TaskEvent>,
    event: TaskEvent,
) -> (outcome: SendOutcome)
    ensures
        event_offers(*final(events)) == event_offers(*old(events)).push((event, outcome)),
{
    match events.try_send(event) {
        Ok(()) => SendOutcome::Sent,
        Err(tokio::sync::mpsc::error::TrySendError::Full(_)) => SendOutcome::Full,
        Err(tokio::sync::mpsc::error::TrySendError::Closed(_)) => SendOutcome::Closed,
    }
}

} // verus!
