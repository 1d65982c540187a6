//! Submission: the target is judged, the task enqueued, and its first event written.

use std::sync::Arc;
use vstd::prelude::*;
use crate::bus::channel::{
    event_capacity, event_channel, event_offers, looks, task_capacity, task_channel, task_offers,
    try_send_event, try_send_task, Received, SendOutcome, MAX_CHANNEL_CAPACITY,
};
use crate::bus::error::BusError;
use crate::bus::registry::{declared_endpoint, judged, EndpointRegistry, EndpointView};
use crate::config::{AgentEntry, Config};
use crate::ids::{is_version_7, EventId, TaskId};
use crate::models::{AgentTask, TaskEvent, TaskEventPayload, TaskStatus};
use crate::time::Timestamp;

verus! {

/// Capacity of the task queue and of the event buffer, unless configured otherwise.
pub const DEFAULT_QUEUE_CAPACITY: usize = 1024;

/// Whether `event` is the first event of a task: `Queued`, at sequence number 1.
pub open spec fn is_queued_event(event: TaskEvent, task_id: TaskId, now: Timestamp) -> bool {
    &&& is_version_7(event.id.bits())
    &&& event.task_id == task_id
    &&& event.seq == 1
    &&& event.status == TaskStatus::Queued
    &&& event.timestamp == now
    &&& event.payload == TaskEventPayload::Queued
}

/// The first event of a task: `Queued`, at sequence number 1.
pub fn queued_event(task_id: TaskId, now: Timestamp) -> (event: TaskEvent)
    ensures
        is_queued_event(event, task_id, now),
{
    TaskEvent {
        id: EventId::generate(),
        task_id,
        seq: 1,
        status: TaskStatus::Queued,
        timestamp: now,
        payload: TaskEventPayload::Queued,
    }
}

/// What an attempt to enqueue a task means.
pub open spec fn enqueued(outcome: SendOutcome) -> Result<(), BusError> {
    match outcome {
        SendOutcome::Sent => Ok(()),
        SendOutcome::Full => Err(BusError::QueueFull),
        SendOutcome::Closed => Err(BusError::TaskChannelClosed),
    }
}

/// What an attempt to write an event means.
pub open spec fn emitted(outcome: SendOutcome) -> Result<(), BusError> {
    match outcome {
        SendOutcome::Sent => Ok(()),
        SendOutcome::Full => Err(BusError::EventBufferFull),
        SendOutcome::Closed => Err(BusError::EventSinkClosed),
    }
}

/// Whether `after` is `before` and one more offer, of `value`.
pub open spec fn offered_next<T>(
    before: Seq<(T, SendOutcome)>,
    after: Seq<(T, SendOutcome)>,
    value: T,
) -> bool {
    after.len() == before.len() + 1 && after == before.push((value, after.last().1))
}

/// What an attempt to enqueue a task means.
pub fn enqueue_result(outcome: SendOutcome) -> (result: Result<(), BusError>)
    ensures
        result == enqueued(outcome),
{
    match outcome {
        SendOutcome::Sent => Ok(()),
        SendOutcome::Full => Err(BusError::QueueFull),
        SendOutcome::Closed => Err(BusError::TaskChannelClosed),
    }
}

/// What an attempt to write an event means.
pub fn emit_result(outcome: SendOutcome) -> (result: Result<(), BusError>)
    ensures
        result == emitted(outcome),
{
    match outcome {
        SendOutcome::Sent => Ok(()),
        SendOutcome::Full => Err(BusError::EventBufferFull),
        SendOutcome::Closed => Err(BusError::EventSinkClosed),
    }
}

/// A bounded event channel with one reader.
pub struct MpscEventSink {
    tx: tokio::sync::mpsc::Sender<TaskEvent>,
}

impl MpscEventSink {
    /// The events that were handed to the channel, and what became of them.
    pub closed spec fn offers(&self) -> Seq<(TaskEvent, SendOutcome)> {
        event_offers(self.tx)
    }

    /// A sink, and the end that its events are read from.
    pub fn new(capacity: usize) -> (ends: (MpscEventSink, tokio::sync::mpsc::Receiver<TaskEvent>))
        requires
            0 < capacity <= MAX_CHANNEL_CAPACITY,
        ensures
            ends.0.offers() == Seq::<(TaskEvent, SendOutcome)>::empty(),
            event_capacity(ends.1) == capacity,
    {
        let (tx, rx) = event_channel(capacity);
        (MpscEventSink { tx }, rx)
    }

    /// Writes one event, or says why it was not written. It never waits. Whether the
    /// channel takes the event depends on its other users.
    pub fn emit(&mut self, event: TaskEvent) -> (result: Result<(), BusError>)
        ensures
            offered_next(old(self).offers(), final(self).offers(), event),
            result == emitted(final(self).offers().last().1),
    {
        emit_result(try_send_event(&mut self.tx, event))
    }
}

/// The reading ends of a bus, handed out once.
pub struct BusReceivers {
    /// Tasks, in the order of their submission.
    pub tasks: tokio::sync::mpsc::Receiver<AgentTask>,
    /// Events.
    pub events: tokio::sync::mpsc::Receiver<TaskEvent>,
}

/// The in-memory bus.
pub struct MemoryBus {
    registry: Arc<EndpointRegistry>,
    tasks: tokio::sync::mpsc::Sender<AgentTask>,
    events: MpscEventSink,
}

impl MemoryBus {
    /// The endpoints that targets are judged against.
    pub closed spec fn endpoints(&self) -> Seq<EndpointView> {
        self.registry@
    }

    /// The tasks that were handed to the queue, and what became of them.
    pub closed spec fn tasks_offered(&self) -> Seq<(AgentTask, SendOutcome)> {
        task_offers(self.tasks)
    }

    /// The events that were handed to the sink, and what became of them.
    pub closed spec fn events_offered(&self) -> Seq<(TaskEvent, SendOutcome)> {
        self.events.offers()
    }

    /// A bus whose task queue and event buffer have the given capacity.
    pub fn new(registry: Arc<EndpointRegistry>, capacity: usize) -> (bus: (MemoryBus, BusReceivers))
        requires
            0 < capacity <= MAX_CHANNEL_CAPACITY,
        ensures
            bus.0.endpoints() == registry@,
            bus.0.tasks_offered() == Seq::<(AgentTask, SendOutcome)>::empty(),
            bus.0.events_offered() == Seq::<(TaskEvent, SendOutcome)>::empty(),
            task_capacity(bus.1.tasks) == capacity,
            looks(bus.1.tasks) == Seq::<Received>::empty(),
            event_capacity(bus.1.events) == capacity,
    {
        let (sink, events) = MpscEventSink::new(capacity);
        let (bus, tasks) = MemoryBus::with_event_sink(registry, capacity, sink);
        (bus, BusReceivers { tasks, events })
    }

    /// A bus that writes its events to a given sink.
    pub fn with_event_sink(
        registry: Arc<EndpointRegistry>,
        capacity: usize,
        events: MpscEventSink,
    ) -> (bus: (MemoryBus, tokio::sync::mpsc::Receiver<AgentTask>))
        requires
            0 < capacity <= MAX_CHANNEL_CAPACITY,
        ensures
            bus.0.endpoints() == registry@,
            bus.0.tasks_offered() == Seq::<(AgentTask, SendOutcome)>::empty(),
            bus.0.events_offered() == events.offers(),
            task_capacity(bus.1) == capacity,
            looks(bus.1) == Seq::<Received>::empty(),
    {
        let (tx, rx) = task_channel(capacity);
        (MemoryBus { registry, tasks: tx, events }, rx)
    }

    /// A bus over the endpoints of a configuration.
    pub fn from_config(config: &Config, capacity: usize) -> (bus: (MemoryBus, BusReceivers))
        requires
            0 < capacity <= MAX_CHANNEL_CAPACITY,
        ensures
            bus.0.endpoints() == config.agents@.map_values(
                |entry: AgentEntry| declared_endpoint(entry),
            ),
            bus.0.tasks_offered() == Seq::<(AgentTask, SendOutcome)>::empty(),
            bus.0.events_offered() == Seq::<(TaskEvent, SendOutcome)>::empty(),
            task_capacity(bus.1.tasks) == capacity,
            looks(bus.1.tasks) == Seq::<Received>::empty(),
            event_capacity(bus.1.events) == capacity,
    {
        MemoryBus::new(Arc::new(EndpointRegistry::from_config(config)), capacity)
    }

    /// The registry that targets are judged against.
    pub fn registry(&self) -> (registry: &EndpointRegistry)
        ensures
            registry@ == self.endpoints(),
    {
        &self.registry
    }

    /// Judges the target and enqueues the task, and gives its `Queued` event, which is to
    /// be written to a sink. A rejected target means that nothing was enqueued. Whether
    /// the queue takes the task depends on its other users.
    pub fn enqueue(&mut self, task: AgentTask, now: Timestamp) -> (event: Result<
        TaskEvent,
        BusError,
    >)
        ensures
            final(self).endpoints() == old(self).endpoints(),
            final(self).events_offered() == old(self).events_offered(),
            match judged(old(self).endpoints(), task.to_agent) {
                Err(error) => {
                    &&& event == Err::<TaskEvent, BusError>(error)
                    &&& final(self).tasks_offered() == old(self).tasks_offered()
                },
                Ok(_) => {
                    let queued = final(self).tasks_offered().last().1;
                    &&& offered_next(old(self).tasks_offered(), final(self).tasks_offered(), task)
                    &&& match event {
                        Ok(event) => queued is Sent && is_queued_event(event, task.task_id, now),
                        Err(error) => enqueued(queued) == Err::<(), BusError>(error),
                    }
                },
            },
    {
        match self.registry.validate_target(task.to_agent) {
            Ok(_) => {},
            Err(error) => {
                return Err(error);
            },
        }
        let task_id = task.task_id;
        match enqueue_result(try_send_task(&mut self.tasks, task)) {
            Ok(()) => Ok(queued_event(task_id, now)),
            Err(error) => Err(error),
        }
    }

    /// Judges the target, enqueues the task, and writes its `Queued` event. A rejected
    /// target means that nothing was enqueued and nothing written; a queue that does
    /// not take the task, that nothing was written; an event that could not be
    /// written, that the task is queued nevertheless. Whether the two channels take
    /// what they are given depends on their other users.
    pub fn submit(&mut self, task: AgentTask, now: Timestamp) -> (result: Result<(), BusError>)
        ensures
            final(self).endpoints() == old(self).endpoints(),
            match judged(old(self).endpoints(), task.to_agent) {
                Err(error) => {
                    &&& result == Err::<(), BusError>(error)
                    &&& final(self).tasks_offered() == old(self).tasks_offered()
                    &&& final(self).events_offered() == old(self).events_offered()
                },
                Ok(_) => {
                    let queued = final(self).tasks_offered().last().1;
                    let told = final(self).events_offered();
                    &&& offered_next(old(self).tasks_offered(), final(self).tasks_offered(), task)
                    &&& if queued is Sent {
                        &&& offered_next(old(self).events_offered(), told, told.last().0)
                        &&& is_queued_event(told.last().0, task.task_id, now)
                        &&& result == emitted(told.last().1)
                    } else {
                        told == old(self).events_offered() && result == enqueued(queued)
                    }
                },
            },
    {
        match self.enqueue(task, now) {
            Ok(event) => self.events.emit(event),
            Err(error) => Err(error),
        }
    }
}

/// The first event of a task says that it is queued, as the first of its numbers.
pub proof fn law_the_first_event_says_queued(event: TaskEvent, task_id: TaskId, now: Timestamp)
    requires
        is_queued_event(event, task_id, now),
    ensures
        event.task_id == task_id,
        event.seq == 1,
        event.status is Queued,
        event.payload is Queued,
        event.timestamp == now,
{
}

/// What a channel does not take is told as it is: full, or closed.
pub proof fn law_what_is_not_taken_is_told(outcome: SendOutcome)
    ensures
        enqueued(outcome) is Ok <==> outcome is Sent,
        emitted(outcome) is Ok <==> outcome is Sent,
        outcome is Full ==> enqueued(outcome) == Err::<(), BusError>(BusError::QueueFull)
            && emitted(outcome) == Err::<(), BusError>(BusError::EventBufferFull),
        outcome is Closed ==> enqueued(outcome) == Err::<(), BusError>(BusError::TaskChannelClosed)
            && emitted(outcome) == Err::<(), BusError>(BusError::EventSinkClosed),
{
}

} // verus!
