//! Tasks, their events, and the endpoints they travel between.

use vstd::prelude::*;
use crate::ids::{ConversationId, DeliveryId, EndpointId, EventId, TaskId};
use crate::time::Timestamp;

verus! {

/// How an endpoint is reached.
#[derive(Debug, Clone, Copy, PartialEq, Eq, Structural)]
pub enum TransportType {
    /// A child process speaking the Agent Client Protocol.
    Acp,
    /// A Matrix user.
    Matrix,
    /// An HTTP service.
    Http,
    /// An A2A peer.
    A2a,
}

/// Where an endpoint is reached.
#[derive(Debug, Clone, PartialEq, Eq)]
pub enum EndpointAddress {
    /// The command line of an agent process.
    Acp {
        /// The program.
        command: String,
        /// Its arguments.
        args: Vec<String>,
    },
    /// The key of a configured A2A peer.
    A2a {
        /// The peer's key.
        peer: String,
    },
}

/// An endpoint with everything needed to reach it.
#[derive(Debug, Clone, PartialEq, Eq)]
pub struct AgentEndpoint {
    /// Its identity.
    pub id: EndpointId,
    /// How it is reached.
    pub transport: TransportType,
    /// Where it is reached.
    pub address: EndpointAddress,
    /// Whether tasks may be sent to it.
    pub enabled: bool,
    /// What it declares it can do.
    pub capabilities: Vec<String>,
}

/// The most urgent priority.
pub const MAX_PRIORITY: u8 = 10;

/// How urgent a task is: 0 to 10, larger being more urgent.
#[derive(Debug, Clone, Copy, PartialEq, Eq, Structural)]
pub struct Priority {
    value: u8,
}

impl Priority {
    #[verifier::type_invariant]
    spec fn in_range(self) -> bool {
        self.value <= MAX_PRIORITY
    }

    /// The numeric priority.
    pub closed spec fn rank(self) -> u8 {
        self.value
    }

    /// The priority with the given number, where there is one.
    pub fn new(value: u8) -> (priority: Option<Priority>)
        ensures
            priority is Some <==> value <= MAX_PRIORITY,
            priority matches Some(p) ==> p.rank() == value,
    {
        if value <= MAX_PRIORITY {
            Some(Priority { value })
        } else {
            None
        }
    }

    /// The priority of a task that asks for none.
    pub fn normal() -> (priority: Priority)
        ensures
            priority.rank() == 5,
    {
        Priority { value: 5 }
    }

    /// The numeric priority.
    pub fn value(&self) -> (value: u8)
        ensures
            value == self.rank(),
            value <= MAX_PRIORITY,
    {
        proof {
            use_type_invariant(self);
        }
        self.value
    }
}

/// A unit of work for an agent.
#[derive(Debug, Clone, PartialEq, Eq)]
pub struct AgentTask {
    /// Its identity.
    pub task_id: TaskId,
    /// The task at the root of its tree.
    pub root_task_id: TaskId,
    /// The task that spawned it.
    pub parent_task_id: Option<TaskId>,
    /// Who asks.
    pub from_agent: EndpointId,
    /// Who is asked.
    pub to_agent: EndpointId,
    /// The conversation it belongs to.
    pub conversation_id: ConversationId,
    /// The endpoint that wants the reply, where it is not the asker.
    pub reply_to: Option<EndpointId>,
    /// The request itself.
    pub text: String,
    /// How urgent it is.
    pub priority: Priority,
    /// Nesting depth in the task tree; a root task has depth 0.
    pub depth: u32,
    /// Agent-to-agent hops so far.
    pub hops: u32,
    /// The instant after which the task is no longer worth running.
    pub deadline: Option<Timestamp>,
    /// Optimistic-concurrency counter, owned by the store.
    pub version: u64,
}

impl AgentTask {
    /// A copy of the task.
    pub fn duplicate(&self) -> (copy: AgentTask)
        ensures
            copy == *self,
    {
        AgentTask {
            task_id: self.task_id,
            root_task_id: self.root_task_id,
            parent_task_id: self.parent_task_id,
            from_agent: self.from_agent,
            to_agent: self.to_agent,
            conversation_id: self.conversation_id,
            reply_to: self.reply_to,
            text: self.text.clone(),
            priority: self.priority,
            depth: self.depth,
            hops: self.hops,
            deadline: self.deadline,
            version: self.version,
        }
    }
}

/// Where a task stands.
#[derive(Debug, Clone, Copy, PartialEq, Eq, Structural)]
pub enum TaskStatus {
    /// Accepted by the bus.
    Queued,
    /// Handed to a dispatcher.
    Dispatched,
    /// Accepted by the agent.
    Running,
    /// Finished with a result.
    Completed,
    /// Finished with an error.
    Failed,
    /// Ended by its deadline.
    TimedOut,
    /// Ended on request.
    Cancelled,
}

impl TaskStatus {
    /// Whether a task in this status never changes again.
    pub open spec fn terminal(self) -> bool {
        self is Completed || self is Failed || self is TimedOut || self is Cancelled
    }

    /// Whether a task in this status never changes again.
    pub fn is_terminal(&self) -> (terminal: bool)
        ensures
            terminal == self.terminal(),
    {
        matches!(
            *self,
            TaskStatus::Completed | TaskStatus::Failed | TaskStatus::TimedOut | TaskStatus::Cancelled
        )
    }
}

/// What an event records.
#[derive(Debug, Clone, PartialEq, Eq)]
pub enum TaskEventPayload {
    /// The bus took the task.
    Queued,
    /// A delivery attempt began.
    Dispatched {
        /// Identity of the attempt.
        delivery_id: DeliveryId,
        /// Number of the attempt, from 1.
        attempt: u32,
    },
    /// The agent accepted the delivery.
    Running {
        /// When it did.
        started_at: Timestamp,
    },
    /// The task finished.
    Completed {
        /// Its output.
        output: String,
    },
    /// The task failed.
    Failed {
        /// Why.
        error: String,
    },
    /// The deadline passed first.
    TimedOut {
        /// The deadline.
        deadline: Timestamp,
    },
    /// The task was cancelled.
    Cancelled {
        /// Why.
        reason: String,
    },
}

impl TaskEventPayload {
    /// The status that a payload belongs to.
    pub open spec fn status_of(self) -> TaskStatus {
        match self {
            TaskEventPayload::Queued => TaskStatus::Queued,
            TaskEventPayload::Dispatched { .. } => TaskStatus::Dispatched,
            TaskEventPayload::Running { .. } => TaskStatus::Running,
            TaskEventPayload::Completed { .. } => TaskStatus::Completed,
            TaskEventPayload::Failed { .. } => TaskStatus::Failed,
            TaskEventPayload::TimedOut { .. } => TaskStatus::TimedOut,
            TaskEventPayload::Cancelled { .. } => TaskStatus::Cancelled,
        }
    }

    /// The status that a payload belongs to.
    pub fn status(&self) -> (status: TaskStatus)
        ensures
            status == self.status_of(),
    {
        match self {
            TaskEventPayload::Queued => TaskStatus::Queued,
            TaskEventPayload::Dispatched { .. } => TaskStatus::Dispatched,
            TaskEventPayload::Running { .. } => TaskStatus::Running,
            TaskEventPayload::Completed { .. } => TaskStatus::Completed,
            TaskEventPayload::Failed { .. } => TaskStatus::Failed,
            TaskEventPayload::TimedOut { .. } => TaskStatus::TimedOut,
            TaskEventPayload::Cancelled { .. } => TaskStatus::Cancelled,
        }
    }
}

/// One recorded transition of a task.
#[derive(Debug, Clone, PartialEq, Eq)]
pub struct TaskEvent {
    /// Identity of the event.
    pub id: EventId,
    /// The task it belongs to.
    pub task_id: TaskId,
    /// Its place in the task's own sequence, from 1.
    pub seq: u64,
    /// The status the task entered.
    pub status: TaskStatus,
    /// When it was recorded.
    pub timestamp: Timestamp,
    /// What it records.
    pub payload: TaskEventPayload,
}

impl TaskEventPayload {
    /// A copy of the payload.
    pub fn duplicate(&self) -> (copy: TaskEventPayload)
        ensures
            copy == *self,
    {
        match self {
            TaskEventPayload::Queued => TaskEventPayload::Queued,
            TaskEventPayload::Dispatched { delivery_id, attempt } => TaskEventPayload::Dispatched {
                delivery_id: *delivery_id,
                attempt: *attempt,
            },
            TaskEventPayload::Running { started_at } => TaskEventPayload::Running {
                started_at: *started_at,
            },
            TaskEventPayload::Completed { output } => TaskEventPayload::Completed {
                output: output.clone(),
            },
            TaskEventPayload::Failed { error } => TaskEventPayload::Failed { error: error.clone() },
            TaskEventPayload::TimedOut { deadline } => TaskEventPayload::TimedOut {
                deadline: *deadline,
            },
            TaskEventPayload::Cancelled { reason } => TaskEventPayload::Cancelled {
                reason: reason.clone(),
            },
        }
    }
}

impl TaskEvent {
    /// A copy of the event.
    pub fn duplicate(&self) -> (copy: TaskEvent)
        ensures
            copy == *self,
    {
        TaskEvent {
            id: self.id,
            task_id: self.task_id,
            seq: self.seq,
            status: self.status,
            timestamp: self.timestamp,
            payload: self.payload.duplicate(),
        }
    }
}

/// The status of an event is that of what it records, and exactly the ends of a task are
/// terminal.
pub proof fn law_an_event_has_the_status_of_its_payload(payload: TaskEventPayload)
    ensures
        payload is Queued <==> payload.status_of() is Queued,
        payload is Dispatched <==> payload.status_of() is Dispatched,
        payload is Running <==> payload.status_of() is Running,
        payload is Completed <==> payload.status_of() is Completed,
        payload is Failed <==> payload.status_of() is Failed,
        payload is TimedOut <==> payload.status_of() is TimedOut,
        payload is Cancelled <==> payload.status_of() is Cancelled,
        payload.status_of().terminal() <==> (payload is Completed || payload is Failed || payload
            is TimedOut || payload is Cancelled),
{
}

} // verus!
