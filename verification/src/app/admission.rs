//! Repository-first admission of tasks.
//!
//! A task is judged, looked up among those that its outside event was made into
//! before, given a place in the queue and stored, in this order; only then is it
//! enqueued. An event that was seen before is answered with the task it became.

use vstd::prelude::*;

use crate::bus::channel::task_offers;
use crate::bus::channel::try_send_task;
use crate::bus::channel::SendOutcome;
use crate::bus::error::BusError;
use crate::bus::memory::enqueue_result;
use crate::bus::memory::enqueued;
use crate::bus::memory::is_queued_event;
use crate::bus::memory::offered_next;
use crate::bus::memory::queued_event;
use crate::bus::registry::judged;
use crate::bus::registry::EndpointRegistry;
use crate::bus::registry::EndpointView;
use crate::ids::parsed_uuid;
use crate::ids::TaskId;
use crate::models::AgentTask;
use crate::models::TaskEvent;
use crate::models::TaskEventPayload;
use crate::models::TaskStatus;
use crate::time::max_instant;
use crate::time::Duration;
use crate::time::Timestamp;

verus! {

/// What storing a task under its outside event came to.
#[derive(Debug, Clone, PartialEq, Eq)]
pub enum ReceiptOutcome {
    /// It was stored.
    Inserted,
    /// The event was stored before, with a task and a result.
    Replay { task_id: Option<String>, result_code: String },
}

/// Where an admission is.
#[derive(Debug, Clone, Copy, PartialEq, Eq, Structural)]
pub enum AdmissionStage {
    AwaitReceipt,
    AwaitReserved,
    AwaitStored,
    AwaitWinner,
    AwaitEmitted,
    Done,
}

/// What came of an action.
pub enum AdmissionInput {
    /// The task that the outside event became before; nothing where it could not be
    /// read.
    Receipt(Option<Option<String>>),
    /// Whether there is a place in the queue; the event is told at this instant.
    Reserved(SendOutcome, Timestamp),
    /// What storing came to; nothing where it failed.
    Stored(Option<ReceiptOutcome>),
    /// The task that the outside event became before; nothing where it could not be
    /// read or does not exist.
    Winner(Option<AgentTask>),
    /// Whether the first event was told.
    Emitted(Result<(), BusError>),
}

/// What to do next for an admission.
pub enum AdmissionAction {
    /// Look for the task that the outside event became before.
    FindReceipt,
    /// Reserve a place in the queue.
    Reserve,
    /// Store the task with its first event, and with its outside event where there
    /// is one.
    Store { task: AgentTask, event: TaskEvent },
    /// Read the task that the outside event became before.
    Read { task_id: TaskId },
    /// Put the task in its place in the queue, and tell its first event.
    Enqueue { task: AgentTask, event: TaskEvent },
    /// The task that was admitted, or that the outside event became before.
    Admitted(AgentTask),
    /// The task was not admitted.
    Failed(BusError),
}

/// The task with a deadline: its own, or the default one where that can be told.
pub open spec fn with_deadline(
    task: AgentTask,
    now: Timestamp,
    timeout: Option<Duration>,
    due: AgentTask,
) -> bool {
    &&& due == (AgentTask { deadline: due.deadline, ..task })
    &&& match task.deadline {
        Some(_) => due.deadline == task.deadline,
        None => match timeout {
            Some(timeout) => match due.deadline {
                Some(at) => at.total() == now.total() + timeout.total(),
                None => now.total() + timeout.total() > max_instant(),
            },
            None => due.deadline is None,
        },
    }
}

/// The admission ends with a failure.
pub open spec fn admission_failed(
    after: AdmissionStage,
    action: AdmissionAction,
    error: BusError,
) -> bool {
    after is Done && action == AdmissionAction::Failed(error)
}

/// The outside event was seen: the task it became is read, where it is a task.
pub open spec fn replay_next(
    task_id: Option<Seq<char>>,
    after: AdmissionStage,
    action: AdmissionAction,
) -> bool {
    match task_id {
        None => admission_failed(after, action, BusError::TaskChannelClosed),
        Some(text) => match parsed_uuid(text) {
            None => admission_failed(after, action, BusError::TaskChannelClosed),
            Some(bits) => after is AwaitWinner && (action matches AdmissionAction::Read { task_id }
                && task_id.bits() == bits),
        },
    }
}

/// Whether `input` answers what an admission in `stage` waits for.
pub open spec fn admission_expects(stage: AdmissionStage, input: AdmissionInput) -> bool {
    match stage {
        AdmissionStage::AwaitReceipt => input is Receipt,
        AdmissionStage::AwaitReserved => input is Reserved,
        AdmissionStage::AwaitStored => input is Stored,
        AdmissionStage::AwaitWinner => input is Winner,
        AdmissionStage::AwaitEmitted => input is Emitted,
        AdmissionStage::Done => false,
    }
}

/// How an admission of `task` goes on, whose first event is `event` once it has one.
pub open spec fn admission_next(
    task: AgentTask,
    event: Option<TaskEvent>,
    stage: AdmissionStage,
    input: AdmissionInput,
    after: AdmissionStage,
    action: AdmissionAction,
) -> bool {
    match (stage, input) {
        (AdmissionStage::AwaitReceipt, AdmissionInput::Receipt(read)) => match read {
            None => admission_failed(after, action, BusError::TaskChannelClosed),
            Some(None) => after is AwaitReserved && action is Reserve,
            Some(Some(task_id)) => replay_next(Some(task_id@), after, action),
        },
        (AdmissionStage::AwaitReserved, AdmissionInput::Reserved(place, now)) => match place {
            SendOutcome::Full => admission_failed(after, action, BusError::QueueFull),
            SendOutcome::Closed => admission_failed(after, action, BusError::TaskChannelClosed),
            SendOutcome::Sent => after is AwaitStored && (action matches AdmissionAction::Store {
                task: own,
                event: first,
            } && own == task && is_queued_event(first, task.task_id, now)),
        },
        (AdmissionStage::AwaitStored, AdmissionInput::Stored(stored)) => match stored {
            None => admission_failed(after, action, BusError::TaskChannelClosed),
            Some(ReceiptOutcome::Inserted) => after is AwaitEmitted && (action matches
                AdmissionAction::Enqueue { task: own, event: first } && own == task && event
                == Some(first)),
            Some(ReceiptOutcome::Replay { task_id, result_code: _ }) => replay_next(
                crate::acp::result::optional(task_id),
                after,
                action,
            ),
        },
        (AdmissionStage::AwaitWinner, AdmissionInput::Winner(found)) => match found {
            None => admission_failed(after, action, BusError::TaskChannelClosed),
            Some(winner) => after is Done && action == AdmissionAction::Admitted(winner),
        },
        (AdmissionStage::AwaitEmitted, AdmissionInput::Emitted(told)) => match told {
            Err(error) => admission_failed(after, action, error),
            Ok(_) => after is Done && action == AdmissionAction::Admitted(task),
        },
        _ => false,
    }
}

/// A task on its way into the queue.
#[derive(Debug)]
pub struct PersistingBus {
    task: AgentTask,
    event: Option<TaskEvent>,
    stage: AdmissionStage,
}

impl PersistingBus {
    /// The task, with its deadline.
    pub closed spec fn task(&self) -> AgentTask {
        self.task
    }

    /// The first event of the task, once it has one.
    pub closed spec fn event(&self) -> Option<TaskEvent> {
        self.event
    }

    /// Where the admission is.
    pub closed spec fn stage(&self) -> AdmissionStage {
        self.stage
    }

    /// A task that is being stored has its first event.
    pub closed spec fn wf(&self) -> bool {
        self.stage is AwaitStored ==> self.event is Some
    }

    /// Begin to admit a task, whose target must be usable. An outside event that may
    /// have been seen is looked for first.
    pub fn submit(
        registry: &EndpointRegistry,
        task: AgentTask,
        seen_before: bool,
        now: Timestamp,
        default_timeout: Option<Duration>,
    ) -> (run: Result<(PersistingBus, AdmissionAction), BusError>)
        ensures
            match run {
                Err(error) => judged(registry@, task.to_agent) == Err::<EndpointView, BusError>(
                    error,
                ),
                Ok((bus, action)) => {
                    &&& judged(registry@, task.to_agent) is Ok
                    &&& bus.wf()
                    &&& with_deadline(task, now, default_timeout, bus.task())
                    &&& bus.event() is None
                    &&& if seen_before {
                        bus.stage() is AwaitReceipt && action is FindReceipt
                    } else {
                        bus.stage() is AwaitReserved && action is Reserve
                    }
                },
            },
    {
        match registry.validate_target(task.to_agent) {
            Ok(_) => {},
            Err(error) => {
                return Err(error);
            },
        }
        let mut task = task;
        if task.deadline.is_none() {
            task.deadline = match default_timeout {
                Some(timeout) => now.checked_add(timeout),
                None => None,
            };
        }
        if seen_before {
            let bus = PersistingBus { task, event: None, stage: AdmissionStage::AwaitReceipt };
            Ok((bus, AdmissionAction::FindReceipt))
        } else {
            let bus = PersistingBus { task, event: None, stage: AdmissionStage::AwaitReserved };
            Ok((bus, AdmissionAction::Reserve))
        }
    }

    /// Whether `input` answers what the admission waits for.
    pub fn expects(&self, input: &AdmissionInput) -> (yes: bool)
        ensures
            yes == admission_expects(self.stage(), *input),
    {
        match (self.stage, input) {
            (AdmissionStage::AwaitReceipt, AdmissionInput::Receipt(_)) => true,
            (AdmissionStage::AwaitReserved, AdmissionInput::Reserved(_, _)) => true,
            (AdmissionStage::AwaitStored, AdmissionInput::Stored(_)) => true,
            (AdmissionStage::AwaitWinner, AdmissionInput::Winner(_)) => true,
            (AdmissionStage::AwaitEmitted, AdmissionInput::Emitted(_)) => true,
            _ => false,
        }
    }

    /// The outside event was seen: read the task it became.
    fn replay(&mut self, task_id: Option<String>) -> (action: AdmissionAction)
        requires
            old(self).stage() is Done,
        ensures
            final(self).task() == old(self).task(),
            final(self).event() == old(self).event(),
            replay_next(crate::acp::result::optional(task_id), final(self).stage(), action),
    {
        match task_id {
            None => AdmissionAction::Failed(BusError::TaskChannelClosed),
            Some(text) => match TaskId::parse(text.as_str()) {
                None => AdmissionAction::Failed(BusError::TaskChannelClosed),
                Some(task_id) => {
                    self.stage = AdmissionStage::AwaitWinner;
                    AdmissionAction::Read { task_id }
                },
            },
        }
    }

    /// Go on with what came of the last action.
    pub fn step(&mut self, input: AdmissionInput) -> (action: AdmissionAction)
        requires
            old(self).wf(),
            admission_expects(old(self).stage(), input),
        ensures
            final(self).wf(),
            final(self).task() == old(self).task(),
            match action {
                AdmissionAction::Store { task: _, event } => final(self).event() == Some(event),
                _ => final(self).event() == old(self).event(),
            },
            admission_next(
                old(self).task(),
                old(self).event(),
                old(self).stage(),
                input,
                final(self).stage(),
                action,
            ),
    {
        let stage = self.stage;
        self.stage = AdmissionStage::Done;
        match (stage, input) {
            (AdmissionStage::AwaitReceipt, AdmissionInput::Receipt(read)) => match read {
                None => AdmissionAction::Failed(BusError::TaskChannelClosed),
                Some(None) => {
                    self.stage = AdmissionStage::AwaitReserved;
                    AdmissionAction::Reserve
                },
                Some(Some(task_id)) => self.replay(Some(task_id)),
            },
            (AdmissionStage::AwaitReserved, AdmissionInput::Reserved(place, now)) => match place {
                SendOutcome::Full => AdmissionAction::Failed(BusError::QueueFull),
                SendOutcome::Closed => AdmissionAction::Failed(BusError::TaskChannelClosed),
                SendOutcome::Sent => {
                    let event = queued_event(self.task.task_id, now);
                    self.event = Some(event.duplicate());
                    self.stage = AdmissionStage::AwaitStored;
                    AdmissionAction::Store { task: self.task.duplicate(), event }
                },
            },
            (AdmissionStage::AwaitStored, AdmissionInput::Stored(stored)) => match stored {
                None => AdmissionAction::Failed(BusError::TaskChannelClosed),
                Some(ReceiptOutcome::Inserted) => match &self.event {
                    Some(event) => {
                        let event = event.duplicate();
                        self.stage = AdmissionStage::AwaitEmitted;
                        AdmissionAction::Enqueue { task: self.task.duplicate(), event }
                    },
                    None => {
                        assert(false);
                        AdmissionAction::Failed(BusError::TaskChannelClosed)
                    },
                },
                Some(ReceiptOutcome::Replay { task_id, result_code: _ }) => self.replay(task_id),
            },
            (AdmissionStage::AwaitWinner, AdmissionInput::Winner(found)) => match found {
                None => AdmissionAction::Failed(BusError::TaskChannelClosed),
                Some(winner) => AdmissionAction::Admitted(winner),
            },
            (AdmissionStage::AwaitEmitted, AdmissionInput::Emitted(told)) => match told {
                Err(error) => AdmissionAction::Failed(error),
                Ok(()) => AdmissionAction::Admitted(self.task.duplicate()),
            },
            _ => {
                assert(false);
                AdmissionAction::Failed(BusError::TaskChannelClosed)
            },
        }
    }
}

/// A task is enqueued only once it was stored: no other stage puts it in the queue.
pub proof fn law_a_task_is_stored_before_it_is_enqueued(
    task: AgentTask,
    event: Option<TaskEvent>,
    stage: AdmissionStage,
    input: AdmissionInput,
    after: AdmissionStage,
    action: AdmissionAction,
)
    requires
        admission_next(task, event, stage, input, after, action),
        action is Enqueue,
    ensures
        stage is AwaitStored,
        input == AdmissionInput::Stored(Some(ReceiptOutcome::Inserted)),
{
}

/// An outside event makes one task: where it was seen before, nothing is stored or
/// enqueued after that, whether this shows when it is looked for or when its task is
/// stored.
pub proof fn law_a_repeated_event_makes_no_task(
    task: AgentTask,
    event: Option<TaskEvent>,
    stage: AdmissionStage,
    input: AdmissionInput,
    after: AdmissionStage,
    action: AdmissionAction,
)
    requires
        admission_next(task, event, stage, input, after, action),
        match input {
            AdmissionInput::Receipt(Some(Some(_))) => true,
            AdmissionInput::Stored(Some(ReceiptOutcome::Replay { .. })) => true,
            AdmissionInput::Winner(_) => true,
            _ => false,
        },
    ensures
        after is AwaitWinner || after is Done,
        action is Read || action is Failed || action is Admitted,
{
}

/// Put a stored task in the queue, without waiting for a place. The target must be
/// usable.
pub fn enqueue_persisted(
    registry: &EndpointRegistry,
    tasks: &mut tokio::sync::mpsc::Sender<AgentTask>,
    task: AgentTask,
) -> (result: Result<(), BusError>)
    ensures
        match judged(registry@, task.to_agent) {
            Err(error) => {
                &&& result == Err::<(), BusError>(error)
                &&& task_offers(*final(tasks)) == task_offers(*old(tasks))
            },
            Ok(_) => {
                &&& offered_next(task_offers(*old(tasks)), task_offers(*final(tasks)), task)
                &&& result == enqueued(task_offers(*final(tasks)).last().1)
            },
        },
{
    match registry.validate_target(task.to_agent) {
        Ok(_) => {},
        Err(error) => {
            return Err(error);
        },
    }
    enqueue_result(try_send_task(tasks, task))
}

/// The task that an outside event became: what was read of its receipt says whether
/// it became one. A bus that keeps no receipts, or whose store fails, has no answer.
pub fn winner(reliable: bool, receipt: Option<Option<String>>) -> (task: Result<
    Option<TaskId>,
    BusError,
>)
    ensures
        match (reliable, receipt) {
            (true, Some(None)) => task == Ok::<Option<TaskId>, BusError>(None),
            (true, Some(Some(text))) => match parsed_uuid(text@) {
                Some(bits) => task matches Ok(Some(id)) && id.bits() == bits,
                None => task == Err::<Option<TaskId>, BusError>(BusError::TaskChannelClosed),
            },
            _ => task == Err::<Option<TaskId>, BusError>(BusError::TaskChannelClosed),
        },
{
    if !reliable {
        return Err(BusError::TaskChannelClosed);
    }
    match receipt {
        None => Err(BusError::TaskChannelClosed),
        Some(None) => Ok(None),
        Some(Some(text)) => match TaskId::parse(text.as_str()) {
            Some(id) => Ok(Some(id)),
            None => Err(BusError::TaskChannelClosed),
        },
    }
}

/// One step of an admission: what came of the last action, and what to do next.
pub ghost struct AdmissionStep {
    pub event: Option<TaskEvent>,
    pub stage: AdmissionStage,
    pub input: AdmissionInput,
    pub after: AdmissionStage,
    pub action: AdmissionAction,
}

/// Whether `steps` are those of admitting `task`, which came with an outside event that
/// may have been seen before, or without one. The first event of the task is the one that
/// was last to be stored.
pub open spec fn admits_task(
    task: AgentTask,
    seen_before: bool,
    steps: Seq<AdmissionStep>,
) -> bool {
    &&& steps.len() > 0
    &&& steps[0].stage == (if seen_before {
        AdmissionStage::AwaitReceipt
    } else {
        AdmissionStage::AwaitReserved
    })
    &&& forall|i: int|
        0 <= i < steps.len() ==> {
            let step = #[trigger] steps[i];
            admission_next(task, step.event, step.stage, step.input, step.after, step.action)
        }
    &&& forall|i: int|
        0 < i < steps.len() ==> {
            let step = #[trigger] steps[i];
            &&& step.stage == steps[i - 1].after
            &&& step.event == (match steps[i - 1].action {
                AdmissionAction::Store { task: _, event } => Some(event),
                _ => steps[i - 1].event,
            })
        }
}

/// What an admission on its way has behind it.
proof fn lemma_admission_so_far(
    task: AgentTask,
    seen_before: bool,
    steps: Seq<AdmissionStep>,
    i: int,
)
    requires
        admits_task(task, seen_before, steps),
        0 <= i < steps.len(),
    ensures
        match steps[i].stage {
            AdmissionStage::AwaitReceipt => i == 0 && seen_before,
            AdmissionStage::AwaitReserved => i == 0 || (i == 1 && seen_before),
            AdmissionStage::AwaitStored => i > 0 && (steps[i - 1].action matches
                AdmissionAction::Store { task: own, event } && own == task && steps[i].event
                == Some(event)),
            AdmissionStage::AwaitWinner => i > 0 && steps[i - 1].action is Read,
            AdmissionStage::AwaitEmitted => i > 0 && steps[i - 1].action is Enqueue,
            AdmissionStage::Done => false,
        },
    decreases i,
{
    let step = steps[i];
    assert(admission_next(task, step.event, step.stage, step.input, step.after, step.action));
    if i > 0 {
        lemma_admission_so_far(task, seen_before, steps, i - 1);
        let previous = steps[i - 1];
        assert(admission_next(
            task,
            previous.event,
            previous.stage,
            previous.input,
            previous.after,
            previous.action,
        ));
        assert(step.stage == previous.after);
    }
}

/// How a task is admitted, input by input. One whose outside event became a task before is
/// answered with that task; any other gets a place in the queue, is stored with its first
/// event, and is enqueued with the very same event; and it is admitted once that event was
/// told. Whatever fails on the way is what the caller learns.
pub proof fn law_a_task_is_admitted_step_by_step(
    task: AgentTask,
    seen_before: bool,
    steps: Seq<AdmissionStep>,
    i: int,
)
    requires
        admits_task(task, seen_before, steps),
        0 <= i < steps.len(),
    ensures
        ({
            let action = steps[i].action;
            let closed = AdmissionAction::Failed(BusError::TaskChannelClosed);
            match steps[i].input {
                AdmissionInput::Receipt(None) => action == closed,
                AdmissionInput::Receipt(Some(None)) => action is Reserve,
                AdmissionInput::Receipt(Some(Some(text))) => match parsed_uuid(text@) {
                    Some(bits) => action matches AdmissionAction::Read { task_id }
                        && task_id.bits() == bits,
                    None => action == closed,
                },
                AdmissionInput::Reserved(SendOutcome::Full, _) => action
                    == AdmissionAction::Failed(BusError::QueueFull),
                AdmissionInput::Reserved(SendOutcome::Closed, _) => action == closed,
                AdmissionInput::Reserved(SendOutcome::Sent, now) => action matches
                    AdmissionAction::Store { task: own, event } && own == task && {
                    &&& event.task_id == task.task_id
                    &&& event.seq == 1
                    &&& event.status == TaskStatus::Queued
                    &&& event.timestamp == now
                    &&& event.payload == TaskEventPayload::Queued
                },
                AdmissionInput::Stored(None) => action == closed,
                AdmissionInput::Stored(Some(ReceiptOutcome::Inserted)) => i > 0 && (steps[i
                    - 1].action matches AdmissionAction::Store { task: _, event } && action == (
                AdmissionAction::Enqueue { task, event })),
                AdmissionInput::Stored(Some(ReceiptOutcome::Replay { task_id: None, .. })) => action
                    == closed,
                AdmissionInput::Stored(
                    Some(ReceiptOutcome::Replay { task_id: Some(text), .. }),
                ) => match parsed_uuid(text@) {
                    Some(bits) => action matches AdmissionAction::Read { task_id }
                        && task_id.bits() == bits,
                    None => action == closed,
                },
                AdmissionInput::Winner(None) => action == closed,
                AdmissionInput::Winner(Some(winner)) => action == AdmissionAction::Admitted(winner),
                AdmissionInput::Emitted(Err(error)) => action == AdmissionAction::Failed(error),
                AdmissionInput::Emitted(Ok(_)) => action == AdmissionAction::Admitted(task),
            }
        }),
{
    let step = steps[i];
    assert(admission_next(task, step.event, step.stage, step.input, step.after, step.action));
    lemma_admission_so_far(task, seen_before, steps, i);
}

/// An admission waits for what answers its last action, and for nothing once it is over.
pub proof fn law_an_admission_waits_for_what_it_asked(
    task: AgentTask,
    seen_before: bool,
    steps: Seq<AdmissionStep>,
    i: int,
    next: AdmissionInput,
)
    requires
        admits_task(task, seen_before, steps),
        0 <= i < steps.len(),
    ensures
        admission_expects(steps[0].stage, next) <==> (if seen_before {
            next is Receipt
        } else {
            next is Reserved
        }),
        admission_expects(steps[i].after, next) <==> (match steps[i].action {
            AdmissionAction::FindReceipt => next is Receipt,
            AdmissionAction::Reserve => next is Reserved,
            AdmissionAction::Store { .. } => next is Stored,
            AdmissionAction::Read { .. } => next is Winner,
            AdmissionAction::Enqueue { .. } => next is Emitted,
            AdmissionAction::Admitted(_) => false,
            AdmissionAction::Failed(_) => false,
        }),
{
    let step = steps[i];
    assert(admission_next(task, step.event, step.stage, step.input, step.after, step.action));
}

/// A task keeps the deadline that it has; one without gets the default one, counted from
/// now, where there is one and it can be told; and nothing else of the task changes.
pub proof fn law_a_deadline_is_kept_or_given(
    task: AgentTask,
    now: Timestamp,
    timeout: Option<Duration>,
    due: AgentTask,
)
    requires
        with_deadline(task, now, timeout, due),
    ensures
        task.deadline is Some ==> due == task,
        task.deadline is None && timeout is None ==> due == task,
        task.deadline is None && timeout is Some && now.total() + timeout->0.total()
            <= max_instant() ==> (due.deadline matches Some(at) && at.total() == now.total()
            + timeout->0.total()),
        due.task_id == task.task_id && due.root_task_id == task.root_task_id && due.parent_task_id
            == task.parent_task_id,
        due.from_agent == task.from_agent && due.to_agent == task.to_agent,
        due.conversation_id == task.conversation_id && due.reply_to == task.reply_to,
        due.text == task.text && due.priority == task.priority,
        due.depth == task.depth && due.hops == task.hops && due.version == task.version,
{
}

} // verus!
