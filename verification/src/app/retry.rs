//! Trying a task again on an administrator's request.
//!
//! The request is stored together with the new task and with the answer that is to
//! be sent, under a transaction id that the request alone determines, so that asking
//! again neither makes another task nor sends another answer.

use vstd::prelude::*;
use vstd::string::*;
use vstd::utf8::encode_utf8;

use crate::app::admission::ReceiptOutcome;
use crate::acp::result::optional;
use crate::ids::hyphenated;
use crate::ids::is_version_7;
use crate::ids::name_uuid;
use crate::ids::named_uuid;
use crate::ids::uuid_text;
use crate::ids::EventId;
use crate::ids::TaskId;
use crate::models::AgentTask;
use crate::text::concat2;
use crate::text::same_text;
use crate::time::max_instant;
use crate::time::Duration;
use crate::time::Timestamp;

verus! {

/// The namespace of transaction ids of answers to such requests.
pub const RETRY_TXN_NAMESPACE: u128 = 0xf47cb0fc_c0c4_55ac_b278_198b5de252eb;

/// A request as it arrived.
#[derive(Debug, Clone, PartialEq, Eq)]
pub struct RetryEvent {
    pub event_id: String,
    pub room_id: String,
    pub thread_root: Option<String>,
    pub sender: String,
}

/// What is stored of a request.
#[derive(Debug, Clone, PartialEq, Eq)]
pub struct RetryTaskInput {
    pub transport: String,
    pub external_event_id: String,
    pub room_id: String,
    pub thread_root: Option<String>,
    pub reply_event_id: String,
    pub admin_actor: String,
    pub source_task_id: TaskId,
    pub task: AgentTask,
    pub timestamp: Timestamp,
    pub event_id: EventId,
    pub body: String,
    pub stable_txn_id: String,
}

/// The transaction id of the answer to a request.
pub open spec fn retry_txn(room_id: Seq<char>, event_id: Seq<char>) -> Seq<char> {
    hyphenated(
        named_uuid(
            RETRY_TXN_NAMESPACE,
            encode_utf8("matrix\0"@ + room_id + "\0"@ + event_id),
        ),
    )
}

/// The answer to a request that was taken.
pub open spec fn admitted_body(task_id: TaskId) -> Seq<char> {
    "retry=admitted task_id="@ + hyphenated(task_id.bits())
}

/// Whether `task` is `source` once more: a new task at the root of a tree of its own,
/// due `timeout` after `now`.
pub open spec fn is_retry_of(
    task: AgentTask,
    source: AgentTask,
    now: Timestamp,
    timeout: Duration,
) -> bool {
    &&& is_version_7(task.task_id.bits())
    &&& task.root_task_id == task.task_id
    &&& task.parent_task_id is None
    &&& task.from_agent == source.from_agent
    &&& task.to_agent == source.to_agent
    &&& task.conversation_id == source.conversation_id
    &&& task.reply_to is None
    &&& task.text@ == source.text@
    &&& task.priority == source.priority
    &&& task.depth == 0
    &&& task.hops == 0
    &&& task.deadline matches Some(due) && due.total() == now.total() + timeout.total()
    &&& task.version == 0
}

/// Whether `input` is what is stored of a request.
pub open spec fn is_input_of(
    input: RetryTaskInput,
    event: RetryEvent,
    source: AgentTask,
    now: Timestamp,
    timeout: Duration,
) -> bool {
    &&& input.transport@ == "matrix"@
    &&& input.external_event_id@ == event.event_id@
    &&& input.room_id@ == event.room_id@
    &&& optional(input.thread_root) == optional(event.thread_root)
    &&& input.reply_event_id@ == event.event_id@
    &&& input.admin_actor@ == event.sender@
    &&& input.source_task_id == source.task_id
    &&& is_retry_of(input.task, source, now, timeout)
    &&& input.timestamp == now
    &&& is_version_7(input.event_id.bits())
    &&& input.body@ == admitted_body(input.task.task_id)
    &&& input.stable_txn_id@ == retry_txn(event.room_id@, event.event_id@)
}

/// How a request is answered, as data.
pub ghost enum ReplyView {
    OutboxOwned,
    Immediate(Seq<char>),
    Unavailable,
}

/// How a request is answered.
#[derive(Debug, Clone, PartialEq, Eq)]
pub enum RetryReply {
    /// The answer is stored, and sent from there.
    OutboxOwned,
    /// This is the answer.
    Immediate(String),
    /// There is no answer: the store failed, or the task would never be due.
    Unavailable,
}

impl View for RetryReply {
    type V = ReplyView;

    open spec fn view(&self) -> ReplyView {
        match self {
            RetryReply::OutboxOwned => ReplyView::OutboxOwned,
            RetryReply::Immediate(text) => ReplyView::Immediate(text@),
            RetryReply::Unavailable => ReplyView::Unavailable,
        }
    }
}

/// Where a request is.
#[derive(Debug, Clone, Copy, PartialEq, Eq, Structural)]
pub enum RetryStage {
    AwaitStored,
    AwaitClaimed,
    AwaitEnqueued,
    AwaitReleased,
    AwaitDrained,
    Done,
}

/// What came of an action.
pub enum RetryInput {
    /// What storing came to; nothing where it failed.
    Stored(Option<ReceiptOutcome>),
    /// Whether the task was claimed; nothing where the store failed.
    Claimed(Option<bool>),
    /// Whether the task was enqueued.
    Enqueued(bool),
    /// The claim was released, or could not be.
    Released,
    /// The outbox was drained, or could not be.
    Drained,
}

/// What to do next for a request.
pub enum RetryAction {
    /// Store the request with its task and its answer.
    Store(RetryTaskInput),
    /// Claim the task at this revision.
    Claim { task_id: TaskId, revision: i64 },
    /// Enqueue the task.
    Enqueue(AgentTask),
    /// Release the claim at this revision.
    Release { task_id: TaskId, revision: i64 },
    /// Drain the outbox.
    Drain,
    /// The answer.
    Reply(RetryReply),
}

/// The request ends with an answer.
pub open spec fn retry_replied(after: RetryStage, action: RetryAction, reply: ReplyView) -> bool {
    after is Done && (action matches RetryAction::Reply(own) && own@ == reply)
}

/// Whether `input` answers what a request in `stage` waits for.
pub open spec fn retry_expects(stage: RetryStage, input: RetryInput) -> bool {
    match stage {
        RetryStage::AwaitStored => input is Stored,
        RetryStage::AwaitClaimed => input is Claimed,
        RetryStage::AwaitEnqueued => input is Enqueued,
        RetryStage::AwaitReleased => input is Released,
        RetryStage::AwaitDrained => input is Drained,
        RetryStage::Done => false,
    }
}

/// How a request goes on that makes `task`.
pub open spec fn retry_next(
    task: AgentTask,
    stage: RetryStage,
    input: RetryInput,
    after: RetryStage,
    action: RetryAction,
) -> bool {
    match (stage, input) {
        (RetryStage::AwaitStored, RetryInput::Stored(stored)) => match stored {
            None => retry_replied(after, action, ReplyView::Unavailable),
            Some(ReceiptOutcome::Inserted) => after is AwaitClaimed && action == (
            RetryAction::Claim { task_id: task.task_id, revision: 0 }),
            Some(ReceiptOutcome::Replay { task_id, result_code }) => if task_id is Some
                && result_code@ == "admitted"@ {
                after is AwaitDrained && action is Drain
            } else {
                retry_replied(after, action, ReplyView::Immediate("retry="@ + result_code@))
            },
        },
        (RetryStage::AwaitClaimed, RetryInput::Claimed(claimed)) => match claimed {
            None => retry_replied(after, action, ReplyView::Unavailable),
            Some(true) => after is AwaitEnqueued && action == RetryAction::Enqueue(task),
            Some(false) => after is AwaitDrained && action is Drain,
        },
        (RetryStage::AwaitEnqueued, RetryInput::Enqueued(done)) => if done {
            after is AwaitDrained && action is Drain
        } else {
            after is AwaitReleased && action == (RetryAction::Release {
                task_id: task.task_id,
                revision: 1,
            })
        },
        (RetryStage::AwaitReleased, RetryInput::Released) => after is AwaitDrained && action is Drain,
        (RetryStage::AwaitDrained, RetryInput::Drained) => retry_replied(
            after,
            action,
            ReplyView::OutboxOwned,
        ),
        _ => false,
    }
}

/// A request on its way.
#[derive(Debug)]
pub struct DurableRetryAdmission {
    task: AgentTask,
    stage: RetryStage,
}

impl DurableRetryAdmission {
    /// The task that the request makes.
    pub closed spec fn task(&self) -> AgentTask {
        self.task
    }

    /// Where the request is.
    pub closed spec fn stage(&self) -> RetryStage {
        self.stage
    }

    /// Begin to take a request to try `source` again. There is nothing to take where
    /// the new task would be due past the end of time.
    pub fn admit_retry(
        event: &RetryEvent,
        source: &AgentTask,
        now: Timestamp,
        default_timeout: Duration,
    ) -> (run: Option<(DurableRetryAdmission, RetryAction)>)
        ensures
            match run {
                None => now.total() + default_timeout.total() > max_instant(),
                Some((admission, action)) => {
                    &&& now.total() + default_timeout.total() <= max_instant()
                    &&& admission.stage() is AwaitStored
                    &&& action matches RetryAction::Store(input) && is_input_of(
                        input,
                        *event,
                        *source,
                        now,
                        default_timeout,
                    ) && admission.task() == input.task
                },
            },
    {
        let deadline = match now.checked_add(default_timeout) {
            Some(deadline) => deadline,
            None => {
                return None;
            },
        };
        let task_id = TaskId::generate();
        let task = AgentTask {
            task_id,
            root_task_id: task_id,
            parent_task_id: None,
            from_agent: source.from_agent,
            to_agent: source.to_agent,
            conversation_id: source.conversation_id,
            reply_to: None,
            text: source.text.clone(),
            priority: source.priority,
            depth: 0,
            hops: 0,
            deadline: Some(deadline),
            version: 0,
        };
        let id_text = task_id.to_string();
        let body = concat2("retry=admitted task_id=", id_text.as_str());
        let mut name = concat2("matrix\0", event.room_id.as_str());
        name.append("\0");
        name.append(event.event_id.as_str());
        let stable_txn_id = uuid_text(name_uuid(RETRY_TXN_NAMESPACE, name.as_str().as_bytes()));
        let thread_root = match &event.thread_root {
            Some(root) => Some(root.clone()),
            None => None,
        };
        let input = RetryTaskInput {
            transport: "matrix".to_owned(),
            external_event_id: event.event_id.clone(),
            room_id: event.room_id.clone(),
            thread_root,
            reply_event_id: event.event_id.clone(),
            admin_actor: event.sender.clone(),
            source_task_id: source.task_id,
            task: task.duplicate(),
            timestamp: now,
            event_id: EventId::generate(),
            body,
            stable_txn_id,
        };
        let admission = DurableRetryAdmission { task, stage: RetryStage::AwaitStored };
        Some((admission, RetryAction::Store(input)))
    }

    /// Whether `input` answers what the request waits for.
    pub fn expects(&self, input: &RetryInput) -> (yes: bool)
        ensures
            yes == retry_expects(self.stage(), *input),
    {
        match (self.stage, input) {
            (RetryStage::AwaitStored, RetryInput::Stored(_)) => true,
            (RetryStage::AwaitClaimed, RetryInput::Claimed(_)) => true,
            (RetryStage::AwaitEnqueued, RetryInput::Enqueued(_)) => true,
            (RetryStage::AwaitReleased, RetryInput::Released) => true,
            (RetryStage::AwaitDrained, RetryInput::Drained) => true,
            _ => false,
        }
    }

    /// The request was seen before.
    fn replayed(&mut self, task_id: Option<String>, result_code: String) -> (action: RetryAction)
        requires
            old(self).stage() is Done,
        ensures
            final(self).task() == old(self).task(),
            retry_next(
                old(self).task(),
                RetryStage::AwaitStored,
                RetryInput::Stored(Some(ReceiptOutcome::Replay { task_id, result_code })),
                final(self).stage(),
                action,
            ),
    {
        if task_id.is_some() && same_text(result_code.as_str(), "admitted") {
            self.stage = RetryStage::AwaitDrained;
            RetryAction::Drain
        } else {
            RetryAction::Reply(RetryReply::Immediate(concat2("retry=", result_code.as_str())))
        }
    }

    /// Go on with what came of the last action.
    pub fn step(&mut self, input: RetryInput) -> (action: RetryAction)
        requires
            retry_expects(old(self).stage(), input),
        ensures
            final(self).task() == old(self).task(),
            retry_next(
                old(self).task(),
                old(self).stage(),
                input,
                final(self).stage(),
                action,
            ),
    {
        let stage = self.stage;
        self.stage = RetryStage::Done;
        match (stage, input) {
            (RetryStage::AwaitStored, RetryInput::Stored(stored)) => match stored {
                None => RetryAction::Reply(RetryReply::Unavailable),
                Some(ReceiptOutcome::Inserted) => {
                    self.stage = RetryStage::AwaitClaimed;
                    RetryAction::Claim { task_id: self.task.task_id, revision: 0 }
                },
                Some(ReceiptOutcome::Replay { task_id, result_code }) => {
                    self.replayed(task_id, result_code)
                },
            },
            (RetryStage::AwaitClaimed, RetryInput::Claimed(claimed)) => match claimed {
                None => RetryAction::Reply(RetryReply::Unavailable),
                Some(true) => {
                    self.stage = RetryStage::AwaitEnqueued;
                    RetryAction::Enqueue(self.task.duplicate())
                },
                Some(false) => {
                    self.stage = RetryStage::AwaitDrained;
                    RetryAction::Drain
                },
            },
            (RetryStage::AwaitEnqueued, RetryInput::Enqueued(done)) => {
                if done {
                    self.stage = RetryStage::AwaitDrained;
                    RetryAction::Drain
                } else {
                    self.stage = RetryStage::AwaitReleased;
                    RetryAction::Release { task_id: self.task.task_id, revision: 1 }
                }
            },
            (RetryStage::AwaitReleased, RetryInput::Released) => {
                self.stage = RetryStage::AwaitDrained;
                RetryAction::Drain
            },
            (RetryStage::AwaitDrained, RetryInput::Drained) => {
                RetryAction::Reply(RetryReply::OutboxOwned)
            },
            _ => {
                assert(false);
                RetryAction::Reply(RetryReply::Unavailable)
            },
        }
    }
}

/// Asking again makes no task: a request that was seen before claims and enqueues
/// nothing.
pub proof fn law_a_repeated_request_makes_no_task(
    task: AgentTask,
    task_id: Option<String>,
    result_code: String,
    after: RetryStage,
    action: RetryAction,
)
    requires
        retry_next(
            task,
            RetryStage::AwaitStored,
            RetryInput::Stored(Some(ReceiptOutcome::Replay { task_id, result_code })),
            after,
            action,
        ),
    ensures
        after is AwaitDrained || after is Done,
        action is Drain || action is Reply,
{
}

/// A claim is never kept for a task that is not in the queue: where it cannot be
/// enqueued, its claim is released before anything is answered.
pub proof fn law_a_refused_retry_is_released(
    task: AgentTask,
    waiting: RetryStage,
    first: RetryAction,
    draining: RetryStage,
    second: RetryAction,
)
    requires
        retry_next(task, RetryStage::AwaitEnqueued, RetryInput::Enqueued(false), waiting, first),
        retry_next(task, waiting, RetryInput::Released, draining, second),
    ensures
        first == (RetryAction::Release { task_id: task.task_id, revision: 1 }),
        second is Drain,
{
}

/// One step of taking a request: what came of the last action, and what to do next.
pub ghost struct RetryStep {
    pub stage: RetryStage,
    pub input: RetryInput,
    pub after: RetryStage,
    pub action: RetryAction,
}

/// Whether `steps` are those of taking a request that makes `task`, from the moment it was
/// handed to the store.
pub open spec fn takes_request(task: AgentTask, steps: Seq<RetryStep>) -> bool {
    &&& steps.len() > 0
    &&& steps[0].stage == RetryStage::AwaitStored
    &&& forall|i: int|
        0 <= i < steps.len() ==> {
            let step = #[trigger] steps[i];
            retry_next(task, step.stage, step.input, step.after, step.action)
        }
    &&& forall|i: int| 0 < i < steps.len() ==> (#[trigger] steps[i]).stage == steps[i - 1].after
}

/// What a request in a stage has gone through.
proof fn lemma_request_so_far(task: AgentTask, steps: Seq<RetryStep>, i: int)
    requires
        takes_request(task, steps),
        0 <= i < steps.len(),
    ensures
        match steps[i].stage {
            RetryStage::AwaitStored => i == 0,
            RetryStage::AwaitClaimed => i == 1 && (steps[0].input matches RetryInput::Stored(
                Some(outcome),
            ) && outcome is Inserted),
            RetryStage::AwaitEnqueued => i == 2 && steps[1].input == RetryInput::Claimed(Some(true))
                && (steps[0].input matches RetryInput::Stored(Some(outcome)) && outcome
                is Inserted),
            RetryStage::AwaitReleased => i == 3 && steps[2].input == RetryInput::Enqueued(false)
                && steps[1].input == RetryInput::Claimed(Some(true)) && (steps[0].input matches
                RetryInput::Stored(Some(outcome)) && outcome is Inserted),
            RetryStage::AwaitDrained => i > 0 && steps[i - 1].action is Drain && (steps[0].input
                matches RetryInput::Stored(Some(_))),
            RetryStage::Done => false,
        },
    decreases i,
{
    let step = steps[i];
    assert(retry_next(task, step.stage, step.input, step.after, step.action));
    if i > 0 {
        lemma_request_so_far(task, steps, i - 1);
        let previous = steps[i - 1];
        assert(retry_next(
            task,
            previous.stage,
            previous.input,
            previous.after,
            previous.action,
        ));
        assert(step.stage == previous.after);
        if i > 1 {
            let earlier = steps[i - 2];
            assert(retry_next(task, earlier.stage, earlier.input, earlier.after, earlier.action));
            assert(previous.stage == earlier.after);
        }
    }
}

/// A request that was stored for the first time, and whose task could be asked for, is
/// answered from the outbox: whether its task was claimed or not, and whether it was
/// enqueued or not, the outbox is drained next and the answer is left to it.
pub proof fn law_a_stored_request_is_answered_from_the_outbox(
    task: AgentTask,
    steps: Seq<RetryStep>,
    i: int,
)
    requires
        takes_request(task, steps),
        0 <= i < steps.len(),
        steps[0].input matches RetryInput::Stored(Some(outcome)) && outcome is Inserted,
        steps.len() > 1 ==> steps[1].input != RetryInput::Claimed(None),
    ensures
        steps[i].action matches RetryAction::Reply(reply) ==> {
            &&& reply == RetryReply::OutboxOwned
            &&& i > 0
            &&& steps[i - 1].action is Drain
        },
        steps[i].input == RetryInput::Claimed(Some(false)) ==> steps[i].action is Drain,
        steps[i].input == RetryInput::Enqueued(true) ==> steps[i].action is Drain,
        steps[i].input == RetryInput::Enqueued(false) ==> steps[i].action == (
        RetryAction::Release { task_id: task.task_id, revision: 1 }),
        steps[i].input is Released ==> steps[i].action is Drain,
        steps[i].input is Drained ==> steps[i].action == RetryAction::Reply(
            RetryReply::OutboxOwned,
        ),
{
    let step = steps[i];
    assert(retry_next(task, step.stage, step.input, step.after, step.action));
    lemma_request_so_far(task, steps, i);
}

/// A request is answered as unavailable only where the store failed: when the request was
/// to be stored, or when its task was to be claimed.
pub proof fn law_only_a_failed_store_is_unavailable(
    task: AgentTask,
    steps: Seq<RetryStep>,
    i: int,
)
    requires
        takes_request(task, steps),
        0 <= i < steps.len(),
    ensures
        steps[i].action == RetryAction::Reply(RetryReply::Unavailable) <==> (steps[i].input
            == RetryInput::Stored(None) || steps[i].input == RetryInput::Claimed(None)),
{
    let step = steps[i];
    assert(retry_next(task, step.stage, step.input, step.after, step.action));
    lemma_request_so_far(task, steps, i);
}

/// The task of a request is claimed once the request was stored for the first time, and
/// enqueued once it was claimed; both are asked for the task that the request makes. A
/// request that was stored before is answered from the outbox where it made a task, and
/// with what came of it otherwise.
pub proof fn law_a_request_makes_its_task_once(task: AgentTask, steps: Seq<RetryStep>, i: int)
    requires
        takes_request(task, steps),
        0 <= i < steps.len(),
    ensures
        steps[i].action is Store ==> false,
        steps[i].action is Claim <==> (i == 0 && (steps[0].input matches RetryInput::Stored(
            Some(outcome),
        ) && outcome is Inserted)),
        steps[i].action matches RetryAction::Claim { task_id, revision } ==> task_id
            == task.task_id && revision == 0,
        steps[i].action is Enqueue <==> steps[i].input == RetryInput::Claimed(Some(true)),
        steps[i].action matches RetryAction::Enqueue(own) ==> own == task,
        steps[i].input matches RetryInput::Stored(Some(ReceiptOutcome::Replay {
            task_id,
            result_code,
        })) ==> if task_id is Some && result_code@ == "admitted"@ {
            steps[i].action is Drain
        } else {
            steps[i].action matches RetryAction::Reply(RetryReply::Immediate(text)) && text@
                == "retry="@ + result_code@
        },
{
    let step = steps[i];
    assert(retry_next(task, step.stage, step.input, step.after, step.action));
    lemma_request_so_far(task, steps, i);
}

/// A request waits for what answers its last action, and for nothing once it is answered.
pub proof fn law_a_request_waits_for_what_it_asked(
    task: AgentTask,
    steps: Seq<RetryStep>,
    i: int,
    next: RetryInput,
)
    requires
        takes_request(task, steps),
        0 <= i < steps.len(),
    ensures
        retry_expects(steps[0].stage, next) <==> next is Stored,
        retry_expects(steps[i].after, next) <==> (match steps[i].action {
            RetryAction::Store(_) => next is Stored,
            RetryAction::Claim { .. } => next is Claimed,
            RetryAction::Enqueue(_) => next is Enqueued,
            RetryAction::Release { .. } => next is Released,
            RetryAction::Drain => next is Drained,
            RetryAction::Reply(_) => false,
        }),
{
    let step = steps[i];
    assert(retry_next(task, step.stage, step.input, step.after, step.action));
}

/// What is stored of a request. The new task is the old one once more: for the same agents,
/// in the same conversation, with the same text and priority, at the root of a tree of its
/// own, and due after the timeout. The request, its sender and the place to answer are kept
/// as they came, and the answer names the new task.
pub proof fn law_a_retry_is_the_task_once_more(
    input: RetryTaskInput,
    event: RetryEvent,
    source: AgentTask,
    now: Timestamp,
    timeout: Duration,
)
    requires
        is_input_of(input, event, source, now, timeout),
    ensures
        input.task.text@ == source.text@,
        input.task.from_agent == source.from_agent && input.task.to_agent == source.to_agent,
        input.task.conversation_id == source.conversation_id,
        input.task.priority == source.priority,
        input.task.root_task_id == input.task.task_id,
        input.task.parent_task_id is None && input.task.reply_to is None,
        input.task.depth == 0 && input.task.hops == 0 && input.task.version == 0,
        input.task.deadline matches Some(due) && due.total() == now.total() + timeout.total(),
        input.source_task_id == source.task_id,
        input.transport@ == "matrix"@,
        input.external_event_id@ == event.event_id@ && input.reply_event_id@ == event.event_id@,
        input.room_id@ == event.room_id@ && input.admin_actor@ == event.sender@,
        match event.thread_root {
            Some(root) => input.thread_root matches Some(own) && own@ == root@,
            None => input.thread_root is None,
        },
        input.timestamp == now,
        input.body@ == "retry=admitted task_id="@ + hyphenated(input.task.task_id.bits()),
{
}

/// A request is answered under one transaction id, however often it is made; what the id is
/// made of is the room and the request.
pub proof fn law_a_request_is_answered_under_one_id(
    one: RetryTaskInput,
    other: RetryTaskInput,
    event: RetryEvent,
    again: RetryEvent,
    source: AgentTask,
    now: Timestamp,
    later: Timestamp,
    timeout: Duration,
)
    requires
        is_input_of(one, event, source, now, timeout),
        is_input_of(other, again, source, later, timeout),
        event.room_id@ == again.room_id@,
        event.event_id@ == again.event_id@,
    ensures
        one.stable_txn_id@ == other.stable_txn_id@,
        one.stable_txn_id@ == hyphenated(
            named_uuid(
                RETRY_TXN_NAMESPACE,
                encode_utf8("matrix\0"@ + event.room_id@ + "\0"@ + event.event_id@),
            ),
        ),
{
}

} // verus!
