//! Messages from Matrix: where their answers go, and what becomes of each.

use std::collections::HashMap;
use std::collections::VecDeque;

use vstd::prelude::*;
use vstd::std_specs::hash::*;
use vstd::string::*;

use crate::bus::fanout::ConsumerError;
use crate::ids::TaskId;

verus! {

broadcast use group_hash_axioms;

/// How many tasks' answers are waited for, unless configured otherwise.
pub const DEFAULT_REPLY_CAPACITY: usize = 4096;

/// Where the answer to a message goes.
#[derive(Debug, Clone, PartialEq, Eq)]
pub struct ReplyContext {
    pub room_id: String,
    pub thread_root: Option<String>,
    pub event_id: String,
}

/// Where answers go, as data, and the order in which tasks were entered. A task whose
/// answer was sent keeps its place in the order.
pub ghost struct RepliesView {
    pub contexts: Map<u128, ReplyContext>,
    pub order: Seq<u128>,
}

impl RepliesView {
    /// The tasks that were entered first are dropped until no more than `capacity`
    /// are left.
    pub open spec fn evicted(self, capacity: nat) -> RepliesView
        decreases self.order.len(),
    {
        if self.contexts.len() <= capacity || self.order.len() == 0 {
            self
        } else {
            RepliesView {
                contexts: self.contexts.remove(self.order[0]),
                order: self.order.drop_first(),
            }.evicted(capacity)
        }
    }

    /// A task is entered, or its context is replaced where it was.
    pub open spec fn entered(self, task: u128, context: ReplyContext) -> RepliesView {
        RepliesView {
            contexts: self.contexts.insert(task, context),
            order: if self.contexts.contains_key(task) {
                self.order
            } else {
                self.order.push(task)
            },
        }
    }

    /// Every task has a place in the order.
    pub open spec fn ordered(self) -> bool {
        &&& self.contexts.dom().finite()
        &&& forall|task: u128| #[trigger] self.contexts.contains_key(task) ==> self.order.contains(
            task,
        )
    }
}

/// Where the answers to tasks go, for a bounded number of tasks.
#[derive(Debug)]
pub struct ReplyRegistry {
    capacity: usize,
    contexts: HashMap<u128, ReplyContext>,
    order: VecDeque<u128>,
}

impl View for ReplyRegistry {
    type V = RepliesView;

    closed spec fn view(&self) -> RepliesView {
        RepliesView { contexts: self.contexts@, order: self.order@ }
    }
}

impl ReplyRegistry {
    /// How many tasks' answers are waited for at most.
    pub closed spec fn capacity(&self) -> nat {
        self.capacity as nat
    }

    /// No more tasks than the capacity, each with a place in the order.
    pub closed spec fn wf(&self) -> bool {
        &&& self@.ordered()
        &&& self@.contexts.len() <= self.capacity
        &&& self.capacity > 0
    }

    /// A registry for `capacity` tasks.
    pub fn new(capacity: usize) -> (registry: ReplyRegistry)
        requires
            capacity > 0,
        ensures
            registry.wf(),
            registry.capacity() == capacity,
            registry@ == (RepliesView { contexts: Map::empty(), order: Seq::empty() }),
    {
        let registry = ReplyRegistry {
            capacity,
            contexts: HashMap::new(),
            order: VecDeque::new(),
        };
        assert(registry@.order =~= Seq::empty());
        registry
    }

    /// Enter a task, or replace its context. Where that is one task too many, the
    /// ones that were entered first are dropped.
    pub fn insert(&mut self, task: TaskId, context: ReplyContext)
        requires
            old(self).wf(),
        ensures
            final(self).wf(),
            final(self).capacity() == old(self).capacity(),
            final(self)@ == old(self)@.entered(task.bits(), context).evicted(
                old(self).capacity(),
            ),
    {
        let key: u128 = task.as_u128();
        let ghost before = self@;
        if !self.contexts.contains_key(&key) {
            self.order.push_back(key);
        }
        self.contexts.insert(key, context);
        proof {
            assert(self@.order =~= before.entered(key, context).order);
            let entered = self@;
            assert forall|id: u128| #[trigger] entered.contexts.contains_key(id) implies
                entered.order.contains(id) by {
                if before.contexts.contains_key(id) {
                    let at = choose|k: int| 0 <= k < before.order.len() && before.order[k] == id;
                    assert(entered.order[at] == id);
                } else {
                    assert(entered.order[entered.order.len() - 1] == id);
                }
            }
        }
        while self.contexts.len() > self.capacity
            invariant
                self@.ordered(),
                self.capacity > 0,
                self.capacity == old(self).capacity,
                self@.evicted(self.capacity as nat) == old(self)@.entered(
                    task.bits(),
                    context,
                ).evicted(old(self).capacity()),
            decreases self.order@.len(),
        {
            let ghost held = self@;
            proof {
                if held.order.len() == 0 {
                    assert(held.contexts.dom() =~= Set::<u128>::empty()) by {
                        assert forall|id: u128| !held.contexts.contains_key(id) by {
                            if held.contexts.contains_key(id) {
                                assert(held.order.contains(id));
                            }
                        }
                    }
                    assert(false);
                }
            }
            match self.order.pop_front() {
                Some(oldest) => {
                    self.contexts.remove(&oldest);
                },
                None => {},
            }
            proof {
                assert(self@.order =~= held.order.drop_first());
                assert forall|id: u128| #[trigger] self@.contexts.contains_key(id) implies
                    self@.order.contains(id) by {
                    assert(held.contexts.contains_key(id));
                    let at = choose|k: int| 0 <= k < held.order.len() && held.order[k] == id;
                    assert(at > 0);
                    assert(self@.order[at - 1] == id);
                }
            }
        }
    }

    /// Take the context of a task out.
    pub fn take(&mut self, task: TaskId) -> (context: Option<ReplyContext>)
        requires
            old(self).wf(),
        ensures
            final(self).wf(),
            final(self).capacity() == old(self).capacity(),
            final(self)@ == (RepliesView {
                contexts: old(self)@.contexts.remove(task.bits()),
                order: old(self)@.order,
            }),
            match context {
                Some(context) => old(self)@.contexts.contains_key(task.bits()) && old(
                    self,
                )@.contexts[task.bits()] == context,
                None => !old(self)@.contexts.contains_key(task.bits()),
            },
    {
        let key: u128 = task.as_u128();
        let ghost before = self@;
        let context = self.contexts.remove(&key);
        assert forall|id: u128| #[trigger] self@.contexts.contains_key(id) implies
            self@.order.contains(id) by {
            assert(before.contexts.contains_key(id));
        }
        context
    }

    /// The context of a task.
    pub fn get(&self, task: TaskId) -> (context: Option<&ReplyContext>)
        ensures
            match context {
                Some(context) => self@.contexts.contains_key(task.bits())
                    && self@.contexts[task.bits()] == *context,
                None => !self@.contexts.contains_key(task.bits()),
            },
    {
        let key: u128 = task.as_u128();
        self.contexts.get(&key)
    }

    /// How many tasks' answers are waited for.
    pub fn len(&self) -> (len: usize)
        ensures
            len == self@.contexts.len(),
    {
        self.contexts.len()
    }
}

impl Default for ReplyRegistry {
    fn default() -> (registry: ReplyRegistry)
        ensures
            registry.wf(),
            registry.capacity() == DEFAULT_REPLY_CAPACITY,
            registry@ == (RepliesView { contexts: Map::empty(), order: Seq::empty() }),
    {
        ReplyRegistry::new(DEFAULT_REPLY_CAPACITY)
    }
}

/// Dropping the first tasks keeps the last one.
proof fn lemma_eviction_keeps_the_last(state: RepliesView, capacity: nat, task: u128)
    requires
        state.ordered(),
        capacity > 0,
        state.contexts.contains_key(task),
        state.order.len() > 0,
        state.order.last() == task,
        !state.order.drop_last().contains(task),
    ensures
        state.evicted(capacity).contexts.contains_key(task),
        state.evicted(capacity).contexts[task] == state.contexts[task],
    decreases state.order.len(),
{
    if state.contexts.len() > capacity {
        if state.order.len() == 1 {
            assert(state.contexts.dom() =~= set![task]) by {
                assert forall|id: u128| state.contexts.contains_key(id) implies id == task by {
                    assert(state.order.contains(id));
                }
            }
            assert(false);
        }
        let rest = RepliesView {
            contexts: state.contexts.remove(state.order[0]),
            order: state.order.drop_first(),
        };
        assert(state.order[0] != task) by {
            assert(state.order.drop_last()[0] == state.order[0]);
        }
        assert(rest.ordered()) by {
            assert forall|id: u128| #[trigger] rest.contexts.contains_key(id) implies
                rest.order.contains(id) by {
                assert(state.contexts.contains_key(id));
                let at = choose|k: int| 0 <= k < state.order.len() && state.order[k] == id;
                assert(rest.order[at - 1] == id);
            }
        }
        assert(!rest.order.drop_last().contains(task)) by {
            if rest.order.drop_last().contains(task) {
                let at = choose|k: int|
                    0 <= k < rest.order.drop_last().len() && rest.order.drop_last()[k] == task;
                assert(state.order.drop_last()[at + 1] == task);
            }
        }
        lemma_eviction_keeps_the_last(rest, capacity, task);
    }
}

/// A task that is entered for the first time is not the one that is dropped.
pub proof fn law_a_new_task_keeps_its_context(
    state: RepliesView,
    capacity: nat,
    task: u128,
    context: ReplyContext,
)
    requires
        state.ordered(),
        capacity > 0,
        !state.order.contains(task),
    ensures
        state.entered(task, context).evicted(capacity).contexts.contains_key(task),
        state.entered(task, context).evicted(capacity).contexts[task] == context,
{
    let entered = state.entered(task, context);
    assert(!state.contexts.contains_key(task));
    assert(entered.order.drop_last() =~= state.order);
    assert(entered.ordered()) by {
        assert forall|id: u128| #[trigger] entered.contexts.contains_key(id) implies
            entered.order.contains(id) by {
            if id == task {
                assert(entered.order[entered.order.len() - 1] == id);
            } else {
                assert(state.contexts.contains_key(id));
                let at = choose|k: int| 0 <= k < state.order.len() && state.order[k] == id;
                assert(entered.order[at] == id);
            }
        }
    }
    lemma_eviction_keeps_the_last(entered, capacity, task);
}

/// What the consumer of events reports after trying to send a task's answer, where
/// `sent` says whether there was one to send, and is nothing where sending failed.
/// An answer is sent once: afterwards, and after a failure, its context is gone.
pub fn conclude_reply(replies: &mut ReplyRegistry, task: TaskId, sent: Option<bool>) -> (result:
    Result<(), ConsumerError>)
    requires
        old(replies).wf(),
    ensures
        final(replies).wf(),
        final(replies).capacity() == old(replies).capacity(),
        final(replies)@ == (if sent == Some(false) {
            old(replies)@
        } else {
            RepliesView {
                contexts: old(replies)@.contexts.remove(task.bits()),
                order: old(replies)@.order,
            }
        }),
        match result {
            Ok(_) => sent is Some,
            Err(ConsumerError::Failed { reason }) => sent is None && reason@
                == "terminal Matrix reply failed"@,
        },
{
    match sent {
        Some(true) => {
            replies.take(task);
            Ok(())
        },
        Some(false) => Ok(()),
        None => {
            replies.take(task);
            Err(ConsumerError::Failed { reason: "terminal Matrix reply failed".to_owned() })
        },
    }
}

/// A message as it arrived.
#[derive(Debug, Clone, PartialEq, Eq)]
pub struct InboundMatrixEvent {
    pub event_id: String,
    pub room_id: String,
    pub thread_root: Option<String>,
    pub sender: String,
    pub body: String,
}

/// Where the answer to a message goes.
pub open spec fn answers_to(context: ReplyContext, event: InboundMatrixEvent) -> bool {
    &&& context.room_id@ == event.room_id@
    &&& crate::acp::result::optional(context.thread_root) == crate::acp::result::optional(
        event.thread_root,
    )
    &&& context.event_id@ == event.event_id@
}

/// Where the answer to a message goes.
pub fn reply_context(event: &InboundMatrixEvent) -> (context: ReplyContext)
    ensures
        answers_to(context, *event),
{
    let thread_root = match &event.thread_root {
        Some(root) => Some(root.clone()),
        None => None,
    };
    ReplyContext {
        room_id: event.room_id.clone(),
        thread_root,
        event_id: event.event_id.clone(),
    }
}

/// Where a message is.
#[derive(Debug, Clone, Copy, PartialEq, Eq, Structural)]
pub enum MessageStage {
    AwaitAdmin,
    AwaitConversation,
    AwaitRouted,
    AwaitDenied,
    Done,
}

/// What came of an action.
#[derive(Debug, Clone, Copy, PartialEq, Eq, Structural)]
pub enum MessageInput {
    /// The message is an ordinary one; otherwise it was answered as a command, or
    /// could not be.
    Admin { ordinary: bool },
    /// Whether the conversation of the message is known.
    Conversation(bool),
    /// The task that the message became.
    Routed(TaskId),
    /// Its sender may not ask for it.
    Forbidden,
    /// It became no task.
    Unrouted,
    /// The sender was told, or could not be.
    Denied,
}

/// What to do next with a message.
#[derive(Debug, Clone, Copy, PartialEq, Eq, Structural)]
pub enum MessageAction {
    /// Take it as a command, where it is one.
    HandleAdmin,
    /// Look for its conversation.
    ResolveConversation,
    /// Make a task of it.
    Route,
    /// Remember where the answer to its task goes.
    Remember(TaskId),
    /// Tell its sender that it is not allowed.
    Deny,
    /// Nothing.
    Drop,
}

/// Whether `input` answers what a message in `stage` waits for.
pub open spec fn message_expects(stage: MessageStage, input: MessageInput) -> bool {
    match stage {
        MessageStage::AwaitAdmin => input is Admin,
        MessageStage::AwaitConversation => input is Conversation,
        MessageStage::AwaitRouted => input is Routed || input is Forbidden || input is Unrouted,
        MessageStage::AwaitDenied => input is Denied,
        MessageStage::Done => false,
    }
}

/// Whether `input` answers what a message in `stage` waits for.
pub fn message_takes(stage: MessageStage, input: &MessageInput) -> (yes: bool)
    ensures
        yes == message_expects(stage, *input),
{
    match (stage, input) {
        (MessageStage::AwaitAdmin, MessageInput::Admin { .. }) => true,
        (MessageStage::AwaitConversation, MessageInput::Conversation(_)) => true,
        (MessageStage::AwaitRouted, MessageInput::Routed(_)) => true,
        (MessageStage::AwaitRouted, MessageInput::Forbidden) => true,
        (MessageStage::AwaitRouted, MessageInput::Unrouted) => true,
        (MessageStage::AwaitDenied, MessageInput::Denied) => true,
        _ => false,
    }
}

/// How a message goes on.
pub open spec fn message_next(stage: MessageStage, input: MessageInput) -> (
    MessageStage,
    MessageAction,
) {
    match (stage, input) {
        (MessageStage::AwaitAdmin, MessageInput::Admin { ordinary: true }) => (
            MessageStage::AwaitConversation,
            MessageAction::ResolveConversation,
        ),
        (MessageStage::AwaitConversation, MessageInput::Conversation(true)) => (
            MessageStage::AwaitRouted,
            MessageAction::Route,
        ),
        (MessageStage::AwaitRouted, MessageInput::Routed(task)) => (
            MessageStage::Done,
            MessageAction::Remember(task),
        ),
        (MessageStage::AwaitRouted, MessageInput::Forbidden) => (
            MessageStage::AwaitDenied,
            MessageAction::Deny,
        ),
        _ => (MessageStage::Done, MessageAction::Drop),
    }
}

/// Go on with a message, which begins in [`MessageStage::AwaitAdmin`]: every message
/// is taken as a command first.
pub fn message_step(stage: MessageStage, input: MessageInput) -> (next: (
    MessageStage,
    MessageAction,
))
    requires
        message_expects(stage, input),
    ensures
        next == message_next(stage, input),
{
    match (stage, input) {
        (MessageStage::AwaitAdmin, MessageInput::Admin { ordinary: true }) => (
            MessageStage::AwaitConversation,
            MessageAction::ResolveConversation,
        ),
        (MessageStage::AwaitConversation, MessageInput::Conversation(true)) => (
            MessageStage::AwaitRouted,
            MessageAction::Route,
        ),
        (MessageStage::AwaitRouted, MessageInput::Routed(task)) => (
            MessageStage::Done,
            MessageAction::Remember(task),
        ),
        (MessageStage::AwaitRouted, MessageInput::Forbidden) => (
            MessageStage::AwaitDenied,
            MessageAction::Deny,
        ),
        _ => (MessageStage::Done, MessageAction::Drop),
    }
}

/// A command never becomes a task, and only a message that is forbidden is denied.
pub proof fn law_commands_make_no_tasks(stage: MessageStage, input: MessageInput)
    requires
        message_expects(stage, input),
    ensures
        input == (MessageInput::Admin { ordinary: false }) ==> message_next(stage, input) == (
            MessageStage::Done,
            MessageAction::Drop,
        ),
        message_next(stage, input).1 is Route ==> stage is AwaitConversation,
        message_next(stage, input).1 is Deny <==> input is Forbidden,
        message_next(stage, input).1 is Remember <==> input is Routed,
{
}

/// How a message goes, input by input: a command is done with; an ordinary message becomes
/// a task in its conversation, and the answer to that task is remembered; one that is not
/// allowed is denied; and one that cannot be placed is dropped. Each waits for what answers
/// its last action.
pub proof fn law_a_message_goes_step_by_step(
    stage: MessageStage,
    input: MessageInput,
    next: MessageInput,
)
    requires
        message_expects(stage, input),
    ensures
        message_next(stage, input).1 == (match input {
            MessageInput::Admin { ordinary: true } => MessageAction::ResolveConversation,
            MessageInput::Admin { ordinary: false } => MessageAction::Drop,
            MessageInput::Conversation(true) => MessageAction::Route,
            MessageInput::Conversation(false) => MessageAction::Drop,
            MessageInput::Routed(task) => MessageAction::Remember(task),
            MessageInput::Forbidden => MessageAction::Deny,
            MessageInput::Unrouted => MessageAction::Drop,
            MessageInput::Denied => MessageAction::Drop,
        }),
        message_expects(message_next(stage, input).0, next) <==> (match message_next(
            stage,
            input,
        ).1 {
            MessageAction::HandleAdmin => next is Admin,
            MessageAction::ResolveConversation => next is Conversation,
            MessageAction::Route => next is Routed || next is Forbidden || next is Unrouted,
            MessageAction::Deny => next is Denied,
            MessageAction::Remember(_) => false,
            MessageAction::Drop => false,
        }),
        message_expects(MessageStage::AwaitAdmin, next) <==> next is Admin,
{
}

/// What is dropped to make room are the tasks that were entered first, and no more of them
/// than it takes.
pub proof fn law_the_first_tasks_are_dropped(state: RepliesView, capacity: nat) -> (dropped: int)
    requires
        state.ordered(),
    ensures
        0 <= dropped <= state.order.len(),
        state.evicted(capacity).order == state.order.skip(dropped),
        state.evicted(capacity).contexts == state.contexts.remove_keys(
            state.order.take(dropped).to_set(),
        ),
        dropped > 0 ==> state.contexts.remove_keys(
            state.order.take(dropped - 1).to_set(),
        ).len() > capacity,
        dropped < state.order.len() ==> state.evicted(capacity).contexts.len() <= capacity,
    decreases state.order.len(),
{
    if state.contexts.len() <= capacity || state.order.len() == 0 {
        assert(state.order.skip(0) =~= state.order);
        assert(state.contexts.remove_keys(state.order.take(0).to_set()) =~= state.contexts);
        0
    } else {
        let rest = RepliesView {
            contexts: state.contexts.remove(state.order[0]),
            order: state.order.drop_first(),
        };
        assert(rest.ordered()) by {
            assert forall|id: u128| #[trigger] rest.contexts.contains_key(id) implies
                rest.order.contains(id) by {
                assert(state.contexts.contains_key(id));
                let at = choose|k: int| 0 <= k < state.order.len() && state.order[k] == id;
                assert(rest.order[at - 1] == id);
            }
        }
        let more = law_the_first_tasks_are_dropped(rest, capacity);
        assert(rest.order.skip(more) =~= state.order.skip(more + 1));
        lemma_removed_with_the_first(state, more);
        if more > 0 {
            lemma_removed_with_the_first(state, more - 1);
        } else {
            assert(state.contexts.remove_keys(state.order.take(0).to_set()) =~= state.contexts);
        }
        more + 1
    }
}

/// Removing the first task and so many more is removing the first tasks.
proof fn lemma_removed_with_the_first(state: RepliesView, more: int)
    requires
        state.order.len() > 0,
        0 <= more < state.order.len(),
    ensures
        state.contexts.remove(state.order[0]).remove_keys(
            state.order.drop_first().take(more).to_set(),
        ) == state.contexts.remove_keys(state.order.take(more + 1).to_set()),
{
    let one = state.order.drop_first().take(more);
    let all = state.order.take(more + 1);
    assert forall|id: u128| all.contains(id) <==> (one.contains(id) || id == state.order[0]) by {
        if all.contains(id) {
            let k = choose|k: int| 0 <= k < all.len() && all[k] == id;
            if k > 0 {
                assert(one[k - 1] == id);
            }
        }
        if one.contains(id) {
            let k = choose|k: int| 0 <= k < one.len() && one[k] == id;
            assert(all[k + 1] == id);
        }
        assert(all[0] == state.order[0]);
    }
    assert(state.contexts.remove(state.order[0]).remove_keys(one.to_set())
        =~= state.contexts.remove_keys(all.to_set()));
}

/// A task that is entered again keeps its place and gets its new context; the contexts of
/// others stay as they are.
pub proof fn law_an_entered_task_has_its_context(
    state: RepliesView,
    task: u128,
    other: u128,
    context: ReplyContext,
)
    requires
        task != other,
    ensures
        state.entered(task, context).contexts.contains_key(task),
        state.entered(task, context).contexts[task] == context,
        state.entered(task, context).contexts.contains_key(other) <==> state.contexts.contains_key(
            other,
        ),
        state.contexts.contains_key(other) ==> state.entered(task, context).contexts[other]
            == state.contexts[other],
        state.contexts.contains_key(task) ==> state.entered(task, context).order == state.order,
        !state.contexts.contains_key(task) ==> state.entered(task, context).order
            == state.order.push(task),
{
}

/// The answer to a message goes to its own room and thread, as an answer to it; and answers
/// are waited for up to a fixed number of tasks.
pub proof fn law_an_answer_goes_where_its_message_came_from(
    context: ReplyContext,
    event: InboundMatrixEvent,
)
    requires
        answers_to(context, event),
    ensures
        context.room_id@ == event.room_id@,
        context.event_id@ == event.event_id@,
        match event.thread_root {
            Some(root) => context.thread_root matches Some(own) && own@ == root@,
            None => context.thread_root is None,
        },
        DEFAULT_REPLY_CAPACITY == 4096,
{
}

} // verus!
