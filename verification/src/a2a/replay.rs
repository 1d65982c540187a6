//! What a request id means across the messages of a peer.
//!
//! The exchanges are kept by peer and request id. A message that is sent again under its
//! request id is answered with the task that it became, another message under that id is
//! refused, and a request id of one peer says nothing about that of another.

use vstd::prelude::*;

use crate::a2a::content::content_hash;
use crate::a2a::error::A2aErrorView;
use crate::a2a::serving::serving_next;
use crate::a2a::serving::ServingAction;
use crate::a2a::serving::ServingContext;
use crate::a2a::serving::ServingInput;
use crate::a2a::serving::ServingStage;
use crate::a2a::store::decided_inbound;
use crate::a2a::store::ExchangeRecord;
use crate::a2a::store::InboundReservation;
use crate::a2a::wire::Message;
use crate::acp::result::optional;
use crate::ids::hyphenated;
use crate::ids::parsed_uuid;
use crate::ids::TaskId;

verus! {

/// The exchanges of messages from peers, by peer and request id.
pub type Exchanges = Map<(Seq<char>, Seq<char>), ExchangeRecord>;

/// Where the exchange of a message is kept.
pub open spec fn place(context: ServingContext) -> (Seq<char>, Seq<char>) {
    (context.peer, context.request_id)
}

/// The exchange at a place, where there is one.
pub open spec fn kept_at(exchanges: Exchanges, at: (Seq<char>, Seq<char>)) -> Option<
    ExchangeRecord,
> {
    if exchanges.contains_key(at) {
        Some(exchanges[at])
    } else {
        None
    }
}

/// Whether two records are of one exchange, with the same message and task.
pub open spec fn same_exchange(a: ExchangeRecord, b: ExchangeRecord) -> bool {
    &&& a.request_hash@ == b.request_hash@
    &&& optional(a.internal_task_id) == optional(b.internal_task_id)
    &&& optional(a.external_task_id) == optional(b.external_task_id)
}

/// Whether what is kept at a place is still of the same exchange, with the same message
/// and task.
pub open spec fn stays(before: Exchanges, after: Exchanges, at: (Seq<char>, Seq<char>)) -> bool {
    match (kept_at(before, at), kept_at(after, at)) {
        (None, None) => true,
        (Some(a), Some(b)) => same_exchange(a, b),
        _ => false,
    }
}

/// Whether `after` is the exchange `before`, bound to a task that its peer knows as
/// `external`.
pub open spec fn bound_to(
    before: ExchangeRecord,
    after: ExchangeRecord,
    task_id: TaskId,
    external: Seq<char>,
) -> bool {
    &&& after.request_hash@ == before.request_hash@
    &&& after.internal_task_id matches Some(text) && text@ == hyphenated(task_id.bits())
        && parsed_uuid(text@) == Some(task_id.bits())
    &&& optional(after.external_task_id) == Some(external)
}

/// What the store answers when it is asked to reserve the exchange of a message with
/// this hash: the one that is there, where it is of the same message, a conflict where
/// it is not, and a new one where there is none. The store may also fail.
pub open spec fn reserved(
    before: Exchanges,
    at: (Seq<char>, Seq<char>),
    hash: Seq<char>,
    answer: ServingInput,
    after: Exchanges,
) -> bool {
    let existing = kept_at(before, at);
    match answer {
        ServingInput::Reserved(Err(error)) => {
            &&& after == before
            &&& error@ == A2aErrorView::Storage || decided_inbound(existing, hash, Err(error))
        },
        ServingInput::Reserved(Ok(InboundReservation::Replay(row))) => {
            &&& after == before
            &&& decided_inbound(existing, hash, Ok(Some(row)))
        },
        ServingInput::Reserved(Ok(InboundReservation::New(row))) => {
            &&& decided_inbound(existing, hash, Ok(None))
            &&& row.request_hash@ == hash
            &&& after == before.insert(at, row)
        },
        _ => false,
    }
}

/// How the store stands after it was asked something for a message, and answered.
pub open spec fn store_answers(
    before: Exchanges,
    context: ServingContext,
    hash: Seq<char>,
    asked: ServingAction,
    answer: ServingInput,
    after: Exchanges,
) -> bool {
    match (asked, answer) {
        (ServingAction::Reserve { .. }, _) => reserved(
            before,
            place(context),
            hash,
            answer,
            after,
        ),
        (
            ServingAction::Bind { exchange_id: _, task_id, external_task_id, content_bytes: _ },
            ServingInput::Bound(Ok(true)),
        ) => kept_at(before, place(context)) matches Some(row) && (kept_at(after, place(context))
            matches Some(next) && bound_to(row, next, task_id, external_task_id@)),
        _ => stays(before, after, place(context)),
    }
}

/// One step of taking a message: what was asked of the application, what it answered,
/// what is asked next, and how the store stood before and after.
pub ghost struct SendStep {
    pub before: Exchanges,
    pub asked: ServingAction,
    pub stage: ServingStage,
    pub answer: ServingInput,
    pub after: ServingStage,
    pub action: ServingAction,
    pub left: Exchanges,
}

/// Whether `steps` are those of taking a message with this encoding. Other messages may
/// be taken in between, as long as the message's own exchange stays what it is.
pub open spec fn sends(
    context: ServingContext,
    content: Seq<u8>,
    message: Message,
    steps: Seq<SendStep>,
) -> bool {
    &&& steps.len() > 0
    &&& steps[0].stage == ServingStage::AwaitReserved(message)
    &&& steps[0].asked matches ServingAction::Reserve { request_id, hash, context_id: _ }
        && request_id@ == context.request_id && hash@ == content_hash(content)
    &&& forall|i: int|
        0 <= i < steps.len() ==> {
            let step = #[trigger] steps[i];
            &&& serving_next(context, step.stage, step.answer, step.after, step.action)
            &&& store_answers(
                step.before,
                context,
                content_hash(content),
                step.asked,
                step.answer,
                step.left,
            )
        }
    &&& forall|i: int|
        0 < i < steps.len() ==> {
            let step = #[trigger] steps[i];
            &&& step.stage == steps[i - 1].after
            &&& step.asked == steps[i - 1].action
            &&& stays(steps[i - 1].left, step.before, place(context))
        }
}

/// Whether a step hands something to the bus or changes an exchange.
pub open spec fn makes_something(action: ServingAction) -> bool {
    action is Submit || action is Bind || action is Store || action is StorePeer
        || action is InsertConversation
}

/// Whether a message in this stage is on its way to becoming a task.
spec fn becoming(stage: ServingStage) -> bool {
    match stage {
        ServingStage::AwaitReserved(_) => false,
        ServingStage::AwaitFound => false,
        ServingStage::AwaitEvent { external: _, cleaned: _ } => false,
        ServingStage::Done => false,
        _ => true,
    }
}

/// A message whose exchange was reserved for it becomes a task: wherever it is, its
/// exchange is there with its hash, and it is bound as the last action says.
proof fn lemma_on_its_way(
    context: ServingContext,
    content: Seq<u8>,
    message: Message,
    steps: Seq<SendStep>,
    i: int,
)
    requires
        sends(context, content, message, steps),
        kept_at(steps[0].before, place(context)) is None,
        0 < i < steps.len(),
    ensures
        becoming(steps[i].stage),
        kept_at(steps[i].before, place(context)) matches Some(row) && row.request_hash@
            == content_hash(content),
        steps[i].stage matches ServingStage::AwaitBound { external } ==> (steps[i].asked matches
            ServingAction::Bind { external_task_id, .. } && external_task_id@ == external),
    decreases i,
{
    let step = steps[i];
    let previous = steps[i - 1];
    assert(serving_next(
        context,
        previous.stage,
        previous.answer,
        previous.after,
        previous.action,
    ));
    assert(serving_next(context, step.stage, step.answer, step.after, step.action));
    if i > 1 {
        lemma_on_its_way(context, content, message, steps, i - 1);
        assert(store_answers(
            previous.before,
            context,
            content_hash(content),
            previous.asked,
            previous.answer,
            previous.left,
        ));
    }
}

/// What a message that was answered leaves behind: its exchange, bound to a task under
/// the name that the answer gives.
proof fn lemma_an_answer_is_bound(
    context: ServingContext,
    content: Seq<u8>,
    message: Message,
    steps: Seq<SendStep>,
)
    requires
        sends(context, content, message, steps),
        steps.last().action is Answer,
    ensures
        kept_at(steps.last().left, place(context)) matches Some(row) && row.request_hash@
            == content_hash(content) && (row.internal_task_id matches Some(text)
            && parsed_uuid(text@) is Some) && optional(row.external_task_id) == Some(
            steps.last().action->Answer_0.id@,
        ),
{
    let last = steps[steps.len() - 1];
    assert(serving_next(context, last.stage, last.answer, last.after, last.action));
    assert(store_answers(
        last.before,
        context,
        content_hash(content),
        last.asked,
        last.answer,
        last.left,
    ));
    let first = steps[0];
    assert(serving_next(context, first.stage, first.answer, first.after, first.action));
    assert(store_answers(
        first.before,
        context,
        content_hash(content),
        first.asked,
        first.answer,
        first.left,
    ));
    if kept_at(first.before, place(context)) is None {
        if steps.len() > 1 {
            lemma_on_its_way(context, content, message, steps, steps.len() - 1);
        }
    } else if steps.len() > 1 {
        let second = steps[1];
        assert(second.stage == first.after);
        assert(serving_next(context, second.stage, second.answer, second.after, second.action));
        if steps.len() > 2 {
            let third = steps[2];
            assert(third.stage == second.after);
            assert(serving_next(context, third.stage, third.answer, third.after, third.action));
        }
    }
}

/// A request id of a peer stands for one message. Where a message was answered, the same
/// message under the same request id is answered with the same task, and nothing is made
/// of it; another message under that id is refused as a conflict, and nothing is made of
/// it either. Under the same request id another peer's message is a message of its own.
/// Messages are told apart by the hashes of their encodings, and the store is taken not
/// to fail the second time.
pub proof fn law_a_request_id_stands_for_one_message(
    first_context: ServingContext,
    first_content: Seq<u8>,
    first_message: Message,
    first: Seq<SendStep>,
    second_context: ServingContext,
    second_content: Seq<u8>,
    second_message: Message,
    second: Seq<SendStep>,
)
    requires
        sends(first_context, first_content, first_message, first),
        first.last().action is Answer,
        sends(second_context, second_content, second_message, second),
        second_context.request_id == first_context.request_id,
        stays(first.last().left, second[0].before, place(first_context)),
        !(second[0].answer matches ServingInput::Reserved(Err(error)) && error@
            == A2aErrorView::Storage),
    ensures
        second_context.peer == first_context.peer ==> forall|i: int|
            0 <= i < second.len() ==> !makes_something((#[trigger] second[i]).action),
        second_context.peer == first_context.peer && content_hash(second_content)
            == content_hash(first_content) ==> {
            &&& second[0].action is ReadEvent
            &&& second.len() > 1 ==> (second[1].answer matches ServingInput::Event(Some(_))
                ==> second[1].action is Answer)
            &&& second.last().action matches ServingAction::Answer(answer) ==> answer.id@
                == first.last().action->Answer_0.id@
        },
        second_context.peer == first_context.peer && content_hash(second_content)
            != content_hash(first_content) ==> {
            &&& second.len() == 1
            &&& second[0].action matches ServingAction::Failed(error) && error@
                == A2aErrorView::Conflict
        },
        second_context.peer != first_context.peer && kept_at(
            second[0].before,
            place(second_context),
        ) is None ==> second[0].action is Store,
{
    lemma_an_answer_is_bound(first_context, first_content, first_message, first);
    let step = second[0];
    assert(serving_next(second_context, step.stage, step.answer, step.after, step.action));
    assert(store_answers(
        step.before,
        second_context,
        content_hash(second_content),
        step.asked,
        step.answer,
        step.left,
    ));
    if second.len() > 1 {
        let next = second[1];
        assert(serving_next(second_context, next.stage, next.answer, next.after, next.action));
        assert(next.stage == step.after);
    }
    if second.len() > 2 {
        let third = second[2];
        assert(serving_next(second_context, third.stage, third.answer, third.after, third.action));
        assert(third.stage == second[1].after);
    }
}

} // verus!
