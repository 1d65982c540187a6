//! Sending a task to a peer, and polling it until it is over.
//!
//! A task is reserved before it is sent, so that it is sent at most once: where
//! the answer is lost, acceptance is unknown, and stays so.

use vstd::prelude::*;
use vstd::string::*;

use crate::a2a::error::A2aError;
use crate::a2a::store::ExchangeRecord;
use crate::a2a::store::InboundReservation;
use crate::a2a::wire::Artifact;
use crate::a2a::wire::Message;
use crate::a2a::wire::Part;
use crate::a2a::wire::Role;
use crate::a2a::wire::SendParams;
use crate::a2a::wire::TaskSnapshot;
use crate::a2a::wire::TaskState;
use crate::a2a::wire::PROTOCOL_VERSION;
use crate::bus::worker::DispatchError;
use crate::models::EndpointAddress;
use crate::text::join;
use crate::text::joined;
use crate::text::same_text;
use crate::text::views;

verus! {

/// Why a stage gave no usable result, as data.
pub ghost enum FaultView {
    NotAccepted(Seq<char>),
    ExecutionFailed(Seq<char>),
    UnsupportedPrepared,
    AcceptanceUnknown,
    RecoveryNeeded,
}

/// A dispatch failure as data.
pub open spec fn fault_of(error: DispatchError) -> FaultView {
    match error {
        DispatchError::NotAccepted { reason } => FaultView::NotAccepted(reason@),
        DispatchError::ExecutionFailed { reason } => FaultView::ExecutionFailed(reason@),
        DispatchError::UnsupportedPrepared => FaultView::UnsupportedPrepared,
        DispatchError::AcceptanceUnknown => FaultView::AcceptanceUnknown,
        DispatchError::RecoveryNeeded => FaultView::RecoveryNeeded,
    }
}

/// A task that was not accepted.
fn not_accepted(reason: &str) -> (error: DispatchError)
    ensures
        fault_of(error) == FaultView::NotAccepted(reason@),
{
    DispatchError::NotAccepted { reason: reason.to_owned() }
}

/// The parameters a task is sent with, as data.
pub ghost struct SendView {
    pub request_id: Seq<char>,
    pub context_id: Seq<char>,
    pub text: Seq<char>,
}

/// Whether `params` send exactly the text of a task, under its own id.
pub open spec fn sends(params: SendParams, sent: SendView) -> bool {
    &&& params.protocol_version@ == PROTOCOL_VERSION@
    &&& params.request_id@ == sent.request_id
    &&& params.context_id@ == sent.context_id
    &&& params.message.message_id@ == sent.request_id
    &&& params.message.role is User
    &&& params.message.parts@.len() == 1
    &&& params.message.parts@[0] matches Part::Text { text } && text@ == sent.text
}

/// Where a delivery to a peer is.
pub ghost enum SendingView {
    AwaitReserved,
    AwaitSent { exchange_id: Seq<char>, revision: i64 },
    AwaitMarked,
    AwaitAcknowledged,
    Done,
}

/// What came of an action.
pub enum SendingInput {
    /// The exchange was reserved, or found.
    Reserved(Result<InboundReservation, A2aError>),
    /// The peer answered, or did not.
    Sent(Result<TaskSnapshot, A2aError>),
    /// That acceptance is unknown was written, or could not be.
    Marked(bool),
    /// The peer's task was bound to the exchange, or could not be.
    Acknowledged(bool),
}

/// What to do next for a delivery to a peer.
pub enum SendingAction {
    /// Send the task.
    Send(SendParams),
    /// Write that acceptance is unknown.
    MarkUnknown { exchange_id: String, revision: i64 },
    /// Bind the peer's task to the exchange.
    Acknowledge { exchange_id: String, remote_task_id: String, state: &'static str },
    /// The peer has the task.
    Accepted,
    /// The delivery failed.
    Failed(DispatchError),
}

/// Whether `input` answers what a delivery in `stage` waits for.
pub open spec fn sending_expects(stage: SendingView, input: SendingInput) -> bool {
    match stage {
        SendingView::AwaitReserved => input is Reserved,
        SendingView::AwaitSent { exchange_id: _, revision: _ } => input is Sent,
        SendingView::AwaitMarked => input is Marked,
        SendingView::AwaitAcknowledged => input is Acknowledged,
        SendingView::Done => false,
    }
}

/// The end of a delivery that failed.
pub open spec fn sending_failed(
    after: SendingView,
    action: SendingAction,
    fault: FaultView,
) -> bool {
    after is Done && (action matches SendingAction::Failed(error) && fault_of(error) == fault)
}

/// How a delivery of `sent` goes on.
pub open spec fn sending_next(
    sent: SendView,
    stage: SendingView,
    input: SendingInput,
    after: SendingView,
    action: SendingAction,
) -> bool {
    match (stage, input) {
        (SendingView::AwaitReserved, SendingInput::Reserved(Err(error))) => sending_failed(
            after,
            action,
            FaultView::NotAccepted(error@.rendered()),
        ),
        (
            SendingView::AwaitReserved,
            SendingInput::Reserved(Ok(InboundReservation::Replay(row))),
        ) => if row.external_task_id is Some {
            after is Done && action is Accepted
        } else {
            sending_failed(after, action, FaultView::AcceptanceUnknown)
        },
        (SendingView::AwaitReserved, SendingInput::Reserved(Ok(InboundReservation::New(row)))) => {
            &&& after == (SendingView::AwaitSent {
                exchange_id: row.exchange_id@,
                revision: row.revision,
            })
            &&& action matches SendingAction::Send(params) && sends(params, sent)
        },
        (SendingView::AwaitSent { exchange_id: _, revision: _ }, SendingInput::Sent(Err(A2aError::Unauthorized))) =>
            sending_failed(after, action, FaultView::NotAccepted("A2A authentication failed"@)),
        (SendingView::AwaitSent { exchange_id, revision }, SendingInput::Sent(Err(_))) => {
            &&& after is AwaitMarked
            &&& action matches SendingAction::MarkUnknown { exchange_id: own, revision: at }
                && own@ == exchange_id && at == revision
        },
        (SendingView::AwaitSent { exchange_id, revision: _ }, SendingInput::Sent(Ok(snapshot))) =>
        if snapshot.status is Submitted || snapshot.status is Working {
            &&& after is AwaitAcknowledged
            &&& action matches SendingAction::Acknowledge {
                exchange_id: own,
                remote_task_id,
                state,
            } && own@ == exchange_id && remote_task_id@ == snapshot.id@ && state@ == (if
            snapshot.status is Working {
                "working"@
            } else {
                "submitted"@
            })
        } else {
            sending_failed(after, action, FaultView::NotAccepted("remote did not accept task"@))
        },
        (SendingView::AwaitMarked, SendingInput::Marked(_)) => sending_failed(
            after,
            action,
            FaultView::AcceptanceUnknown,
        ),
        (SendingView::AwaitAcknowledged, SendingInput::Acknowledged(done)) => if done {
            after is Done && action is Accepted
        } else {
            sending_failed(after, action, FaultView::AcceptanceUnknown)
        },
        _ => false,
    }
}

/// Where a delivery to a peer is.
enum SendingStage {
    AwaitReserved,
    AwaitSent { exchange_id: String, revision: i64 },
    AwaitMarked,
    AwaitAcknowledged,
    Done,
}

/// A delivery to a peer on its way.
pub struct Sending {
    task_id: String,
    context_id: String,
    text: String,
    stage: SendingStage,
}

impl Sending {
    /// What is sent.
    pub closed spec fn sent(&self) -> SendView {
        SendView {
            request_id: self.task_id@,
            context_id: self.context_id@,
            text: self.text@,
        }
    }

    /// Where the delivery is.
    pub closed spec fn stage(&self) -> SendingView {
        match self.stage {
            SendingStage::AwaitReserved => SendingView::AwaitReserved,
            SendingStage::AwaitSent { exchange_id, revision } => SendingView::AwaitSent {
                exchange_id: exchange_id@,
                revision,
            },
            SendingStage::AwaitMarked => SendingView::AwaitMarked,
            SendingStage::AwaitAcknowledged => SendingView::AwaitAcknowledged,
            SendingStage::Done => SendingView::Done,
        }
    }

    /// Begin a delivery: its exchange is to be reserved under the task's own id.
    pub fn begin(task_id: String, context_id: String, text: String) -> (run: Sending)
        ensures
            run.sent() == (SendView {
                request_id: task_id@,
                context_id: context_id@,
                text: text@,
            }),
            run.stage() is AwaitReserved,
    {
        Sending { task_id, context_id, text, stage: SendingStage::AwaitReserved }
    }

    /// Whether `input` answers what the delivery waits for.
    pub fn expects(&self, input: &SendingInput) -> (yes: bool)
        ensures
            yes == sending_expects(self.stage(), *input),
    {
        match (&self.stage, input) {
            (SendingStage::AwaitReserved, SendingInput::Reserved(_)) => true,
            (SendingStage::AwaitSent { exchange_id: _, revision: _ }, SendingInput::Sent(_)) => true,
            (SendingStage::AwaitMarked, SendingInput::Marked(_)) => true,
            (SendingStage::AwaitAcknowledged, SendingInput::Acknowledged(_)) => true,
            _ => false,
        }
    }

    /// The parameters the task is sent with.
    fn params(&self) -> (params: SendParams)
        ensures
            sends(params, self.sent()),
    {
        let mut parts: Vec<Part> = Vec::new();
        parts.push(Part::Text { text: self.text.clone() });
        SendParams {
            protocol_version: PROTOCOL_VERSION.to_owned(),
            request_id: self.task_id.clone(),
            context_id: self.context_id.clone(),
            message: Message { message_id: self.task_id.clone(), role: Role::User, parts },
        }
    }

    /// The exchange was reserved, or found.
    fn reserved(&mut self, reservation: Result<InboundReservation, A2aError>) -> (action:
        SendingAction)
        requires
            old(self).stage() is Done,
        ensures
            final(self).sent() == old(self).sent(),
            sending_next(
                old(self).sent(),
                SendingView::AwaitReserved,
                SendingInput::Reserved(reservation),
                final(self).stage(),
                action,
            ),
    {
        match reservation {
            Err(error) => {
                let reason = error.to_string();
                SendingAction::Failed(not_accepted(reason.as_str()))
            },
            Ok(InboundReservation::Replay(row)) => if row.external_task_id.is_some() {
                SendingAction::Accepted
            } else {
                SendingAction::Failed(DispatchError::AcceptanceUnknown)
            },
            Ok(InboundReservation::New(row)) => {
                self.stage = SendingStage::AwaitSent {
                    exchange_id: row.exchange_id,
                    revision: row.revision,
                };
                SendingAction::Send(self.params())
            },
        }
    }

    /// The peer answered, or did not.
    fn answered(
        &mut self,
        exchange_id: String,
        revision: i64,
        answer: Result<TaskSnapshot, A2aError>,
    ) -> (action: SendingAction)
        requires
            old(self).stage() is Done,
        ensures
            final(self).sent() == old(self).sent(),
            sending_next(
                old(self).sent(),
                SendingView::AwaitSent { exchange_id: exchange_id@, revision },
                SendingInput::Sent(answer),
                final(self).stage(),
                action,
            ),
    {
        match answer {
            Err(A2aError::Unauthorized) => {
                SendingAction::Failed(not_accepted("A2A authentication failed"))
            },
            Err(_) => {
                self.stage = SendingStage::AwaitMarked;
                SendingAction::MarkUnknown { exchange_id, revision }
            },
            Ok(snapshot) => match snapshot.status {
                TaskState::Working => {
                    self.stage = SendingStage::AwaitAcknowledged;
                    SendingAction::Acknowledge {
                        exchange_id,
                        remote_task_id: snapshot.id,
                        state: "working",
                    }
                },
                TaskState::Submitted => {
                    self.stage = SendingStage::AwaitAcknowledged;
                    SendingAction::Acknowledge {
                        exchange_id,
                        remote_task_id: snapshot.id,
                        state: "submitted",
                    }
                },
                _ => SendingAction::Failed(not_accepted("remote did not accept task")),
            },
        }
    }

    /// Go on with what came of the last action.
    pub fn step(&mut self, input: SendingInput) -> (action: SendingAction)
        requires
            sending_expects(old(self).stage(), input),
        ensures
            final(self).sent() == old(self).sent(),
            sending_next(
                old(self).sent(),
                old(self).stage(),
                input,
                final(self).stage(),
                action,
            ),
    {
        let mut stage = SendingStage::Done;
        std::mem::swap(&mut stage, &mut self.stage);
        match (stage, input) {
            (SendingStage::AwaitReserved, SendingInput::Reserved(reservation)) => {
                self.reserved(reservation)
            },
            (SendingStage::AwaitSent { exchange_id, revision }, SendingInput::Sent(answer)) => {
                self.answered(exchange_id, revision, answer)
            },
            (SendingStage::AwaitMarked, SendingInput::Marked(_)) => {
                SendingAction::Failed(DispatchError::AcceptanceUnknown)
            },
            (SendingStage::AwaitAcknowledged, SendingInput::Acknowledged(done)) => {
                if done {
                    SendingAction::Accepted
                } else {
                    SendingAction::Failed(DispatchError::AcceptanceUnknown)
                }
            },
            _ => {
                assert(false);
                SendingAction::Failed(DispatchError::AcceptanceUnknown)
            },
        }
    }
}

/// A task whose exchange was there already is never sent again: it is accepted
/// where the peer's task is known, and its acceptance is unknown otherwise.
pub proof fn law_a_task_is_sent_at_most_once(
    sent: SendView,
    row: ExchangeRecord,
    after: SendingView,
    action: SendingAction,
)
    requires
        sending_next(
            sent,
            SendingView::AwaitReserved,
            SendingInput::Reserved(Ok(InboundReservation::Replay(row))),
            after,
            action,
        ),
    ensures
        !(action is Send),
        after is Done,
        action is Accepted <==> row.external_task_id is Some,
{
}

/// A lost answer is never taken for a refusal: unless the peer refused the
/// credential, the delivery ends with its acceptance unknown, whether or not that
/// could be written down.
pub proof fn law_a_lost_answer_leaves_acceptance_unknown(
    sent: SendView,
    exchange_id: Seq<char>,
    revision: i64,
    error: A2aError,
    waiting: SendingView,
    marking: SendingAction,
    written: bool,
    after: SendingView,
    action: SendingAction,
)
    requires
        !(error is Unauthorized),
        sending_next(
            sent,
            SendingView::AwaitSent { exchange_id, revision },
            SendingInput::Sent(Err(error)),
            waiting,
            marking,
        ),
        sending_next(sent, waiting, SendingInput::Marked(written), after, action),
    ensures
        marking is MarkUnknown,
        after is Done,
        action matches SendingAction::Failed(fault) && fault_of(fault)
            == FaultView::AcceptanceUnknown,
{
}

/// The texts of the text parts of `parts`, in order.
pub open spec fn texts_of(parts: Seq<Part>) -> Seq<Seq<char>>
    decreases parts.len(),
{
    if parts.len() == 0 {
        Seq::empty()
    } else {
        match parts.last() {
            Part::Text { text } => texts_of(parts.drop_last()).push(text@),
            _ => texts_of(parts.drop_last()),
        }
    }
}

/// The texts of the text parts of all artifacts, in order.
pub open spec fn artifact_texts(artifacts: Seq<Artifact>) -> Seq<Seq<char>>
    decreases artifacts.len(),
{
    if artifacts.len() == 0 {
        Seq::empty()
    } else {
        artifact_texts(artifacts.drop_last()) + texts_of(artifacts.last().parts@)
    }
}

/// Append the texts of the text parts.
pub(crate) fn push_texts(texts: &mut Vec<String>, parts: &Vec<Part>)
    ensures
        views(final(texts)@) == views(old(texts)@) + texts_of(parts@),
{
    let mut i: usize = 0;
    assert(views(texts@) =~= views(old(texts)@) + texts_of(parts@.take(0)));
    while i < parts.len()
        invariant
            i <= parts@.len(),
            views(texts@) == views(old(texts)@) + texts_of(parts@.take(i as int)),
        decreases parts@.len() - i,
    {
        let ghost held = texts@;
        assert(parts@.take(i + 1).drop_last() =~= parts@.take(i as int));
        assert(parts@.take(i + 1).last() == parts@[i as int]);
        match &parts[i] {
            Part::Text { text } => {
                texts.push(text.clone());
                assert(views(texts@) =~= views(held).push(text@));
                assert(views(texts@) =~= views(old(texts)@) + texts_of(parts@.take(i + 1)));
            },
            _ => {},
        }
        i = i + 1;
    }
    assert(parts@.take(i as int) =~= parts@);
}

/// The output of a task: the texts of its artifacts, one per line.
pub fn render_artifacts(artifacts: &Vec<Artifact>) -> (output: String)
    ensures
        output@ == joined(artifact_texts(artifacts@), "\n"@),
{
    let mut texts: Vec<String> = Vec::new();
    let mut i: usize = 0;
    assert(views(texts@) =~= artifact_texts(artifacts@.take(0)));
    while i < artifacts.len()
        invariant
            i <= artifacts@.len(),
            views(texts@) == artifact_texts(artifacts@.take(i as int)),
        decreases artifacts@.len() - i,
    {
        assert(artifacts@.take(i + 1).drop_last() =~= artifacts@.take(i as int));
        push_texts(&mut texts, &artifacts[i].parts);
        i = i + 1;
    }
    assert(artifacts@.take(i as int) =~= artifacts@);
    join(&texts, "\n")
}

/// Where `key` is among `keys`.
pub(crate) fn position_of(keys: &Vec<String>, key: &str) -> (at: Option<usize>)
    ensures
        match at {
            Some(at) => at < keys@.len() && keys@[at as int]@ == key@,
            None => forall|i: int| 0 <= i < keys@.len() ==> (#[trigger] keys@[i])@ != key@,
        },
{
    let mut i: usize = 0;
    while i < keys.len()
        invariant
            i <= keys@.len(),
            forall|k: int| 0 <= k < i ==> (#[trigger] keys@[k])@ != key@,
        decreases keys@.len() - i,
    {
        if same_text(keys[i].as_str(), key) {
            return Some(i);
        }
        i = i + 1;
    }
    None
}

/// Which of the configured peers a task goes to.
pub fn route_peer(address: Option<&EndpointAddress>, peers: &Vec<String>) -> (peer: Result<
    usize,
    DispatchError,
>)
    ensures
        match peer {
            Ok(at) => at < peers@.len() && (address matches Some(EndpointAddress::A2a {
                peer: key,
            }) && peers@[at as int]@ == key@),
            Err(error) => match address {
                Some(EndpointAddress::A2a { peer: key }) => fault_of(error)
                    == FaultView::NotAccepted("A2A peer unavailable"@) && forall|i: int|
                    0 <= i < peers@.len() ==> (#[trigger] peers@[i])@ != key@,
                _ => fault_of(error) == FaultView::NotAccepted("A2A endpoint address missing"@),
            },
        },
{
    match address {
        Some(EndpointAddress::A2a { peer: key }) => {
            match position_of(peers, key.as_str()) {
                Some(at) => Ok(at),
                None => Err(not_accepted("A2A peer unavailable")),
            }
        },
        _ => Err(not_accepted("A2A endpoint address missing")),
    }
}

/// One step of a delivery to a peer: what came of the last action, and what to do next.
pub ghost struct SendingStep {
    pub stage: SendingView,
    pub input: SendingInput,
    pub after: SendingView,
    pub action: SendingAction,
}

/// Whether `steps` are those of a delivery, from the moment its exchange was asked for.
pub open spec fn delivers(sent: SendView, steps: Seq<SendingStep>) -> bool {
    &&& steps.len() > 0
    &&& steps[0].stage == SendingView::AwaitReserved
    &&& forall|i: int|
        0 <= i < steps.len() ==> {
            let step = #[trigger] steps[i];
            sending_next(sent, step.stage, step.input, step.after, step.action)
        }
    &&& forall|i: int| 0 < i < steps.len() ==> (#[trigger] steps[i]).stage == steps[i - 1].after
}

/// What a delivery on its way has behind it.
proof fn lemma_sending_so_far(sent: SendView, steps: Seq<SendingStep>, i: int)
    requires
        delivers(sent, steps),
        0 <= i < steps.len(),
    ensures
        match steps[i].stage {
            SendingView::AwaitReserved => i == 0,
            SendingView::AwaitSent { exchange_id, revision } => i == 1 && (steps[0].input matches
                SendingInput::Reserved(Ok(InboundReservation::New(row))) && row.exchange_id@
                == exchange_id && row.revision == revision),
            SendingView::AwaitMarked => i == 2 && (steps[1].input matches SendingInput::Sent(Err(
                error,
            )) && !(error is Unauthorized)),
            SendingView::AwaitAcknowledged => i == 2 && (steps[1].input matches SendingInput::Sent(
                Ok(snapshot),
            ) && (snapshot.status is Submitted || snapshot.status is Working)),
            SendingView::Done => false,
        },
    decreases i,
{
    let step = steps[i];
    assert(sending_next(sent, step.stage, step.input, step.after, step.action));
    if i > 0 {
        lemma_sending_so_far(sent, steps, i - 1);
        let previous = steps[i - 1];
        assert(sending_next(
            sent,
            previous.stage,
            previous.input,
            previous.after,
            previous.action,
        ));
        assert(step.stage == previous.after);
    }
}

/// How a task is delivered to a peer, input by input. It is sent once, where its exchange
/// is new, and whole; the peer's own task is bound to that exchange where the peer took
/// it, and only then does the task count as accepted. A refusal is told as one, and
/// whatever leaves open whether the peer has the task is told as such, after it was
/// written down under the exchange.
pub proof fn law_a_task_reaches_its_peer_step_by_step(
    sent: SendView,
    steps: Seq<SendingStep>,
    i: int,
)
    requires
        delivers(sent, steps),
        0 <= i < steps.len(),
    ensures
        match steps[i].input {
            SendingInput::Reserved(Err(error)) => steps[i].action matches SendingAction::Failed(
                DispatchError::NotAccepted { reason },
            ) && reason@ == error@.rendered(),
            SendingInput::Reserved(Ok(InboundReservation::Replay(row))) => match
            row.external_task_id {
                Some(_) => steps[i].action is Accepted,
                None => steps[i].action == SendingAction::Failed(DispatchError::AcceptanceUnknown),
            },
            SendingInput::Reserved(Ok(InboundReservation::New(_))) => steps[i].action matches
                SendingAction::Send(params) && {
                &&& params.protocol_version@ == PROTOCOL_VERSION@
                &&& params.request_id@ == sent.request_id
                &&& params.context_id@ == sent.context_id
                &&& params.message.message_id@ == sent.request_id
                &&& params.message.role is User
                &&& params.message.parts@.len() == 1
                &&& params.message.parts@[0] matches Part::Text { text } && text@ == sent.text
            },
            SendingInput::Sent(Err(A2aError::Unauthorized)) => steps[i].action matches
                SendingAction::Failed(DispatchError::NotAccepted { reason }) && reason@
                == "A2A authentication failed"@,
            SendingInput::Sent(Err(_)) => i == 1 && (steps[0].input matches SendingInput::Reserved(
                Ok(InboundReservation::New(row)),
            ) && (steps[1].action matches SendingAction::MarkUnknown { exchange_id, revision }
                && exchange_id@ == row.exchange_id@ && revision == row.revision)),
            SendingInput::Sent(Ok(snapshot)) => match snapshot.status {
                TaskState::Submitted => i == 1 && (steps[0].input matches SendingInput::Reserved(
                    Ok(InboundReservation::New(row)),
                ) && (steps[1].action matches SendingAction::Acknowledge {
                    exchange_id,
                    remote_task_id,
                    state,
                } && exchange_id@ == row.exchange_id@ && remote_task_id@ == snapshot.id@ && state@
                    == "submitted"@)),
                TaskState::Working => i == 1 && (steps[0].input matches SendingInput::Reserved(
                    Ok(InboundReservation::New(row)),
                ) && (steps[1].action matches SendingAction::Acknowledge {
                    exchange_id,
                    remote_task_id,
                    state,
                } && exchange_id@ == row.exchange_id@ && remote_task_id@ == snapshot.id@ && state@
                    == "working"@)),
                _ => steps[i].action matches SendingAction::Failed(DispatchError::NotAccepted {
                    reason,
                }) && reason@ == "remote did not accept task"@,
            },
            SendingInput::Marked(_) => steps[i].action == SendingAction::Failed(
                DispatchError::AcceptanceUnknown,
            ),
            SendingInput::Acknowledged(true) => steps[i].action is Accepted,
            SendingInput::Acknowledged(false) => steps[i].action == SendingAction::Failed(
                DispatchError::AcceptanceUnknown,
            ),
        },
{
    let step = steps[i];
    assert(sending_next(sent, step.stage, step.input, step.after, step.action));
    lemma_sending_so_far(sent, steps, i);
}

/// A delivery waits for what answers its last action, and for nothing once it is over.
pub proof fn law_a_sending_waits_for_what_it_asked(
    sent: SendView,
    steps: Seq<SendingStep>,
    i: int,
    next: SendingInput,
)
    requires
        delivers(sent, steps),
        0 <= i < steps.len(),
    ensures
        sending_expects(steps[0].stage, next) <==> next is Reserved,
        sending_expects(steps[i].after, next) <==> (match steps[i].action {
            SendingAction::Send(_) => next is Sent,
            SendingAction::MarkUnknown { .. } => next is Marked,
            SendingAction::Acknowledge { .. } => next is Acknowledged,
            SendingAction::Accepted => false,
            SendingAction::Failed(_) => false,
        }),
{
    let step = steps[i];
    assert(sending_next(sent, step.stage, step.input, step.after, step.action));
}

/// The output of a task has the texts of its artifacts, artifact by artifact and part by
/// part: what comes of several artifacts is what comes of the first and of the others, and
/// only text parts count.
pub proof fn law_artifact_texts_are_kept_in_order(
    some: Seq<Artifact>,
    more: Seq<Artifact>,
    parts: Seq<Part>,
    part: Part,
)
    ensures
        artifact_texts(some + more) == artifact_texts(some) + artifact_texts(more),
        artifact_texts(Seq::empty()) == Seq::<Seq<char>>::empty(),
        some.len() == 1 ==> artifact_texts(some) == texts_of(some[0].parts@),
        texts_of(Seq::empty()) == Seq::<Seq<char>>::empty(),
        texts_of(parts.push(part)) == (match part {
            Part::Text { text } => texts_of(parts).push(text@),
            _ => texts_of(parts),
        }),
    decreases more.len(),
{
    assert(parts.push(part).drop_last() =~= parts);
    if some.len() == 1 {
        reveal_with_fuel(artifact_texts, 2);
        assert(some.drop_last() =~= Seq::<Artifact>::empty());
        assert(artifact_texts(some) =~= texts_of(some[0].parts@));
    }
    if more.len() == 0 {
        assert(some + more =~= some);
        assert(artifact_texts(some) + artifact_texts(more) =~= artifact_texts(some));
    } else {
        law_artifact_texts_are_kept_in_order(some, more.drop_last(), parts, part);
        assert((some + more).drop_last() =~= some + more.drop_last());
        assert(artifact_texts(some + more) =~= artifact_texts(some) + artifact_texts(more));
    }
}

} // verus!
