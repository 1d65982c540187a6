//! How one request of a peer is served, from its parameters to its answer.

use vstd::prelude::*;
use vstd::string::*;

use crate::a2a::content::content_hash;
use crate::a2a::content::hash_of;
use crate::a2a::content::MAX_CONTENT_BYTES;
use crate::a2a::content::MAX_PARTS;
use crate::a2a::error::A2aError;
use crate::a2a::error::A2aErrorView;
use crate::a2a::identity::derive_peer_endpoint_id;
use crate::a2a::identity::peer_bits;
use crate::a2a::ingress::bound_task;
use crate::a2a::ingress::message_text;
use crate::a2a::ingress::parse_task;
use crate::a2a::ingress::require_version;
use crate::a2a::ingress::send_fault;
use crate::a2a::ingress::text_parts;
use crate::a2a::mapping::project;
use crate::a2a::mapping::projected;
use crate::a2a::store::ExchangeRecord;
use crate::a2a::store::InboundReservation;
use crate::a2a::wire::Artifact;
use crate::a2a::wire::Message;
use crate::a2a::wire::SendParams;
use crate::a2a::wire::TaskQuery;
use crate::a2a::wire::TaskSnapshot;
use crate::a2a::wire::TaskState;
use crate::a2a::wire::PROTOCOL_VERSION;
use crate::acp::result::optional;
use crate::bus::admission::AdmissionContext;
use crate::ids::fresh_uuid;
use crate::ids::is_fresh_text;
use crate::ids::is_version_7;
use crate::ids::parsed_uuid;
use crate::ids::uuid_text;
use crate::ids::ConversationId;
use crate::ids::EndpointId;
use crate::ids::TaskId;
use crate::json::Json;
use crate::json::JsonView;
use crate::models::AgentEndpoint;
use crate::models::AgentTask;
use crate::models::EndpointAddress;
use crate::models::Priority;
use crate::models::TaskStatus;
use crate::models::TransportType;
use crate::text::concat2;
use crate::text::concat3;

verus! {

/// Why a task was cancelled by a peer.
pub const REMOTE_CANCEL_REASON: &'static str = "remote_a2a_cancel";

/// What a request of a peer is about.
pub ghost struct ServingContext {
    pub peer: Seq<char>,
    pub context_id: Seq<char>,
    pub request_id: Seq<char>,
    pub message_id: Seq<char>,
    pub text: Result<Seq<char>, A2aErrorView>,
    pub target: Option<EndpointId>,
    pub cancels: bool,
}

/// The exchange of a message, and its content.
pub ghost struct Held {
    pub exchange_id: Seq<char>,
    pub bytes: i64,
}

/// Where a request is.
pub ghost enum ServingStage {
    AwaitReserved(Message),
    AwaitStored { exchange_id: Seq<char> },
    AwaitPeer(Held),
    AwaitConversation(Held),
    AwaitInserted(Held, ConversationId),
    AwaitRace(Held),
    AwaitSubmitted(Held, TaskId),
    AwaitBound { external: Seq<char> },
    AwaitFound,
    AwaitEvent { external: Option<Seq<char>>, cleaned: bool },
    Done,
}

/// What came of an action.
pub enum ServingInput {
    /// The exchange was reserved, or found.
    Reserved(Result<InboundReservation, A2aError>),
    /// The message was stored, with this much content.
    Stored(Result<i64, A2aError>),
    /// Whether the peer is known as an agent now.
    PeerStored(bool),
    /// The conversation of the peer's context; nothing where it could not be read.
    Conversation(Option<Option<ConversationId>>),
    /// Whether the conversation was inserted.
    Inserted(bool),
    /// Whether the task was admitted.
    Submitted(bool),
    /// Whether the task was bound to its exchange.
    Bound(Result<bool, A2aError>),
    /// The exchange of a task that was asked for.
    Found(Result<Option<ExchangeRecord>, A2aError>),
    /// The status of a task's latest event; nothing where it could not be read.
    Event(Option<Option<TaskStatus>>),
}

/// What to do next for a request.
pub enum ServingAction {
    /// Reserve the exchange of a message.
    Reserve { request_id: String, hash: String, context_id: String },
    /// Store the message.
    Store { exchange_id: String, message: Message },
    /// Make the peer known as an agent.
    StorePeer { agent_id: String, endpoint: AgentEndpoint },
    /// Look for the conversation of the peer's context.
    FindConversation { external_id: String },
    /// Insert the conversation of the peer's context.
    InsertConversation {
        conversation: ConversationId,
        external_id: String,
        from: EndpointId,
        to: EndpointId,
    },
    /// Admit the task.
    Submit { task: AgentTask, context: AdmissionContext },
    /// Bind the task to its exchange.
    Bind { exchange_id: String, task_id: TaskId, external_task_id: String, content_bytes: i64 },
    /// Look for the exchange of a task.
    FindTask { external_task_id: String },
    /// Read the latest event of a task, after cancelling it where that is asked.
    ReadEvent { task_id: TaskId, cancel: bool },
    /// The answer.
    Answer(TaskSnapshot),
    /// The failure.
    Failed(A2aError),
}

/// The request ends with a failure.
pub open spec fn serving_failed(
    after: ServingStage,
    action: ServingAction,
    fault: A2aErrorView,
) -> bool {
    after is Done && (action matches ServingAction::Failed(error) && error@ == fault)
}

/// The name of a context of a peer.
pub open spec fn external_name(context: ServingContext) -> Seq<char> {
    context.peer + "/"@ + context.context_id
}

/// Whether `endpoint` is the peer as an agent.
pub open spec fn is_peer_endpoint(endpoint: AgentEndpoint, peer: Seq<char>) -> bool {
    &&& endpoint.id.bits() == peer_bits(peer)
    &&& endpoint.transport is A2a
    &&& endpoint.address matches EndpointAddress::A2a { peer: key } && key@ == peer
    &&& endpoint.enabled
    &&& endpoint.capabilities@.len() == 0
}

/// Whether `task` and `admission` are what a message of a peer asks for.
pub open spec fn admits(
    context: ServingContext,
    conversation: ConversationId,
    task: AgentTask,
    admission: AdmissionContext,
) -> bool {
    &&& is_version_7(task.task_id.bits())
    &&& task.root_task_id == task.task_id
    &&& task.parent_task_id is None
    &&& task.from_agent.bits() == peer_bits(context.peer)
    &&& context.target == Some(task.to_agent)
    &&& task.conversation_id == conversation
    &&& task.reply_to is None
    &&& context.text == Ok::<Seq<char>, A2aErrorView>(task.text@)
    &&& task.priority.rank() == 5
    &&& task.depth == 0
    &&& task.hops == 0
    &&& task.deadline is None
    &&& task.version == 0
    &&& admission.transport@ == "a2a"@
    &&& admission.external_event_id@ == context.request_id
    &&& admission.room_id@ == context.context_id
    &&& admission.thread_root is None
    &&& admission.reply_event_id@ == context.message_id
    &&& admission.monitor_room is None
    &&& admission.monitor_generation == 0
}

/// The conversation is known: the task is admitted, or its text cannot be served.
pub open spec fn submit_next(
    context: ServingContext,
    held: Held,
    conversation: ConversationId,
    after: ServingStage,
    action: ServingAction,
) -> bool {
    match context.text {
        Err(fault) => serving_failed(after, action, fault),
        Ok(_) => action matches ServingAction::Submit { task, context: admission } && admits(
            context,
            conversation,
            task,
            admission,
        ) && after == ServingStage::AwaitSubmitted(held, task.task_id),
    }
}

/// The exchange is known: its task is read, or it needs recovery.
pub open spec fn read_next(
    row: ExchangeRecord,
    cancels: bool,
    after: ServingStage,
    action: ServingAction,
) -> bool {
    match bound_task(row) {
        None => serving_failed(after, action, A2aErrorView::RecoveryNeeded),
        Some(bits) => {
            &&& after == (ServingStage::AwaitEvent {
                external: optional(row.external_task_id),
                cleaned: row.content_cleaned,
            })
            &&& action matches ServingAction::ReadEvent { task_id, cancel } && task_id.bits()
                == bits && cancel == cancels
        },
    }
}

/// Whether `snapshot` is the answer about a task known to its peer as `external`.
pub open spec fn snapshot_of(
    snapshot: TaskSnapshot,
    external: Seq<char>,
    context_id: Seq<char>,
    state: TaskState,
    cleaned: bool,
) -> bool {
    &&& snapshot.id@ == external
    &&& snapshot.context_id@ == context_id
    &&& snapshot.status == state
    &&& snapshot.artifacts@.len() == 0
    &&& match snapshot.metadata {
        Some(metadata) => cleaned && metadata@ == JsonView::Object(
            Map::empty().insert("contentExpired"@, JsonView::Bool(true)),
        ),
        None => !cleaned,
    }
}

/// Whether `input` answers what a request in `stage` waits for.
pub open spec fn serving_expects(stage: ServingStage, input: ServingInput) -> bool {
    match stage {
        ServingStage::AwaitReserved(_) => input is Reserved,
        ServingStage::AwaitStored { exchange_id: _ } => input is Stored,
        ServingStage::AwaitPeer(_) => input is PeerStored,
        ServingStage::AwaitConversation(_) => input is Conversation,
        ServingStage::AwaitInserted(_, _) => input is Inserted,
        ServingStage::AwaitRace(_) => input is Conversation,
        ServingStage::AwaitSubmitted(_, _) => input is Submitted,
        ServingStage::AwaitBound { external: _ } => input is Bound,
        ServingStage::AwaitFound => input is Found,
        ServingStage::AwaitEvent { external: _, cleaned: _ } => input is Event,
        ServingStage::Done => false,
    }
}

/// How a request goes on.
pub open spec fn serving_next(
    context: ServingContext,
    stage: ServingStage,
    input: ServingInput,
    after: ServingStage,
    action: ServingAction,
) -> bool {
    match (stage, input) {
        (ServingStage::AwaitReserved(message), ServingInput::Reserved(reservation)) => match
        reservation {
            Err(error) => serving_failed(after, action, error@),
            Ok(InboundReservation::Replay(row)) => read_next(row, false, after, action),
            Ok(InboundReservation::New(row)) => {
                &&& after == (ServingStage::AwaitStored { exchange_id: row.exchange_id@ })
                &&& action matches ServingAction::Store { exchange_id, message: own }
                    && exchange_id@ == row.exchange_id@ && own == message
            },
        },
        (ServingStage::AwaitStored { exchange_id }, ServingInput::Stored(stored)) => match stored {
            Err(error) => serving_failed(after, action, error@),
            Ok(bytes) => match context.target {
                None => serving_failed(after, action, A2aErrorView::Protocol("unknown endpoint"@)),
                Some(_) => {
                    &&& after == ServingStage::AwaitPeer(Held { exchange_id, bytes })
                    &&& action matches ServingAction::StorePeer { agent_id, endpoint }
                        && agent_id@ == "a2a-peer-"@ + context.peer && is_peer_endpoint(
                        endpoint,
                        context.peer,
                    )
                },
            },
        },
        (ServingStage::AwaitPeer(held), ServingInput::PeerStored(done)) => if done {
            &&& after == ServingStage::AwaitConversation(held)
            &&& action matches ServingAction::FindConversation { external_id } && external_id@
                == external_name(context)
        } else {
            serving_failed(after, action, A2aErrorView::Protocol("peer persistence failed"@))
        },
        (ServingStage::AwaitConversation(held), ServingInput::Conversation(found)) => match found {
            None => serving_failed(
                after,
                action,
                A2aErrorView::Protocol("conversation lookup failed"@),
            ),
            Some(Some(conversation)) => submit_next(context, held, conversation, after, action),
            Some(None) => {
                &&& action matches ServingAction::InsertConversation {
                    conversation,
                    external_id,
                    from,
                    to,
                } && is_version_7(conversation.bits()) && external_id@ == external_name(context)
                    && from.bits() == peer_bits(context.peer) && context.target == Some(to)
                    && after == ServingStage::AwaitInserted(held, conversation)
            },
        },
        (ServingStage::AwaitInserted(held, conversation), ServingInput::Inserted(done)) => if done {
            submit_next(context, held, conversation, after, action)
        } else {
            &&& after == ServingStage::AwaitRace(held)
            &&& action matches ServingAction::FindConversation { external_id } && external_id@
                == external_name(context)
        },
        (ServingStage::AwaitRace(held), ServingInput::Conversation(found)) => match found {
            Some(Some(conversation)) => submit_next(context, held, conversation, after, action),
            _ => serving_failed(
                after,
                action,
                A2aErrorView::Protocol("conversation race failed"@),
            ),
        },
        (ServingStage::AwaitSubmitted(held, task), ServingInput::Submitted(done)) => if done {
            action matches ServingAction::Bind {
                exchange_id,
                task_id,
                external_task_id,
                content_bytes,
            } && exchange_id@ == held.exchange_id && task_id == task && is_fresh_text(
                external_task_id@,
            ) && content_bytes == held.bytes && after == (ServingStage::AwaitBound { external: external_task_id@ })
        } else {
            serving_failed(after, action, A2aErrorView::Protocol("task admission failed"@))
        },
        (ServingStage::AwaitBound { external }, ServingInput::Bound(bound)) => match bound {
            Err(error) => serving_failed(after, action, error@),
            Ok(false) => serving_failed(after, action, A2aErrorView::RecoveryNeeded),
            Ok(true) => after is Done && (action matches ServingAction::Answer(snapshot)
                && snapshot_of(
                snapshot,
                external,
                context.context_id,
                TaskState::Submitted,
                false,
            )),
        },
        (ServingStage::AwaitFound, ServingInput::Found(found)) => match found {
            Err(error) => serving_failed(after, action, error@),
            Ok(None) => serving_failed(after, action, A2aErrorView::Protocol("unknown task"@)),
            Ok(Some(row)) => read_next(row, context.cancels, after, action),
        },
        (ServingStage::AwaitEvent { external, cleaned }, ServingInput::Event(read)) => match read {
            None => serving_failed(after, action, A2aErrorView::Protocol("task lookup failed"@)),
            Some(status) => match external {
                None => serving_failed(after, action, A2aErrorView::RecoveryNeeded),
                Some(external) => after is Done && (action matches ServingAction::Answer(snapshot)
                    && snapshot_of(
                    snapshot,
                    external,
                    ""@,
                    match status {
                        Some(status) => projected(status),
                        None => TaskState::Submitted,
                    },
                    cleaned,
                )),
            },
        },
        _ => false,
    }
}

/// Where a request is.
enum Stage {
    AwaitReserved(Message),
    AwaitStored { exchange_id: String },
    AwaitPeer { exchange_id: String, bytes: i64 },
    AwaitConversation { exchange_id: String, bytes: i64 },
    AwaitInserted { exchange_id: String, bytes: i64, conversation: ConversationId },
    AwaitRace { exchange_id: String, bytes: i64 },
    AwaitSubmitted { exchange_id: String, bytes: i64, task_id: TaskId },
    AwaitBound { external: String },
    AwaitFound,
    AwaitEvent { external: Option<String>, cleaned: bool },
    Done,
}

impl View for Stage {
    type V = ServingStage;

    closed spec fn view(&self) -> ServingStage {
        match self {
            Stage::AwaitReserved(message) => ServingStage::AwaitReserved(*message),
            Stage::AwaitStored { exchange_id } => ServingStage::AwaitStored {
                exchange_id: exchange_id@,
            },
            Stage::AwaitPeer { exchange_id, bytes } => ServingStage::AwaitPeer(
                Held { exchange_id: exchange_id@, bytes: *bytes },
            ),
            Stage::AwaitConversation { exchange_id, bytes } => ServingStage::AwaitConversation(
                Held { exchange_id: exchange_id@, bytes: *bytes },
            ),
            Stage::AwaitInserted { exchange_id, bytes, conversation } =>
                ServingStage::AwaitInserted(
                Held { exchange_id: exchange_id@, bytes: *bytes },
                *conversation,
            ),
            Stage::AwaitRace { exchange_id, bytes } => ServingStage::AwaitRace(
                Held { exchange_id: exchange_id@, bytes: *bytes },
            ),
            Stage::AwaitSubmitted { exchange_id, bytes, task_id } => ServingStage::AwaitSubmitted(
                Held { exchange_id: exchange_id@, bytes: *bytes },
                *task_id,
            ),
            Stage::AwaitBound { external } => ServingStage::AwaitBound { external: external@ },
            Stage::AwaitFound => ServingStage::AwaitFound,
            Stage::AwaitEvent { external, cleaned } => ServingStage::AwaitEvent {
                external: optional(*external),
                cleaned: *cleaned,
            },
            Stage::Done => ServingStage::Done,
        }
    }
}

/// One request of a peer on its way.
pub struct A2aIngress {
    peer: String,
    context_id: String,
    request_id: String,
    message_id: String,
    text: Result<String, A2aError>,
    target: Option<EndpointId>,
    cancels: bool,
    stage: Stage,
}

/// A failure of a request.
fn failed(error: A2aError) -> (action: ServingAction)
    ensures
        serving_failed(ServingStage::Done, action, error@),
{
    ServingAction::Failed(error)
}

impl A2aIngress {
    /// What the request is about.
    pub closed spec fn context(&self) -> ServingContext {
        ServingContext {
            peer: self.peer@,
            context_id: self.context_id@,
            request_id: self.request_id@,
            message_id: self.message_id@,
            text: match self.text {
                Ok(text) => Ok(text@),
                Err(error) => Err(error@),
            },
            target: self.target,
            cancels: self.cancels,
        }
    }

    /// Where the request is.
    pub closed spec fn stage(&self) -> ServingStage {
        self.stage@
    }

    /// Begin taking a message of `peer` for `target`, which is none where the
    /// endpoint that was addressed is not exposed. `params` are none where they could
    /// not be read; `canonical` is their canonical encoding, by which the request is
    /// told apart from others.
    pub fn send(
        peer: &str,
        target: Option<EndpointId>,
        params: Option<SendParams>,
        canonical: &[u8],
    ) -> (run: Result<(A2aIngress, ServingAction), A2aError>)
        ensures
            match (params, run) {
                (None, Err(error)) => error@ == A2aErrorView::Protocol(
                    "invalid message/send params"@,
                ),
                (None, Ok(_)) => false,
                (Some(params), Err(error)) => send_fault(params, canonical@) == Some(error@),
                (Some(params), Ok((ingress, action))) => {
                    &&& send_fault(params, canonical@) is None
                    &&& ingress.context() == (ServingContext {
                        peer: peer@,
                        context_id: params.context_id@,
                        request_id: params.request_id@,
                        message_id: params.message.message_id@,
                        text: message_text(params.message.parts@),
                        target,
                        cancels: false,
                    })
                    &&& ingress.wf()
                    &&& ingress.stage() == ServingStage::AwaitReserved(params.message)
                    &&& action matches ServingAction::Reserve { request_id, hash, context_id }
                        && request_id@ == params.request_id@ && hash@ == content_hash(canonical@)
                        && context_id@ == params.context_id@
                },
            },
    {
        let params = match params {
            Some(params) => params,
            None => {
                return Err(A2aError::Protocol("invalid message/send params"));
            },
        };
        match require_version(params.protocol_version.as_str()) {
            Ok(()) => {},
            Err(error) => {
                return Err(error);
            },
        }
        if canonical.len() > MAX_CONTENT_BYTES || params.message.parts.len() > MAX_PARTS {
            return Err(A2aError::TooLarge);
        }
        let hash = hash_of(canonical);
        let text = text_parts(&params.message.parts);
        let action = ServingAction::Reserve {
            request_id: params.request_id.clone(),
            hash,
            context_id: params.context_id.clone(),
        };
        let ingress = A2aIngress {
            peer: peer.to_owned(),
            context_id: params.context_id,
            request_id: params.request_id,
            message_id: params.message.message_id.clone(),
            text,
            target,
            cancels: false,
            stage: Stage::AwaitReserved(params.message),
        };
        Ok((ingress, action))
    }

    /// Begin answering a query of `peer` about a task, after cancelling the task
    /// where that is asked. `query` is none where it could not be read.
    pub fn query(peer: &str, query: Option<TaskQuery>, cancel: bool) -> (run: Result<
        (A2aIngress, ServingAction),
        A2aError,
    >)
        ensures
            match (query, run) {
                (None, Err(error)) => error@ == A2aErrorView::Protocol("invalid task query"@),
                (None, Ok(_)) => false,
                (Some(query), Err(error)) => query.protocol_version@ != PROTOCOL_VERSION@ && error@
                    == A2aErrorView::Unsupported,
                (Some(query), Ok((ingress, action))) => {
                    &&& query.protocol_version@ == PROTOCOL_VERSION@
                    &&& ingress.context() == (ServingContext {
                        peer: peer@,
                        context_id: ""@,
                        request_id: ""@,
                        message_id: ""@,
                        text: Err(A2aErrorView::Unsupported),
                        target: None,
                        cancels: cancel,
                    })
                    &&& ingress.wf()
                    &&& ingress.stage() == ServingStage::AwaitFound
                    &&& action matches ServingAction::FindTask { external_task_id }
                        && external_task_id@ == query.task_id@
                },
            },
    {
        let query = match query {
            Some(query) => query,
            None => {
                return Err(A2aError::Protocol("invalid task query"));
            },
        };
        match require_version(query.protocol_version.as_str()) {
            Ok(()) => {},
            Err(error) => {
                return Err(error);
            },
        }
        let ingress = A2aIngress {
            peer: peer.to_owned(),
            context_id: "".to_owned(),
            request_id: "".to_owned(),
            message_id: "".to_owned(),
            text: Err(A2aError::Unsupported),
            target: None,
            cancels: cancel,
            stage: Stage::AwaitFound,
        };
        Ok((ingress, ServingAction::FindTask { external_task_id: query.task_id }))
    }

    /// Whether `input` answers what the request waits for.
    pub fn expects(&self, input: &ServingInput) -> (yes: bool)
        ensures
            yes == serving_expects(self.stage(), *input),
    {
        match (&self.stage, input) {
            (Stage::AwaitReserved(_), ServingInput::Reserved(_)) => true,
            (Stage::AwaitStored { .. }, ServingInput::Stored(_)) => true,
            (Stage::AwaitPeer { .. }, ServingInput::PeerStored(_)) => true,
            (Stage::AwaitConversation { .. }, ServingInput::Conversation(_)) => true,
            (Stage::AwaitInserted { .. }, ServingInput::Inserted(_)) => true,
            (Stage::AwaitRace { .. }, ServingInput::Conversation(_)) => true,
            (Stage::AwaitSubmitted { .. }, ServingInput::Submitted(_)) => true,
            (Stage::AwaitBound { .. }, ServingInput::Bound(_)) => true,
            (Stage::AwaitFound, ServingInput::Found(_)) => true,
            (Stage::AwaitEvent { .. }, ServingInput::Event(_)) => true,
            _ => false,
        }
    }

    /// The name of the peer's context.
    fn external_id(&self) -> (name: String)
        ensures
            name@ == external_name(self.context()),
    {
        concat3(self.peer.as_str(), "/", self.context_id.as_str())
    }

    /// The exchange is known: read its task.
    fn read(&mut self, row: ExchangeRecord, cancel: bool) -> (action: ServingAction)
        requires
            old(self).stage() is Done,
        ensures
            final(self).context() == old(self).context(),
            read_next(row, cancel, final(self).stage(), action),
    {
        match parse_task(&row) {
            Err(error) => failed(error),
            Ok(task_id) => {
                self.stage = Stage::AwaitEvent {
                    external: row.external_task_id,
                    cleaned: row.content_cleaned,
                };
                ServingAction::ReadEvent { task_id, cancel }
            },
        }
    }

    /// The exchange was reserved, or found.
    fn reserved(&mut self, message: Message, reservation: Result<InboundReservation, A2aError>) -> (
    action: ServingAction)
        requires
            old(self).stage() is Done,
        ensures
            final(self).context() == old(self).context(),
            serving_next(
                old(self).context(),
                ServingStage::AwaitReserved(message),
                ServingInput::Reserved(reservation),
                final(self).stage(),
                action,
            ),
    {
        match reservation {
            Err(error) => failed(error),
            Ok(InboundReservation::Replay(row)) => self.read(row, false),
            Ok(InboundReservation::New(row)) => {
                let exchange_id = row.exchange_id.clone();
                self.stage = Stage::AwaitStored { exchange_id: row.exchange_id };
                ServingAction::Store { exchange_id, message }
            },
        }
    }

    /// The message was stored, or could not be.
    fn stored(&mut self, exchange_id: String, stored: Result<i64, A2aError>) -> (action:
        ServingAction)
        requires
            old(self).stage() is Done,
        ensures
            final(self).context() == old(self).context(),
            serving_next(
                old(self).context(),
                ServingStage::AwaitStored { exchange_id: exchange_id@ },
                ServingInput::Stored(stored),
                final(self).stage(),
                action,
            ),
    {
        match stored {
            Err(error) => failed(error),
            Ok(bytes) => match self.target {
                None => failed(A2aError::Protocol("unknown endpoint")),
                Some(_) => {
                    let endpoint = AgentEndpoint {
                        id: derive_peer_endpoint_id(self.peer.as_str()),
                        transport: TransportType::A2a,
                        address: EndpointAddress::A2a { peer: self.peer.clone() },
                        enabled: true,
                        capabilities: Vec::new(),
                    };
                    let agent_id = concat2("a2a-peer-", self.peer.as_str());
                    self.stage = Stage::AwaitPeer { exchange_id, bytes };
                    ServingAction::StorePeer { agent_id, endpoint }
                },
            },
        }
    }

    /// The conversation is known: admit the task.
    fn submit(&mut self, exchange_id: String, bytes: i64, conversation: ConversationId) -> (action:
        ServingAction)
        requires
            old(self).stage() is Done,
            old(self).context().target is Some,
        ensures
            final(self).context() == old(self).context(),
            submit_next(
                old(self).context(),
                Held { exchange_id: exchange_id@, bytes },
                conversation,
                final(self).stage(),
                action,
            ),
    {
        let text = match &self.text {
            Ok(text) => text.clone(),
            Err(error) => {
                return failed(*error);
            },
        };
        let to_agent = match self.target {
            Some(target) => target,
            None => {
                return failed(A2aError::Protocol("unknown endpoint"));
            },
        };
        let task_id = TaskId::generate();
        let task = AgentTask {
            task_id,
            root_task_id: task_id,
            parent_task_id: None,
            from_agent: derive_peer_endpoint_id(self.peer.as_str()),
            to_agent,
            conversation_id: conversation,
            reply_to: None,
            text,
            priority: Priority::normal(),
            depth: 0,
            hops: 0,
            deadline: None,
            version: 0,
        };
        let context = AdmissionContext {
            transport: "a2a".to_owned(),
            external_event_id: self.request_id.clone(),
            room_id: self.context_id.clone(),
            thread_root: None,
            reply_event_id: self.message_id.clone(),
            monitor_room: None,
            monitor_generation: 0,
        };
        self.stage = Stage::AwaitSubmitted { exchange_id, bytes, task_id };
        ServingAction::Submit { task, context }
    }

    /// The conversation was looked for.
    fn looked(
        &mut self,
        exchange_id: String,
        bytes: i64,
        found: Option<Option<ConversationId>>,
    ) -> (action: ServingAction)
        requires
            old(self).stage() is Done,
            old(self).context().target is Some,
        ensures
            final(self).context() == old(self).context(),
            serving_next(
                old(self).context(),
                ServingStage::AwaitConversation(Held { exchange_id: exchange_id@, bytes }),
                ServingInput::Conversation(found),
                final(self).stage(),
                action,
            ),
    {
        match found {
            None => failed(A2aError::Protocol("conversation lookup failed")),
            Some(Some(conversation)) => self.submit(exchange_id, bytes, conversation),
            Some(None) => {
                let to = match self.target {
                    Some(target) => target,
                    None => {
                        return failed(A2aError::Protocol("unknown endpoint"));
                    },
                };
                let conversation = ConversationId::generate();
                let external_id = self.external_id();
                let from = derive_peer_endpoint_id(self.peer.as_str());
                self.stage = Stage::AwaitInserted { exchange_id, bytes, conversation };
                ServingAction::InsertConversation { conversation, external_id, from, to }
            },
        }
    }

    /// The task was read, or could not be.
    fn event(&self, external: Option<String>, cleaned: bool, read: Option<Option<TaskStatus>>) -> (
    action: ServingAction)
        requires
            self.stage() is Done,
        ensures
            serving_next(
                self.context(),
                ServingStage::AwaitEvent { external: optional(external), cleaned },
                ServingInput::Event(read),
                self.stage(),
                action,
            ),
    {
        match read {
            None => failed(A2aError::Protocol("task lookup failed")),
            Some(status) => match external {
                None => failed(A2aError::RecoveryNeeded),
                Some(id) => {
                    let state = match status {
                        Some(status) => project(status),
                        None => TaskState::Submitted,
                    };
                    let metadata = if cleaned {
                        Some(Json::empty_object().with("contentExpired", Json::Bool(true)))
                    } else {
                        None
                    };
                    ServingAction::Answer(
                        TaskSnapshot {
                            id,
                            context_id: "".to_owned(),
                            status: state,
                            artifacts: Vec::new(),
                            metadata,
                        },
                    )
                },
            },
        }
    }

    /// The exchange was bound to its task, or could not be.
    fn bound(&self, external: String, bound: Result<bool, A2aError>) -> (action: ServingAction)
        requires
            self.stage() is Done,
        ensures
            serving_next(
                self.context(),
                ServingStage::AwaitBound { external: external@ },
                ServingInput::Bound(bound),
                self.stage(),
                action,
            ),
    {
        match bound {
            Err(error) => failed(error),
            Ok(false) => failed(A2aError::RecoveryNeeded),
            Ok(true) => {
                let artifacts: Vec<Artifact> = Vec::new();
                ServingAction::Answer(
                    TaskSnapshot {
                        id: external,
                        context_id: self.context_id.clone(),
                        status: TaskState::Submitted,
                        artifacts,
                        metadata: None,
                    },
                )
            },
        }
    }

    /// Whether the target is known wherever it is needed: a message that was stored
    /// for no endpoint went no further.
    pub closed spec fn wf(&self) -> bool {
        match self.stage {
            Stage::AwaitPeer { .. } => self.target is Some,
            Stage::AwaitConversation { .. } => self.target is Some,
            Stage::AwaitInserted { .. } => self.target is Some,
            Stage::AwaitRace { .. } => self.target is Some,
            _ => true,
        }
    }

    /// Go on with what came of the last action.
    pub fn step(&mut self, input: ServingInput) -> (action: ServingAction)
        requires
            old(self).wf(),
            serving_expects(old(self).stage(), input),
        ensures
            final(self).wf(),
            final(self).context() == old(self).context(),
            serving_next(
                old(self).context(),
                old(self).stage(),
                input,
                final(self).stage(),
                action,
            ),
    {
        let mut stage = Stage::Done;
        std::mem::swap(&mut stage, &mut self.stage);
        match (stage, input) {
            (Stage::AwaitReserved(message), ServingInput::Reserved(reservation)) => {
                self.reserved(message, reservation)
            },
            (Stage::AwaitStored { exchange_id }, ServingInput::Stored(stored)) => {
                self.stored(exchange_id, stored)
            },
            (Stage::AwaitPeer { exchange_id, bytes }, ServingInput::PeerStored(done)) => {
                if done {
                    let external_id = self.external_id();
                    self.stage = Stage::AwaitConversation { exchange_id, bytes };
                    ServingAction::FindConversation { external_id }
                } else {
                    failed(A2aError::Protocol("peer persistence failed"))
                }
            },
            (
                Stage::AwaitConversation { exchange_id, bytes },
                ServingInput::Conversation(found),
            ) => self.looked(exchange_id, bytes, found),
            (
                Stage::AwaitInserted { exchange_id, bytes, conversation },
                ServingInput::Inserted(done),
            ) => {
                if done {
                    self.submit(exchange_id, bytes, conversation)
                } else {
                    let external_id = self.external_id();
                    self.stage = Stage::AwaitRace { exchange_id, bytes };
                    ServingAction::FindConversation { external_id }
                }
            },
            (Stage::AwaitRace { exchange_id, bytes }, ServingInput::Conversation(found)) => {
                match found {
                    Some(Some(conversation)) => self.submit(exchange_id, bytes, conversation),
                    _ => failed(A2aError::Protocol("conversation race failed")),
                }
            },
            (
                Stage::AwaitSubmitted { exchange_id, bytes, task_id },
                ServingInput::Submitted(done),
            ) => {
                if done {
                    let external_task_id = uuid_text(fresh_uuid());
                    self.stage = Stage::AwaitBound { external: external_task_id.clone() };
                    ServingAction::Bind {
                        exchange_id,
                        task_id,
                        external_task_id,
                        content_bytes: bytes,
                    }
                } else {
                    failed(A2aError::Protocol("task admission failed"))
                }
            },
            (Stage::AwaitBound { external }, ServingInput::Bound(bound)) => {
                self.bound(external, bound)
            },
            (Stage::AwaitFound, ServingInput::Found(found)) => match found {
                Err(error) => failed(error),
                Ok(None) => failed(A2aError::Protocol("unknown task")),
                Ok(Some(row)) => {
                    let cancel = self.cancels;
                    self.read(row, cancel)
                },
            },
            (Stage::AwaitEvent { external, cleaned }, ServingInput::Event(read)) => {
                self.event(external, cleaned, read)
            },
            _ => {
                assert(false);
                failed(A2aError::RecoveryNeeded)
            },
        }
    }
}

/// Asking again changes nothing: a message whose exchange is there is answered from
/// it, without storing, admitting or binding anything.
pub proof fn law_a_repeated_message_is_only_read(
    context: ServingContext,
    message: Message,
    row: ExchangeRecord,
    after: ServingStage,
    action: ServingAction,
)
    requires
        serving_next(
            context,
            ServingStage::AwaitReserved(message),
            ServingInput::Reserved(Ok(InboundReservation::Replay(row))),
            after,
            action,
        ),
    ensures
        action is ReadEvent || action is Failed,
        action matches ServingAction::ReadEvent { task_id: _, cancel } ==> !cancel,
        after is AwaitEvent || after is Done,
{
}

/// A task is answered as submitted only once it was admitted and bound to its
/// exchange: no other stage of a new message ends with an answer.
pub proof fn law_a_new_message_is_answered_once_bound(
    context: ServingContext,
    stage: ServingStage,
    input: ServingInput,
    after: ServingStage,
    action: ServingAction,
)
    requires
        serving_next(context, stage, input, after, action),
        action is Answer,
    ensures
        stage is AwaitBound && input == ServingInput::Bound(Ok(true)) || stage is AwaitEvent,
{
}

/// One step of serving a request: what came of the last action, and what to do next.
pub ghost struct ServingStep {
    pub stage: ServingStage,
    pub input: ServingInput,
    pub after: ServingStage,
    pub action: ServingAction,
}

/// Whether `steps` are those of serving a message or a query of a peer, after the first
/// action.
pub open spec fn serves(context: ServingContext, steps: Seq<ServingStep>) -> bool {
    &&& steps.len() > 0
    &&& steps[0].stage is AwaitReserved || steps[0].stage is AwaitFound
    &&& forall|i: int|
        0 <= i < steps.len() ==> {
            let step = #[trigger] steps[i];
            serving_next(context, step.stage, step.input, step.after, step.action)
        }
    &&& forall|i: int| 0 < i < steps.len() ==> (#[trigger] steps[i]).stage == steps[i - 1].after
}

/// Whether the exchange and the content of a new message are those that were told.
spec fn held_from(steps: Seq<ServingStep>, held: Held) -> bool {
    &&& steps[0].input matches ServingInput::Reserved(Ok(InboundReservation::New(row)))
        && row.exchange_id@ == held.exchange_id
    &&& steps[1].input == ServingInput::Stored(Ok(held.bytes))
}

/// What a request on its way has behind it.
proof fn lemma_serving_so_far(context: ServingContext, steps: Seq<ServingStep>, i: int)
    requires
        serves(context, steps),
        0 <= i < steps.len(),
    ensures
        match steps[i].stage {
            ServingStage::AwaitReserved(_) => i == 0,
            ServingStage::AwaitFound => i == 0,
            ServingStage::AwaitStored { exchange_id } => i == 1 && (steps[0].input matches
                ServingInput::Reserved(Ok(InboundReservation::New(row))) && row.exchange_id@
                == exchange_id),
            ServingStage::AwaitPeer(held) => i == 2 && held_from(steps, held) && context.target
                is Some,
            ServingStage::AwaitConversation(held) => i == 3 && held_from(steps, held)
                && context.target is Some,
            ServingStage::AwaitInserted(held, conversation) => i == 4 && held_from(steps, held)
                && context.target is Some && (steps[3].action matches
                ServingAction::InsertConversation { conversation: own, .. } && own
                == conversation),
            ServingStage::AwaitRace(held) => i == 5 && held_from(steps, held) && context.target
                is Some,
            ServingStage::AwaitSubmitted(held, task_id) => 4 <= i && held_from(steps, held) && (
            steps[i - 1].action matches ServingAction::Submit { task, .. } && task.task_id
                == task_id),
            ServingStage::AwaitBound { external } => 5 <= i && (steps[i - 1].action matches
                ServingAction::Bind { external_task_id, .. } && external_task_id@ == external),
            ServingStage::AwaitEvent { external, cleaned } => i == 1 && (match steps[0].input {
                ServingInput::Reserved(Ok(InboundReservation::Replay(row))) => optional(
                    row.external_task_id,
                ) == external && row.content_cleaned == cleaned,
                ServingInput::Found(Ok(Some(row))) => optional(row.external_task_id) == external
                    && row.content_cleaned == cleaned,
                _ => false,
            }),
            ServingStage::Done => false,
        },
    decreases i,
{
    let step = steps[i];
    assert(serving_next(context, step.stage, step.input, step.after, step.action));
    if i > 0 {
        lemma_serving_so_far(context, steps, i - 1);
        let previous = steps[i - 1];
        assert(serving_next(
            context,
            previous.stage,
            previous.input,
            previous.after,
            previous.action,
        ));
        assert(step.stage == previous.after);
    }
}

/// Whether `action` admits what the message of a peer asks for, in a conversation.
pub open spec fn admitted_in(
    context: ServingContext,
    conversation: ConversationId,
    action: ServingAction,
) -> bool {
    match context.text {
        Err(fault) => action matches ServingAction::Failed(error) && error@ == fault,
        Ok(text) => action matches ServingAction::Submit { task, context: admission } && {
            &&& task.conversation_id == conversation
            &&& task.text@ == text
            &&& task.from_agent.bits() == peer_bits(context.peer)
            &&& Some(task.to_agent) == context.target
            &&& task.root_task_id == task.task_id
            &&& task.parent_task_id is None && task.reply_to is None && task.deadline is None
            &&& task.depth == 0 && task.hops == 0 && task.version == 0
            &&& task.priority.rank() == 5
            &&& admission.transport@ == "a2a"@
            &&& admission.external_event_id@ == context.request_id
            &&& admission.room_id@ == context.context_id
            &&& admission.reply_event_id@ == context.message_id
            &&& admission.thread_root is None && admission.monitor_room is None
        },
    }
}

/// How a message or a query is served, input by input. A new message is stored with its
/// exchange, its peer is made known, its conversation is found or made, its task is
/// admitted in that conversation and bound to the exchange with the content that was
/// stored, and the answer names the task as it was bound. A message or a task that is
/// known is answered with the state of its task, as the latest event tells it. Whatever
/// fails on the way is what the peer is told.
pub proof fn law_a_request_is_served_step_by_step(
    context: ServingContext,
    steps: Seq<ServingStep>,
    i: int,
)
    requires
        serves(context, steps),
        0 <= i < steps.len(),
    ensures
        ({
            let action = steps[i].action;
            match steps[i].input {
                ServingInput::Reserved(Err(error)) => action matches ServingAction::Failed(own)
                    && own@ == error@,
                ServingInput::Reserved(Ok(InboundReservation::Replay(row))) => match
                row.internal_task_id {
                    Some(text) => match parsed_uuid(text@) {
                        Some(bits) => action matches ServingAction::ReadEvent { task_id, cancel }
                            && task_id.bits() == bits && !cancel,
                        None => action matches ServingAction::Failed(error) && error@
                            == A2aErrorView::RecoveryNeeded,
                    },
                    None => action matches ServingAction::Failed(error) && error@
                        == A2aErrorView::RecoveryNeeded,
                },
                ServingInput::Reserved(Ok(InboundReservation::New(row))) => i == 0 && (
                steps[0].stage matches ServingStage::AwaitReserved(message) && (action matches
                    ServingAction::Store { exchange_id, message: own } && exchange_id@
                    == row.exchange_id@ && own == message)),
                ServingInput::Stored(Err(error)) => action matches ServingAction::Failed(own)
                    && own@ == error@,
                ServingInput::Stored(Ok(_)) => match context.target {
                    None => action matches ServingAction::Failed(error) && error@
                        == A2aErrorView::Protocol("unknown endpoint"@),
                    Some(_) => action matches ServingAction::StorePeer { agent_id, endpoint } && {
                        &&& agent_id@ == "a2a-peer-"@ + context.peer
                        &&& endpoint.id.bits() == peer_bits(context.peer)
                        &&& endpoint.transport is A2a
                        &&& endpoint.address matches EndpointAddress::A2a { peer } && peer@
                            == context.peer
                        &&& endpoint.enabled
                        &&& endpoint.capabilities@.len() == 0
                    },
                },
                ServingInput::PeerStored(false) => action matches ServingAction::Failed(error)
                    && error@ == A2aErrorView::Protocol("peer persistence failed"@),
                ServingInput::PeerStored(true) => action matches ServingAction::FindConversation {
                    external_id,
                } && external_id@ == context.peer + "/"@ + context.context_id,
                ServingInput::Conversation(Some(Some(conversation))) => admitted_in(
                    context,
                    conversation,
                    action,
                ),
                ServingInput::Conversation(Some(None)) => if i == 3 {
                    action matches ServingAction::InsertConversation {
                        conversation: _,
                        external_id,
                        from,
                        to,
                    } && external_id@ == context.peer + "/"@ + context.context_id && from.bits()
                        == peer_bits(context.peer) && Some(to) == context.target
                } else {
                    action matches ServingAction::Failed(error) && error@ == A2aErrorView::Protocol(
                        "conversation race failed"@,
                    )
                },
                ServingInput::Conversation(None) => action matches ServingAction::Failed(error)
                    && error@ == A2aErrorView::Protocol(
                    if i == 3 {
                        "conversation lookup failed"@
                    } else {
                        "conversation race failed"@
                    },
                ),
                ServingInput::Inserted(true) => i == 4 && (steps[3].action matches
                    ServingAction::InsertConversation { conversation, .. } && admitted_in(
                    context,
                    conversation,
                    action,
                )),
                ServingInput::Inserted(false) => action matches ServingAction::FindConversation {
                    external_id,
                } && external_id@ == context.peer + "/"@ + context.context_id,
                ServingInput::Submitted(false) => action matches ServingAction::Failed(error)
                    && error@ == A2aErrorView::Protocol("task admission failed"@),
                ServingInput::Submitted(true) => i >= 4 && (steps[i - 1].action matches
                    ServingAction::Submit { task, .. } && (steps[0].input matches
                    ServingInput::Reserved(Ok(InboundReservation::New(row))) && (steps[1].input
                    matches ServingInput::Stored(Ok(bytes)) && (action matches
                    ServingAction::Bind { exchange_id, task_id, content_bytes, .. } && exchange_id@
                    == row.exchange_id@ && task_id == task.task_id && content_bytes == bytes)))),
                ServingInput::Bound(Err(error)) => action matches ServingAction::Failed(own)
                    && own@ == error@,
                ServingInput::Bound(Ok(false)) => action matches ServingAction::Failed(error)
                    && error@ == A2aErrorView::RecoveryNeeded,
                ServingInput::Bound(Ok(true)) => i >= 5 && (steps[i - 1].action matches
                    ServingAction::Bind { external_task_id, .. } && (action matches
                    ServingAction::Answer(answer) && {
                    &&& answer.id@ == external_task_id@
                    &&& answer.context_id@ == context.context_id
                    &&& answer.status == TaskState::Submitted
                    &&& answer.artifacts@.len() == 0
                    &&& answer.metadata is None
                })),
                ServingInput::Found(Err(error)) => action matches ServingAction::Failed(own)
                    && own@ == error@,
                ServingInput::Found(Ok(None)) => action matches ServingAction::Failed(error)
                    && error@ == A2aErrorView::Protocol("unknown task"@),
                ServingInput::Found(Ok(Some(row))) => match row.internal_task_id {
                    Some(text) => match parsed_uuid(text@) {
                        Some(bits) => action matches ServingAction::ReadEvent { task_id, cancel }
                            && task_id.bits() == bits && cancel == context.cancels,
                        None => action matches ServingAction::Failed(error) && error@
                            == A2aErrorView::RecoveryNeeded,
                    },
                    None => action matches ServingAction::Failed(error) && error@
                        == A2aErrorView::RecoveryNeeded,
                },
                ServingInput::Event(None) => action matches ServingAction::Failed(error) && error@
                    == A2aErrorView::Protocol("task lookup failed"@),
                ServingInput::Event(Some(status)) => i == 1 && {
                    let row = match steps[0].input {
                        ServingInput::Reserved(Ok(InboundReservation::Replay(row))) => row,
                        ServingInput::Found(Ok(Some(row))) => row,
                        _ => arbitrary(),
                    };
                    match row.external_task_id {
                        None => action matches ServingAction::Failed(error) && error@
                            == A2aErrorView::RecoveryNeeded,
                        Some(external) => action matches ServingAction::Answer(answer) && {
                            &&& answer.id@ == external@
                            &&& answer.context_id@ == ""@
                            &&& answer.status == (match status {
                                None => TaskState::Submitted,
                                Some(TaskStatus::Queued) => TaskState::Submitted,
                                Some(TaskStatus::Dispatched) => TaskState::Working,
                                Some(TaskStatus::Running) => TaskState::Working,
                                Some(TaskStatus::Completed) => TaskState::Completed,
                                Some(TaskStatus::Failed) => TaskState::Failed,
                                Some(TaskStatus::TimedOut) => TaskState::Failed,
                                Some(TaskStatus::Cancelled) => TaskState::Canceled,
                            })
                            &&& answer.artifacts@.len() == 0
                            &&& answer.metadata is Some <==> row.content_cleaned
                            &&& answer.metadata matches Some(metadata) ==> metadata@.field(
                                "contentExpired"@,
                            ) == Some(JsonView::Bool(true))
                        },
                    }
                },
            }
        }),
{
    let step = steps[i];
    assert(serving_next(context, step.stage, step.input, step.after, step.action));
    lemma_serving_so_far(context, steps, i);
}

/// A request waits for what answers its last action, and for nothing once it is answered.
pub proof fn law_a_request_waits_for_what_was_asked(
    context: ServingContext,
    steps: Seq<ServingStep>,
    i: int,
    next: ServingInput,
)
    requires
        serves(context, steps),
        0 <= i < steps.len(),
    ensures
        serving_expects(steps[0].stage, next) <==> (if steps[0].stage is AwaitReserved {
            next is Reserved
        } else {
            next is Found
        }),
        serving_expects(steps[i].after, next) <==> (match steps[i].action {
            ServingAction::Reserve { .. } => next is Reserved,
            ServingAction::Store { .. } => next is Stored,
            ServingAction::StorePeer { .. } => next is PeerStored,
            ServingAction::FindConversation { .. } => next is Conversation,
            ServingAction::InsertConversation { .. } => next is Inserted,
            ServingAction::Submit { .. } => next is Submitted,
            ServingAction::Bind { .. } => next is Bound,
            ServingAction::FindTask { .. } => next is Found,
            ServingAction::ReadEvent { .. } => next is Event,
            ServingAction::Answer(_) => false,
            ServingAction::Failed(_) => false,
        }),
{
    let step = steps[i];
    assert(serving_next(context, step.stage, step.input, step.after, step.action));
}

} // verus!
