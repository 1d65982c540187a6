//! The protocol client: negotiation, session requests and their answers.
//!
//! One protocol version is spoken and no other. An agent that asks for
//! authentication is served where it offers exactly one API-key method that needs
//! no terminal, and refused otherwise.

use vstd::prelude::*;
use vstd::string::*;

use crate::acp::bounded;
use crate::acp::bounded_text;
use crate::acp::error::AcpError;
use crate::acp::error::AcpErrorView;
use crate::acp::result::TurnResult;
use crate::acp::schema;
use crate::acp::schema::no_members;
use crate::acp::schema::prompt_value;
use crate::acp::schema::workspace_members;
use crate::acp::schema::AuthMethod;
use crate::acp::schema::AuthenticateParams;
use crate::acp::schema::Implementation;
use crate::acp::schema::InitializeResult;
use crate::acp::schema::NewSessionParams;
use crate::acp::schema::PromptResult;
use crate::acp::schema::ResumeSessionParams;
use crate::acp::schema::StopReason;
use crate::acp::schema::METHOD_SESSION_PROMPT;
use crate::acp::schema::PROTOCOL_VERSION;
use crate::acp::session::usable_session_id;
use crate::acp::session::MAX_SESSION_ID_BYTES;
use crate::acp::transport::TransportLimits;
use crate::bus::registry::copy_texts;
use crate::json::items_view;
use crate::json::Json;
use crate::json::JsonView;
use crate::text::byte_len;
use crate::text::concat3;
use crate::text::decimal;
use crate::text::decimal_text;
use crate::text::same_text;
use crate::text::views;
use crate::time::Duration;

verus! {

/// The default bound on the `initialize` handshake, in seconds.
pub const DEFAULT_INITIALIZE_DEADLINE_SECS: u64 = 10;

/// The default bound on a session or prompt request, in seconds.
pub const DEFAULT_REQUEST_DEADLINE_SECS: u64 = 30;

/// The adapter's bounds.
#[derive(Debug, Clone, Copy, PartialEq, Eq, Structural)]
pub struct AcpLimits {
    /// Bound on the `initialize` handshake.
    pub initialize_deadline: Duration,
    /// Bound on session and prompt requests.
    pub request_deadline: Duration,
    /// Bounds the transport applies.
    pub transport: TransportLimits,
}

impl AcpLimits {
    /// Whether these are the default bounds.
    pub open spec fn are_default(self) -> bool {
        &&& self.initialize_deadline.total() == DEFAULT_INITIALIZE_DEADLINE_SECS * 1_000_000_000
        &&& self.request_deadline.total() == DEFAULT_REQUEST_DEADLINE_SECS * 1_000_000_000
        &&& self.transport.max_frame_bytes == crate::acp::framing::MAX_FRAME_BYTES
        &&& self.transport.max_output_bytes == crate::acp::transport::DEFAULT_MAX_OUTPUT_BYTES
        &&& self.transport.shutdown_deadline.total()
            == crate::acp::transport::DEFAULT_SHUTDOWN_DEADLINE_SECS * 1_000_000_000
    }
}

impl Default for AcpLimits {
    fn default() -> (limits: AcpLimits)
        ensures
            limits.are_default(),
    {
        AcpLimits {
            initialize_deadline: Duration::from_secs(DEFAULT_INITIALIZE_DEADLINE_SECS),
            request_deadline: Duration::from_secs(DEFAULT_REQUEST_DEADLINE_SECS),
            transport: TransportLimits::default(),
        }
    }
}

/// The identity recorded for a negotiated backend, as data.
pub open spec fn backend_name(agent_id: Seq<char>, info: Option<Implementation>) -> Seq<char> {
    bounded_text(
        match info {
            Some(info) => agent_id + "/"@ + info.name@ + "@"@ + info.version@,
            None => agent_id + "/unknown@unknown"@,
        },
    )
}

/// The identity recorded for a negotiated backend: the agent, and the name and
/// version that the backend gives itself.
pub fn backend_id(agent_id: &str, info: Option<&Implementation>) -> (id: String)
    ensures
        id@ == backend_name(
            agent_id@,
            match info {
                Some(info) => Some(*info),
                None => None,
            },
        ),
{
    let mut text = agent_id.to_owned();
    match info {
        Some(info) => {
            text.append("/");
            text.append(info.name.as_str());
            text.append("@");
            text.append(info.version.as_str());
        },
        None => {
            text.append("/unknown@unknown");
        },
    }
    bounded(text.as_str())
}

/// Whether a method can be used without a person.
pub open spec fn usable_method(method: AuthMethod) -> bool {
    method.id@ == "api-key"@ && !method.terminal()
}

/// How many of the methods can be used without a person.
pub open spec fn usable_methods(methods: Seq<AuthMethod>) -> nat
    decreases methods.len(),
{
    if methods.len() == 0 {
        0
    } else if usable_method(methods.last()) {
        usable_methods(methods.drop_last()) + 1
    } else {
        usable_methods(methods.drop_last())
    }
}

/// Why a negotiated backend is refused, where it is.
pub open spec fn refusal(result: InitializeResult) -> Option<AcpErrorView> {
    let advertised = result.auth_methods@.len();
    if result.protocol_version != PROTOCOL_VERSION {
        Some(
            AcpErrorView::UnsupportedProtocol {
                got: result.protocol_version as nat,
                supported: PROTOCOL_VERSION as nat,
            },
        )
    } else if advertised > 0 && usable_methods(result.auth_methods@) != 1 {
        Some(AcpErrorView::Authentication { advertised })
    } else {
        None
    }
}

/// What to do with an agent that answered `initialize`.
#[derive(Debug, PartialEq)]
pub enum Negotiation {
    /// The backend is usable.
    Connected { backend_id: String },
    /// The backend is usable once it answered this `authenticate` request.
    Authenticate { params: Json, backend_id: String },
    /// The transport is to be shut down: the backend is not usable.
    Refused { error: AcpError },
}

/// Decide on an agent that answered `initialize`.
pub fn negotiate(agent_id: &str, result: &InitializeResult) -> (negotiation: Negotiation)
    ensures
        match negotiation {
            Negotiation::Refused { error } => refusal(*result) == Some(error@),
            Negotiation::Connected { backend_id } => refusal(*result) is None
                && result.auth_methods@.len() == 0 && backend_id@ == backend_name(
                agent_id@,
                result.agent_info,
            ),
            Negotiation::Authenticate { params, backend_id } => refusal(*result) is None
                && result.auth_methods@.len() > 0 && backend_id@ == backend_name(
                agent_id@,
                result.agent_info,
            ) && params@ == JsonView::Object(
                no_members().insert("methodId"@, JsonView::Text("api-key"@)),
            ),
        },
{
    if result.protocol_version != PROTOCOL_VERSION {
        return Negotiation::Refused {
            error: AcpError::UnsupportedProtocol {
                got: result.protocol_version,
                supported: PROTOCOL_VERSION,
            },
        };
    }
    let advertised: usize = result.auth_methods.len();
    let mut usable: usize = 0;
    let mut i: usize = 0;
    while i < advertised
        invariant
            i <= advertised,
            advertised == result.auth_methods@.len(),
            usable == usable_methods(result.auth_methods@.take(i as int)),
            usable <= i,
        decreases advertised - i,
    {
        let method = &result.auth_methods[i];
        assert(result.auth_methods@.take(i + 1).drop_last() =~= result.auth_methods@.take(
            i as int,
        ));
        if same_text(method.id.as_str(), "api-key") && !method.is_terminal() {
            usable = usable + 1;
        }
        i = i + 1;
    }
    assert(result.auth_methods@.take(i as int) =~= result.auth_methods@);
    if advertised > 0 && usable != 1 {
        return Negotiation::Refused { error: AcpError::Authentication { advertised } };
    }
    let info = match &result.agent_info {
        Some(info) => Some(info),
        None => None,
    };
    let backend_id = backend_id(agent_id, info);
    if advertised == 0 {
        Negotiation::Connected { backend_id }
    } else {
        let params = AuthenticateParams { method_id: "api-key".to_owned() };
        Negotiation::Authenticate { params: params.to_json(), backend_id }
    }
}

/// A connected backend speaks this adapter's protocol version, and asks for no
/// authentication that this adapter does not serve.
pub proof fn law_an_accepted_backend_speaks_the_protocol(result: InitializeResult)
    requires
        refusal(result) is None,
    ensures
        result.protocol_version == PROTOCOL_VERSION,
        result.auth_methods@.len() == 0 || usable_methods(result.auth_methods@) == 1,
{
}

/// A payload that does not match the schema of `method`.
pub fn schema_failure(method: &str, detail: &str) -> (error: AcpError)
    ensures
        error@ == (AcpErrorView::Schema { method: method@, detail: bounded_text(detail@) }),
{
    AcpError::Schema { method: method.to_owned(), detail: bounded(detail) }
}

/// Why a session id is unusable, where it is.
pub open spec fn session_id_fault(session_id: Seq<char>) -> Option<AcpErrorView> {
    if session_id.len() == 0 {
        Some(AcpErrorView::SessionId("the session id is empty"@))
    } else if crate::text::utf8_len(session_id) > MAX_SESSION_ID_BYTES {
        Some(
            AcpErrorView::SessionId(
                "the session id exceeds "@ + decimal(MAX_SESSION_ID_BYTES as nat) + " bytes"@,
            ),
        )
    } else {
        None
    }
}

/// Accept a session id only when it is present and bounded.
pub fn validate_session_id(session_id: String) -> (valid: Result<String, AcpError>)
    ensures
        match valid {
            Ok(id) => session_id_fault(session_id@) is None && usable_session_id(session_id@)
                && id@ == session_id@,
            Err(error) => session_id_fault(session_id@) == Some(error@),
        },
{
    if session_id.as_str().unicode_len() == 0 {
        return Err(AcpError::SessionId { detail: "the session id is empty".to_owned() });
    }
    if byte_len(session_id.as_str()) > MAX_SESSION_ID_BYTES {
        let limit = decimal_text(MAX_SESSION_ID_BYTES as u64);
        return Err(
            AcpError::SessionId {
                detail: concat3("the session id exceeds ", limit.as_str(), " bytes"),
            },
        );
    }
    Ok(session_id)
}

/// The parameters of `session/new`, as data.
pub open spec fn new_session_value(cwd: Seq<char>, directories: Seq<Seq<char>>) -> JsonView {
    JsonView::Object(workspace_members(cwd, Seq::empty(), directories))
}

/// The parameters of `session/resume`, as data.
pub open spec fn resume_value(
    session_id: Seq<char>,
    cwd: Seq<char>,
    directories: Seq<Seq<char>>,
) -> JsonView {
    JsonView::Object(
        workspace_members(cwd, Seq::empty(), directories).insert(
            "sessionId"@,
            JsonView::Text(session_id),
        ),
    )
}

/// The parameters of the request that creates a session.
pub fn new_session_params(cwd: &str, additional_directories: &Vec<String>) -> (params: Json)
    ensures
        params@ == new_session_value(cwd@, views(additional_directories@)),
{
    let params = NewSessionParams::new_with_workspaces(cwd, additional_directories);
    assert(items_view(params.mcp_servers@) =~= Seq::empty());
    params.to_json()
}

/// The parameters of the request that resumes a session.
pub fn resume_session_params(
    session_id: &str,
    cwd: &str,
    additional_directories: &Vec<String>,
) -> (params: Result<Json, AcpError>)
    ensures
        match params {
            Ok(params) => session_id_fault(session_id@) is None && params@ == resume_value(
                session_id@,
                cwd@,
                views(additional_directories@),
            ),
            Err(error) => session_id_fault(session_id@) == Some(error@),
        },
{
    match validate_session_id(session_id.to_owned()) {
        Err(error) => Err(error),
        Ok(session_id) => {
            let params = ResumeSessionParams {
                session_id,
                cwd: cwd.to_owned(),
                mcp_servers: Vec::new(),
                additional_directories: copy_texts(additional_directories),
            };
            assert(items_view(params.mcp_servers@) =~= Seq::empty());
            Ok(params.to_json())
        },
    }
}

/// The session that an agent answered a resume with: it must be the one asked for.
pub fn resumed(requested: &str, returned: String) -> (session: Result<String, AcpError>)
    ensures
        match session {
            Ok(session) => session@ == requested@ && returned@ == requested@ && usable_session_id(
                requested@,
            ),
            Err(error) => if session_id_fault(returned@) is Some {
                session_id_fault(returned@) == Some(error@)
            } else {
                returned@ != requested@ && error@ == AcpErrorView::SessionId(
                    "resume answered with a different session id"@,
                )
            },
        },
{
    match validate_session_id(returned) {
        Err(error) => Err(error),
        Ok(returned) => if same_text(returned.as_str(), requested) {
            Ok(returned)
        } else {
            Err(
                AcpError::SessionId {
                    detail: "resume answered with a different session id".to_owned(),
                },
            )
        },
    }
}

/// The parameters of the request that runs a turn.
pub fn prompt_params(session_id: &str, text: &str) -> (params: Result<Json, AcpError>)
    ensures
        match params {
            Ok(params) => session_id_fault(session_id@) is None && params@ == prompt_value(
                session_id@,
                text@,
            ),
            Err(error) => session_id_fault(session_id@) == Some(error@),
        },
{
    match validate_session_id(session_id.to_owned()) {
        Err(error) => Err(error),
        Ok(session_id) => Ok(schema::text_prompt(session_id.as_str(), text)),
    }
}

/// The parameters of the notification that cancels a turn.
pub fn cancel_params(session_id: &str) -> (params: Result<Json, AcpError>)
    ensures
        match params {
            Ok(params) => session_id_fault(session_id@) is None && params@ == JsonView::Object(
                no_members().insert("sessionId"@, JsonView::Text(session_id@)),
            ),
            Err(error) => session_id_fault(session_id@) == Some(error@),
        },
{
    match validate_session_id(session_id.to_owned()) {
        Err(error) => Err(error),
        Ok(session_id) => Ok(
            Json::empty_object().with("sessionId", Json::text(session_id.as_str())),
        ),
    }
}

/// One finished turn.
#[derive(Debug, Clone, PartialEq, Eq)]
pub struct PromptTurn {
    /// Why the agent stopped.
    pub stop_reason: StopReason,
    /// The text the agent streamed for this turn.
    pub text: String,
    /// What the turn says of its task, when it says anything.
    pub task_result: Option<TurnResult>,
}

/// The finished turn of a prompt that was answered with `result` and streamed
/// `streamed`. A structured result of an unknown kind is a schema failure.
pub fn finish_turn(result: PromptResult, streamed: String) -> (turn: Result<PromptTurn, AcpError>)
    ensures
        match turn {
            Ok(turn) => {
                &&& turn.stop_reason == result.stop_reason
                &&& turn.text@ == streamed@
                &&& match result.task_result {
                    Some(wire) => turn.task_result matches Some(own) && wire.meaning(streamed@)
                        == Some(own@),
                    None => turn.task_result is None,
                }
            },
            Err(error) => {
                &&& result.task_result matches Some(wire) && wire.meaning(streamed@) is None
                &&& error@ == (AcpErrorView::Schema {
                    method: METHOD_SESSION_PROMPT@,
                    detail: "unknown structured turn result kind"@,
                })
            },
        },
{
    let task_result = match result.task_result {
        None => None,
        Some(wire) => match wire.into_result(streamed.clone()) {
            Ok(own) => Some(own),
            Err(detail) => {
                return Err(
                    AcpError::Schema { method: METHOD_SESSION_PROMPT.to_owned(), detail },
                );
            },
        },
    };
    Ok(PromptTurn { stop_reason: result.stop_reason, text: streamed, task_result })
}

/// The structured result of a turn that must have one.
pub fn strict_result(turn: PromptTurn) -> (result: Result<TurnResult, AcpError>)
    ensures
        match result {
            Ok(own) => turn.task_result == Some(own),
            Err(error) => turn.task_result is None && error@ == (AcpErrorView::Schema {
                method: METHOD_SESSION_PROMPT@,
                detail: "missing taskResult in strict mode"@,
            }),
        },
{
    match turn.task_result {
        Some(own) => Ok(own),
        None => Err(
            AcpError::Schema {
                method: METHOD_SESSION_PROMPT.to_owned(),
                detail: "missing taskResult in strict mode".to_owned(),
            },
        ),
    }
}

/// A session is named by a text that is not empty and not too long, and is opened and
/// resumed with its own directories and no servers.
pub proof fn law_sessions_are_asked_for_by_name(
    session_id: Seq<char>,
    cwd: Seq<char>,
    directories: Seq<Seq<char>>,
)
    ensures
        session_id_fault(session_id) is None <==> (0 < session_id.len() && crate::text::utf8_len(
            session_id,
        ) <= 256),
        session_id.len() == 0 ==> session_id_fault(session_id) == Some(
            AcpErrorView::SessionId("the session id is empty"@),
        ),
        session_id_fault(session_id) matches Some(error) ==> error is SessionId,
        new_session_value(cwd, directories) == JsonView::Object(
            workspace_members(cwd, Seq::empty(), directories),
        ),
        resume_value(session_id, cwd, directories) == JsonView::Object(
            workspace_members(cwd, Seq::empty(), directories).insert(
                "sessionId"@,
                JsonView::Text(session_id),
            ),
        ),
        DEFAULT_INITIALIZE_DEADLINE_SECS == 10,
        DEFAULT_REQUEST_DEADLINE_SECS == 30,
{
}

} // verus!
