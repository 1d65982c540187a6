//! The handshake with a backend that was just started.
//!
//! The backend is initialized, authenticated where it asks for that, and usable only
//! then. A backend that is refused is shut down before the refusal is reported.

use vstd::prelude::*;
use vstd::string::*;

use crate::acp::bounded_text;
use crate::acp::client::backend_name;
use crate::acp::client::negotiate;
use crate::acp::client::refusal;
use crate::acp::client::Negotiation;
use crate::acp::client::usable_methods;
use crate::acp::error::AcpError;
use crate::acp::error::AcpErrorView;
use crate::acp::schema::AuthMethod;
use crate::acp::schema::no_members;
use crate::acp::schema::InitializeParams;
use crate::acp::schema::InitializeResult;
use crate::acp::schema::CLIENT_NAME;
use crate::acp::schema::CLIENT_VERSION;
use crate::acp::schema::PROTOCOL_VERSION;
use crate::json::integer_number;
use crate::json::Json;
use crate::json::JsonView;

verus! {

/// Where a handshake is.
pub ghost enum ConnectStage {
    AwaitInitialized,
    AwaitAuthenticated { backend: Seq<char> },
    AwaitStopped { fault: AcpErrorView },
    Done,
}

/// What came of an action.
pub enum ConnectInput {
    /// The backend answered `initialize`, or could not be asked or understood.
    Initialized(Result<InitializeResult, AcpError>),
    /// The backend answered `authenticate`, or could not be asked or understood.
    Authenticated(Result<(), AcpError>),
    /// The backend was shut down.
    Stopped,
}

/// What to do next in a handshake.
#[derive(Debug, PartialEq)]
pub enum ConnectAction {
    /// Send `initialize` with these parameters.
    Initialize(Json),
    /// Send `authenticate` with these parameters.
    Authenticate(Json),
    /// Shut the backend down.
    ShutDown,
    /// The backend is usable, under this identity.
    Connected { backend_id: String },
    /// The backend is not usable.
    Failed(AcpError),
}

/// The parameters that a backend is initialized with: this client, and no capability.
pub open spec fn initialize_value() -> JsonView {
    JsonView::Object(
        no_members().insert(
            "protocolVersion"@,
            JsonView::Number(integer_number(PROTOCOL_VERSION as int)),
        ).insert("clientCapabilities"@, JsonView::Object(no_members())).insert(
            "clientInfo"@,
            JsonView::Object(
                no_members().insert("name"@, JsonView::Text(CLIENT_NAME@)).insert(
                    "version"@,
                    JsonView::Text(CLIENT_VERSION@),
                ),
            ),
        ),
    )
}

/// The parameters that a backend is authenticated with.
pub open spec fn authenticate_value() -> JsonView {
    JsonView::Object(no_members().insert("methodId"@, JsonView::Text("api-key"@)))
}

/// The handshake ends with a failure.
pub open spec fn connect_failed(
    after: ConnectStage,
    action: ConnectAction,
    fault: AcpErrorView,
) -> bool {
    after is Done && (action matches ConnectAction::Failed(error) && error@ == fault)
}

/// The handshake ends with a usable backend.
pub open spec fn connected(
    after: ConnectStage,
    action: ConnectAction,
    backend: Seq<char>,
) -> bool {
    after is Done && (action matches ConnectAction::Connected { backend_id } && backend_id@
        == backend)
}

/// Whether `input` answers what a handshake in `stage` waits for.
pub open spec fn connect_expects(stage: ConnectStage, input: ConnectInput) -> bool {
    match stage {
        ConnectStage::AwaitInitialized => input is Initialized,
        ConnectStage::AwaitAuthenticated { backend: _ } => input is Authenticated,
        ConnectStage::AwaitStopped { fault: _ } => input is Stopped,
        ConnectStage::Done => false,
    }
}

/// How a handshake with the backend of `agent_id` goes on.
pub open spec fn connect_next(
    agent_id: Seq<char>,
    stage: ConnectStage,
    input: ConnectInput,
    after: ConnectStage,
    action: ConnectAction,
) -> bool {
    match (stage, input) {
        (ConnectStage::AwaitInitialized, ConnectInput::Initialized(answer)) => match answer {
            Err(error) => connect_failed(after, action, error@),
            Ok(result) => {
                let backend = backend_name(agent_id, result.agent_info);
                match refusal(result) {
                    Some(fault) => after == (ConnectStage::AwaitStopped { fault }) && action
                        is ShutDown,
                    None => if result.auth_methods@.len() == 0 {
                        connected(after, action, backend)
                    } else {
                        after == (ConnectStage::AwaitAuthenticated { backend }) && (action matches
                            ConnectAction::Authenticate(params) && params@ == authenticate_value())
                    },
                }
            },
        },
        (
            ConnectStage::AwaitAuthenticated { backend },
            ConnectInput::Authenticated(answer),
        ) => match answer {
            Err(error) => connect_failed(after, action, error@),
            Ok(_) => connected(after, action, backend),
        },
        (ConnectStage::AwaitStopped { fault }, ConnectInput::Stopped) => connect_failed(
            after,
            action,
            fault,
        ),
        _ => false,
    }
}

/// Where a handshake is.
enum Stage {
    AwaitInitialized,
    AwaitAuthenticated { backend_id: String },
    AwaitStopped { error: AcpError },
    Done,
}

/// A handshake on its way.
pub struct Connecting {
    agent_id: String,
    stage: Stage,
}

impl Connecting {
    /// The agent whose backend it is.
    pub closed spec fn agent_id(&self) -> Seq<char> {
        self.agent_id@
    }

    /// Where the handshake is.
    pub closed spec fn stage(&self) -> ConnectStage {
        match self.stage {
            Stage::AwaitInitialized => ConnectStage::AwaitInitialized,
            Stage::AwaitAuthenticated { backend_id } => ConnectStage::AwaitAuthenticated {
                backend: backend_id@,
            },
            Stage::AwaitStopped { error } => ConnectStage::AwaitStopped { fault: error@ },
            Stage::Done => ConnectStage::Done,
        }
    }

    /// Begin a handshake with the backend of `agent_id`.
    pub fn begin(agent_id: &str) -> (run: (Connecting, ConnectAction))
        ensures
            run.0.agent_id() == agent_id@,
            run.0.stage() is AwaitInitialized,
            run.1 matches ConnectAction::Initialize(params) && params@ == initialize_value(),
    {
        let run = Connecting { agent_id: agent_id.to_owned(), stage: Stage::AwaitInitialized };
        (run, ConnectAction::Initialize(InitializeParams::new().to_json()))
    }

    /// Whether `input` answers what the handshake waits for.
    pub fn expects(&self, input: &ConnectInput) -> (yes: bool)
        ensures
            yes == connect_expects(self.stage(), *input),
    {
        match (&self.stage, input) {
            (Stage::AwaitInitialized, ConnectInput::Initialized(_)) => true,
            (Stage::AwaitAuthenticated { .. }, ConnectInput::Authenticated(_)) => true,
            (Stage::AwaitStopped { .. }, ConnectInput::Stopped) => true,
            _ => false,
        }
    }

    /// Go on with what came of the last action.
    pub fn step(&mut self, input: ConnectInput) -> (action: ConnectAction)
        requires
            connect_expects(old(self).stage(), input),
        ensures
            final(self).agent_id() == old(self).agent_id(),
            connect_next(
                old(self).agent_id(),
                old(self).stage(),
                input,
                final(self).stage(),
                action,
            ),
    {
        let mut stage = Stage::Done;
        std::mem::swap(&mut stage, &mut self.stage);
        match (stage, input) {
            (Stage::AwaitInitialized, ConnectInput::Initialized(Err(error))) => {
                ConnectAction::Failed(error)
            },
            (Stage::AwaitInitialized, ConnectInput::Initialized(Ok(result))) => {
                match negotiate(self.agent_id.as_str(), &result) {
                    Negotiation::Connected { backend_id } => ConnectAction::Connected {
                        backend_id,
                    },
                    Negotiation::Authenticate { params, backend_id } => {
                        self.stage = Stage::AwaitAuthenticated { backend_id };
                        ConnectAction::Authenticate(params)
                    },
                    Negotiation::Refused { error } => {
                        self.stage = Stage::AwaitStopped { error };
                        ConnectAction::ShutDown
                    },
                }
            },
            (Stage::AwaitAuthenticated { .. }, ConnectInput::Authenticated(Err(error))) => {
                ConnectAction::Failed(error)
            },
            (Stage::AwaitAuthenticated { backend_id }, ConnectInput::Authenticated(Ok(()))) => {
                ConnectAction::Connected { backend_id }
            },
            (Stage::AwaitStopped { error }, ConnectInput::Stopped) => {
                ConnectAction::Failed(error)
            },
            _ => {
                assert(false);
                ConnectAction::ShutDown
            },
        }
    }
}

/// A backend is used only where it speaks this adapter's protocol version, and only
/// after it answered for the authentication that it asked for.
pub proof fn law_only_an_authenticated_backend_is_used(
    agent_id: Seq<char>,
    result: InitializeResult,
    after: ConnectStage,
    action: ConnectAction,
)
    requires
        connect_next(
            agent_id,
            ConnectStage::AwaitInitialized,
            ConnectInput::Initialized(Ok(result)),
            after,
            action,
        ),
        result.protocol_version != PROTOCOL_VERSION || result.auth_methods@.len() > 0,
    ensures
        !(action is Connected),
        result.protocol_version != PROTOCOL_VERSION ==> action is ShutDown,
        action is Authenticate || action is ShutDown,
{
}

/// A refused backend is shut down, and its refusal is reported afterwards.
pub proof fn law_a_refused_backend_is_shut_down(
    agent_id: Seq<char>,
    result: InitializeResult,
    waiting: ConnectStage,
    first: ConnectAction,
    after: ConnectStage,
    second: ConnectAction,
)
    requires
        refusal(result) is Some,
        connect_next(
            agent_id,
            ConnectStage::AwaitInitialized,
            ConnectInput::Initialized(Ok(result)),
            waiting,
            first,
        ),
        connect_next(agent_id, waiting, ConnectInput::Stopped, after, second),
    ensures
        first is ShutDown,
        connect_failed(after, second, refusal(result)->0),
{
}

/// How a handshake ends. A backend that answers with another protocol version, or with
/// authentication that is not exactly one usable method, is shut down, and the refusal is
/// reported; one that asks for no authentication is used at once, and one that asks for it
/// once it answered. Whatever fails is reported as it is.
pub proof fn law_a_handshake_ends_as_the_backend_answers(
    agent_id: Seq<char>,
    answer: Result<InitializeResult, AcpError>,
    waiting: ConnectStage,
    first: ConnectAction,
    input: ConnectInput,
    after: ConnectStage,
    second: ConnectAction,
)
    requires
        connect_next(
            agent_id,
            ConnectStage::AwaitInitialized,
            ConnectInput::Initialized(answer),
            waiting,
            first,
        ),
    ensures
        match answer {
            Err(error) => first matches ConnectAction::Failed(own) && own@ == error@,
            Ok(result) => {
                let usable = result.auth_methods@.filter(
                    |method: AuthMethod| method.id@ == "api-key"@ && !method.terminal(),
                );
                let name = bounded_text(
                    match result.agent_info {
                        Some(info) => agent_id + "/"@ + info.name@ + "@"@ + info.version@,
                        None => agent_id + "/unknown@unknown"@,
                    },
                );
                if result.protocol_version != PROTOCOL_VERSION {
                    first is ShutDown && (connect_next(agent_id, waiting, input, after, second)
                        ==> input is Stopped && (second matches ConnectAction::Failed(error)
                        && error@ == (AcpErrorView::UnsupportedProtocol {
                        got: result.protocol_version as nat,
                        supported: PROTOCOL_VERSION as nat,
                    })))
                } else if result.auth_methods@.len() == 0 {
                    first matches ConnectAction::Connected { backend_id } && backend_id@ == name
                } else if usable.len() != 1 {
                    first is ShutDown && (connect_next(agent_id, waiting, input, after, second)
                        ==> input is Stopped && (second matches ConnectAction::Failed(error)
                        && error@ == (AcpErrorView::Authentication {
                        advertised: result.auth_methods@.len(),
                    })))
                } else {
                    (first matches ConnectAction::Authenticate(params) && params@
                        == JsonView::Object(
                        Map::<Seq<char>, JsonView>::empty().insert(
                            "methodId"@,
                            JsonView::Text("api-key"@),
                        ),
                    )) && (connect_next(agent_id, waiting, input, after, second) ==> (match input {
                        ConnectInput::Authenticated(Ok(_)) => second matches
                            ConnectAction::Connected { backend_id } && backend_id@ == name,
                        ConnectInput::Authenticated(Err(error)) => second matches
                            ConnectAction::Failed(own) && own@ == error@,
                        _ => false,
                    }))
                }
            },
        },
{
    if let Ok(result) = answer {
        lemma_usable_methods_are_counted(result.auth_methods@);
    }
}

/// The usable methods are those that need no person.
proof fn lemma_usable_methods_are_counted(methods: Seq<AuthMethod>)
    ensures
        usable_methods(methods) == methods.filter(
            |method: AuthMethod| method.id@ == "api-key"@ && !method.terminal(),
        ).len(),
    decreases methods.len(),
{
    reveal(Seq::filter);
    if methods.len() > 0 {
        lemma_usable_methods_are_counted(methods.drop_last());
    }
}

/// A handshake waits for what answers its last action, and for nothing once it is over.
pub proof fn law_a_handshake_waits_for_what_it_asked(
    agent_id: Seq<char>,
    stage: ConnectStage,
    input: ConnectInput,
    after: ConnectStage,
    action: ConnectAction,
    next: ConnectInput,
)
    requires
        connect_next(agent_id, stage, input, after, action),
    ensures
        connect_expects(after, next) <==> (match action {
            ConnectAction::Initialize(_) => next is Initialized,
            ConnectAction::Authenticate(_) => next is Authenticated,
            ConnectAction::ShutDown => next is Stopped,
            ConnectAction::Connected { .. } => false,
            ConnectAction::Failed(_) => false,
        }),
        connect_expects(ConnectStage::AwaitInitialized, next) <==> next is Initialized,
{
}

/// A backend is asked for this adapter's version of the protocol, is told who asks, and is
/// promised no capability.
pub proof fn law_a_backend_is_told_who_asks()
    ensures
        ({
            let asked = initialize_value();
            &&& asked.field("protocolVersion"@) == Some(
                JsonView::Number(integer_number(PROTOCOL_VERSION as int)),
            )
            &&& asked.field("clientCapabilities"@) == Some(JsonView::Object(Map::empty()))
            &&& asked.field("clientInfo"@) matches Some(client) && client.field("name"@) == Some(
                JsonView::Text(CLIENT_NAME@),
            ) && client.field("version"@) == Some(JsonView::Text(CLIENT_VERSION@))
        }),
        PROTOCOL_VERSION == 1,
{
    reveal_strlit("protocolVersion");
    reveal_strlit("clientCapabilities");
    reveal_strlit("clientInfo");
    reveal_strlit("name");
    reveal_strlit("version");
    assert("protocolVersion"@.len() == 15);
    assert("clientCapabilities"@.len() == 18);
    assert("clientInfo"@.len() == 10);
    assert("name"@.len() == 4);
    assert("version"@.len() == 7);
}

} // verus!
