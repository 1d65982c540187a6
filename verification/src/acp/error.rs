//! What can go wrong between the bridge and an agent process.
//!
//! Starting, framing, negotiation, authentication, execution and storage failures
//! are separate variants. A rendered reason names a phase, a code and a bounded
//! detail, and never a command line, a task body or a path.

use vstd::prelude::*;
use vstd::string::*;

use crate::acp::framing::FrameError;
use crate::acp::framing::FrameErrorView;
use crate::acp::jsonrpc::ErrorObjectView;
use crate::acp::jsonrpc::JsonRpcErrorObject;
use crate::acp::jsonrpc::ProtocolError;
use crate::acp::jsonrpc::ProtocolErrorView;
use crate::storage::StorageError;
use crate::storage::StorageErrorView;
use crate::text::concat2;
use crate::text::concat3;
use crate::text::decimal;
use crate::text::decimal_text;

verus! {

/// Which step of the exchange failed.
#[derive(Debug, Clone, Copy, PartialEq, Eq, Structural)]
pub enum Phase {
    /// Starting the child process.
    Spawn,
    /// The `initialize` handshake.
    Initialize,
    /// Authentication.
    Authenticate,
    /// Creating or resuming a session.
    Session,
    /// Running a turn.
    Prompt,
    /// Shutting the transport down.
    Shutdown,
}

impl Phase {
    /// The step in words.
    pub open spec fn rendered(self) -> Seq<char> {
        match self {
            Phase::Spawn => "process start"@,
            Phase::Initialize => "initialize"@,
            Phase::Authenticate => "authenticate"@,
            Phase::Session => "session setup"@,
            Phase::Prompt => "prompt"@,
            Phase::Shutdown => "shutdown"@,
        }
    }

    /// The step in words.
    pub fn as_str(self) -> (text: &'static str)
        ensures
            text@ == self.rendered(),
    {
        match self {
            Phase::Spawn => "process start",
            Phase::Initialize => "initialize",
            Phase::Authenticate => "authenticate",
            Phase::Session => "session setup",
            Phase::Prompt => "prompt",
            Phase::Shutdown => "shutdown",
        }
    }

    /// The step in words.
    pub fn to_string(&self) -> (text: String)
        ensures
            text@ == self.rendered(),
    {
        (*self).as_str().to_owned()
    }
}

/// A failure of the adapter as data.
pub ghost enum AcpErrorView {
    UnsupportedAddress { phase: Phase },
    Spawn { phase: Phase, source: Seq<char> },
    Timeout { phase: Phase },
    StreamBackpressure,
    RecoveryNeeded,
    Exited { phase: Phase, detail: Seq<char> },
    TransportClosed,
    UnsupportedProtocol { got: nat, supported: nat },
    Authentication { advertised: nat },
    Frame(FrameErrorView),
    Protocol(ProtocolErrorView),
    Schema { method: Seq<char>, detail: Seq<char> },
    Agent(ErrorObjectView),
    SessionId(Seq<char>),
    Storage(StorageErrorView),
}

impl AcpErrorView {
    /// The failure in words.
    pub open spec fn rendered(self) -> Seq<char> {
        match self {
            AcpErrorView::UnsupportedAddress { phase } => phase.rendered()
                + ": the endpoint has no ACP address"@,
            AcpErrorView::Spawn { phase, source } => phase.rendered() + " failed: "@ + source,
            AcpErrorView::Timeout { phase } => phase.rendered() + " timed out"@,
            AcpErrorView::StreamBackpressure => "turn update stream is full"@,
            AcpErrorView::RecoveryNeeded =>
                "backend recovered; accepted delivery still needs an outcome"@,
            AcpErrorView::Exited { phase, detail } => phase.rendered()
                + " failed: the child process exited ("@ + detail + ")"@,
            AcpErrorView::TransportClosed => "the ACP transport is closed"@,
            AcpErrorView::UnsupportedProtocol { got, supported } =>
                "the agent speaks protocol version "@ + decimal(got) + ", this adapter speaks "@
                + decimal(supported),
            AcpErrorView::Authentication { advertised } => "the agent requires authentication ("@
                + decimal(advertised) + " method(s) offered)"@,
            AcpErrorView::Frame(source) => "framing failed: "@ + source.rendered(),
            AcpErrorView::Protocol(source) => "JSON-RPC failed: "@ + source.rendered(),
            AcpErrorView::Schema { method, detail } => method + " returned a malformed payload: "@
                + detail,
            AcpErrorView::Agent(source) => "the agent rejected the request: "@ + source.rendered(),
            AcpErrorView::SessionId(detail) => "the agent returned an unusable session id: "@
                + detail,
            AcpErrorView::Storage(source) => "session storage failed: "@ + source.rendered(),
        }
    }

    /// Whether the backend itself is gone, so that the same backend cannot answer.
    pub open spec fn lost_backend(self) -> bool {
        self is Exited || self is TransportClosed
    }
}

/// A failure of the adapter.
#[derive(Debug, PartialEq)]
pub enum AcpError {
    /// The endpoint does not carry an ACP address, so it cannot be spawned.
    UnsupportedAddress { phase: Phase },
    /// The child process could not be started; the source is the system's words.
    Spawn { phase: Phase, source: String },
    /// A bounded wait elapsed.
    Timeout { phase: Phase },
    /// The bounded receiver of turn updates was not drained quickly enough.
    StreamBackpressure,
    /// The backend was restored, but the prompt in flight was not replayed.
    RecoveryNeeded,
    /// The child process ended before the step completed.
    Exited { phase: Phase, detail: String },
    /// The transport has no running child or loop any more.
    TransportClosed,
    /// The agent negotiated another protocol version.
    UnsupportedProtocol { got: u16, supported: u16 },
    /// The agent requires authentication that is not served.
    Authentication { advertised: usize },
    /// The byte layer failed.
    Frame { source: FrameError },
    /// The JSON-RPC layer failed.
    Protocol { source: ProtocolError },
    /// A payload did not match the schema.
    Schema { method: String, detail: String },
    /// The agent answered with an error object.
    Agent { source: JsonRpcErrorObject },
    /// The session identity is unusable.
    SessionId { detail: String },
    /// The durable session store failed.
    Storage { source: StorageError },
}

impl View for AcpError {
    type V = AcpErrorView;

    open spec fn view(&self) -> AcpErrorView {
        match self {
            AcpError::UnsupportedAddress { phase } => AcpErrorView::UnsupportedAddress {
                phase: *phase,
            },
            AcpError::Spawn { phase, source } => AcpErrorView::Spawn {
                phase: *phase,
                source: source@,
            },
            AcpError::Timeout { phase } => AcpErrorView::Timeout { phase: *phase },
            AcpError::StreamBackpressure => AcpErrorView::StreamBackpressure,
            AcpError::RecoveryNeeded => AcpErrorView::RecoveryNeeded,
            AcpError::Exited { phase, detail } => AcpErrorView::Exited {
                phase: *phase,
                detail: detail@,
            },
            AcpError::TransportClosed => AcpErrorView::TransportClosed,
            AcpError::UnsupportedProtocol { got, supported } => AcpErrorView::UnsupportedProtocol {
                got: *got as nat,
                supported: *supported as nat,
            },
            AcpError::Authentication { advertised } => AcpErrorView::Authentication {
                advertised: *advertised as nat,
            },
            AcpError::Frame { source } => AcpErrorView::Frame(source@),
            AcpError::Protocol { source } => AcpErrorView::Protocol(source@),
            AcpError::Schema { method, detail } => AcpErrorView::Schema {
                method: method@,
                detail: detail@,
            },
            AcpError::Agent { source } => AcpErrorView::Agent(source@),
            AcpError::SessionId { detail } => AcpErrorView::SessionId(detail@),
            AcpError::Storage { source } => AcpErrorView::Storage(source@),
        }
    }
}

impl AcpError {
    /// The failure in words.
    pub fn to_string(&self) -> (text: String)
        ensures
            text@ == self@.rendered(),
    {
        match self {
            AcpError::UnsupportedAddress { phase } => {
                concat2(phase.as_str(), ": the endpoint has no ACP address")
            },
            AcpError::Spawn { phase, source } => {
                concat3(phase.as_str(), " failed: ", source.as_str())
            },
            AcpError::Timeout { phase } => concat2(phase.as_str(), " timed out"),
            AcpError::StreamBackpressure => "turn update stream is full".to_owned(),
            AcpError::RecoveryNeeded => {
                "backend recovered; accepted delivery still needs an outcome".to_owned()
            },
            AcpError::Exited { phase, detail } => {
                let mut text = concat3(
                    phase.as_str(),
                    " failed: the child process exited (",
                    detail.as_str(),
                );
                text.append(")");
                text
            },
            AcpError::TransportClosed => "the ACP transport is closed".to_owned(),
            AcpError::UnsupportedProtocol { got, supported } => {
                let got_text = decimal_text(*got as u64);
                let supported_text = decimal_text(*supported as u64);
                let mut text = concat3(
                    "the agent speaks protocol version ",
                    got_text.as_str(),
                    ", this adapter speaks ",
                );
                text.append(supported_text.as_str());
                text
            },
            AcpError::Authentication { advertised } => {
                let count = decimal_text(*advertised as u64);
                concat3("the agent requires authentication (", count.as_str(), " method(s) offered)")
            },
            AcpError::Frame { source } => {
                let detail = source.to_string();
                concat2("framing failed: ", detail.as_str())
            },
            AcpError::Protocol { source } => {
                let detail = source.to_string();
                concat2("JSON-RPC failed: ", detail.as_str())
            },
            AcpError::Schema { method, detail } => {
                concat3(method.as_str(), " returned a malformed payload: ", detail.as_str())
            },
            AcpError::Agent { source } => {
                let detail = source.to_string();
                concat2("the agent rejected the request: ", detail.as_str())
            },
            AcpError::SessionId { detail } => {
                concat2("the agent returned an unusable session id: ", detail.as_str())
            },
            AcpError::Storage { source } => {
                let detail = source.to_string();
                concat2("session storage failed: ", detail.as_str())
            },
        }
    }

    /// Whether the backend itself is gone.
    pub fn is_lost_backend(&self) -> (yes: bool)
        ensures
            yes == self@.lost_backend(),
    {
        match self {
            AcpError::Exited { phase: _, detail: _ } => true,
            AcpError::TransportClosed => true,
            _ => false,
        }
    }
}

} // verus!
