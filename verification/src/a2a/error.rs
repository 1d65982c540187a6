//! Failures of the A2A adapter. None of them holds a credential or a body.

use vstd::prelude::*;
use vstd::string::*;

use crate::text::concat2;

verus! {

/// A failure as data.
pub ghost enum A2aErrorView {
    Config(Seq<char>),
    Unauthorized,
    Unsupported,
    Protocol(Seq<char>),
    TooLarge,
    Conflict,
    AcceptanceUnknown,
    RecoveryNeeded,
    Storage,
    Network,
}

impl A2aErrorView {
    /// The failure in words.
    pub open spec fn rendered(self) -> Seq<char> {
        match self {
            A2aErrorView::Config(detail) => "invalid A2A configuration: "@ + detail,
            A2aErrorView::Unauthorized => "A2A authentication failed"@,
            A2aErrorView::Unsupported => "unsupported A2A protocol or method"@,
            A2aErrorView::Protocol(detail) => "invalid A2A request: "@ + detail,
            A2aErrorView::TooLarge => "A2A request exceeds configured bounds"@,
            A2aErrorView::Conflict => "A2A request conflicts with an existing idempotency key"@,
            A2aErrorView::AcceptanceUnknown => "A2A remote acceptance is unknown"@,
            A2aErrorView::RecoveryNeeded => "A2A recovery requires operator action"@,
            A2aErrorView::Storage => "A2A storage operation failed"@,
            A2aErrorView::Network => "A2A network operation failed"@,
        }
    }
}

/// A failure of the adapter.
#[derive(Debug, Clone, Copy, PartialEq, Eq)]
pub enum A2aError {
    /// The configuration cannot be used.
    Config(&'static str),
    /// The peer's credential was not accepted.
    Unauthorized,
    /// The protocol version, the method or the content is not served.
    Unsupported,
    /// The request or the answer is not what it must be.
    Protocol(&'static str),
    /// A bound was exceeded.
    TooLarge,
    /// The request id was used for another request.
    Conflict,
    /// Nobody knows whether the peer accepted the task.
    AcceptanceUnknown,
    /// Someone has to look.
    RecoveryNeeded,
    /// The store failed.
    Storage,
    /// The network failed.
    Network,
}

impl View for A2aError {
    type V = A2aErrorView;

    open spec fn view(&self) -> A2aErrorView {
        match self {
            A2aError::Config(detail) => A2aErrorView::Config(detail@),
            A2aError::Unauthorized => A2aErrorView::Unauthorized,
            A2aError::Unsupported => A2aErrorView::Unsupported,
            A2aError::Protocol(detail) => A2aErrorView::Protocol(detail@),
            A2aError::TooLarge => A2aErrorView::TooLarge,
            A2aError::Conflict => A2aErrorView::Conflict,
            A2aError::AcceptanceUnknown => A2aErrorView::AcceptanceUnknown,
            A2aError::RecoveryNeeded => A2aErrorView::RecoveryNeeded,
            A2aError::Storage => A2aErrorView::Storage,
            A2aError::Network => A2aErrorView::Network,
        }
    }
}

impl A2aError {
    /// The failure in words.
    pub fn to_string(&self) -> (text: String)
        ensures
            text@ == self@.rendered(),
    {
        match self {
            A2aError::Config(detail) => concat2("invalid A2A configuration: ", detail),
            A2aError::Unauthorized => "A2A authentication failed".to_owned(),
            A2aError::Unsupported => "unsupported A2A protocol or method".to_owned(),
            A2aError::Protocol(detail) => concat2("invalid A2A request: ", detail),
            A2aError::TooLarge => "A2A request exceeds configured bounds".to_owned(),
            A2aError::Conflict => {
                "A2A request conflicts with an existing idempotency key".to_owned()
            },
            A2aError::AcceptanceUnknown => "A2A remote acceptance is unknown".to_owned(),
            A2aError::RecoveryNeeded => "A2A recovery requires operator action".to_owned(),
            A2aError::Storage => "A2A storage operation failed".to_owned(),
            A2aError::Network => "A2A network operation failed".to_owned(),
        }
    }
}

} // verus!
