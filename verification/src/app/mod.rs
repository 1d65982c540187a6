//! Assembly of the bridge and the life of its parts.

pub mod admission;
pub mod dispatcher;
pub mod error;
pub mod exposition;
pub mod gateway_handoff;
pub mod health;
pub mod ingress;
pub mod outbox;
pub mod projection;
pub mod recovery;
pub mod reload;
pub mod retry;
pub mod runtime;
pub mod shutdown;
