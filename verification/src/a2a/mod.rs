//! The adapter for explicitly configured A2A peers on a trusted LAN. It polls: a
//! peer is asked for the state of a task until the task is over.

pub mod assembly;
pub mod cleanup;
pub mod client;
pub mod content;
pub mod dispatcher;
pub mod error;
pub mod identity;
pub mod ingress;
pub mod mapping;
pub mod policy;
pub mod polling;
pub mod projection;
pub mod replay;
pub mod server;
pub mod serving;
pub mod store;
pub mod wire;
