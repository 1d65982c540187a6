//! A bridge that carries tasks between agents: an in-memory bus with a bounded
//! worker, an adapter for agents that speak the Agent Client Protocol over stdio,
//! an adapter for A2A peers on a trusted LAN, and the decisions of the process
//! that assembles them.
//!
//! The crate holds the decisions. Reading, sending, waiting and storing are left
//! to the program that embeds it: it performs the action a function returns and
//! hands back what came of it.

pub mod text;
pub mod time;
pub mod ids;
pub mod models;
pub mod net;
pub mod path;
pub mod json;
pub mod config;
pub mod storage;
pub mod bus;
pub mod agents;
pub mod acp;
pub mod a2a;
pub mod app;
