//! Agents that live inside the bridge.

pub mod mock;
