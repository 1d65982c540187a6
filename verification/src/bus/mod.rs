//! The in-memory agent bus: submission, the worker that consumes it, and the
//! controls the worker obeys.

pub mod admission;
pub mod error;
pub mod registry;
pub mod control;
pub mod worker;
pub mod channel;
pub mod memory;
pub mod transition;
pub mod history;
pub mod fanout;
