//! What travels between the bridge and its A2A peers.

use vstd::prelude::*;

use crate::json::Json;

verus! {

/// The protocol version that is spoken, and the only one.
pub const PROTOCOL_VERSION: &'static str = "0.3";

/// Where a task of a peer stands.
#[derive(Debug, Clone, Copy, PartialEq, Eq, Structural)]
pub enum TaskState {
    Submitted,
    Working,
    InputRequired,
    Completed,
    Canceled,
    Failed,
    Rejected,
    AuthRequired,
}

/// Who wrote a message.
#[derive(Debug, Clone, Copy, PartialEq, Eq, Structural)]
pub enum Role {
    User,
    Agent,
}

/// One part of a message or an artifact.
#[derive(Debug, PartialEq)]
pub enum Part {
    /// Text.
    Text { text: String },
    /// A structured value.
    Data { data: Json },
    /// A file carried in the part itself.
    FileInline { mime_type: String, data: String },
    /// A file elsewhere.
    FileUri { mime_type: String, uri: String },
}

/// A message.
#[derive(Debug, PartialEq)]
pub struct Message {
    pub message_id: String,
    pub role: Role,
    pub parts: Vec<Part>,
}

/// A result of a task.
#[derive(Debug, PartialEq)]
pub struct Artifact {
    pub artifact_id: String,
    pub name: Option<String>,
    pub description: Option<String>,
    pub parts: Vec<Part>,
}

/// A task as a peer sees it.
#[derive(Debug, PartialEq)]
pub struct TaskSnapshot {
    pub id: String,
    pub context_id: String,
    pub status: TaskState,
    pub artifacts: Vec<Artifact>,
    pub metadata: Option<Json>,
}

/// Parameters of `message/send`.
#[derive(Debug, PartialEq)]
pub struct SendParams {
    pub protocol_version: String,
    pub request_id: String,
    pub context_id: String,
    pub message: Message,
}

/// Parameters of `tasks/get` and `tasks/cancel`.
#[derive(Debug, Clone, PartialEq, Eq)]
pub struct TaskQuery {
    pub protocol_version: String,
    pub task_id: String,
}

/// A request of a peer.
#[derive(Debug, PartialEq)]
pub struct JsonRpcRequest {
    pub jsonrpc: String,
    pub id: Json,
    pub method: String,
    pub params: Json,
}

/// Why a request failed.
#[derive(Debug, Clone, PartialEq, Eq)]
pub struct JsonRpcError {
    pub code: i32,
    pub message: String,
}

/// The answer to a request.
#[derive(Debug, PartialEq)]
pub struct JsonRpcResponse {
    pub jsonrpc: String,
    pub id: Json,
    pub result: Option<Json>,
    pub error: Option<JsonRpcError>,
}

/// What an agent can do beyond answering.
#[derive(Debug, Clone, Copy, PartialEq, Eq, Structural)]
pub struct Capabilities {
    pub streaming: bool,
    pub push_notifications: bool,
}

/// Something an agent can be asked for.
#[derive(Debug, Clone, PartialEq, Eq)]
pub struct Skill {
    pub id: String,
    pub name: String,
    pub description: String,
}

/// How an agent introduces itself.
#[derive(Debug, Clone, PartialEq, Eq)]
pub struct AgentCard {
    pub name: String,
    pub description: String,
    pub url: String,
    pub protocol_version: String,
    pub capabilities: Capabilities,
    pub skills: Vec<Skill>,
}

} // verus!
