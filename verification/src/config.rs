//! The bridge's configuration, as loaded and validated.

use vstd::prelude::*;
use crate::models::TransportType;
use crate::net::SocketAddr;

verus! {

/// A secret that is never rendered.
#[derive(Clone, PartialEq, Eq)]
pub struct SecretString {
    value: String,
}

impl SecretString {
    /// The secret text.
    pub closed spec fn revealed(&self) -> Seq<char> {
        self.value@
    }

    /// Wraps a secret.
    pub fn new(value: String) -> (secret: SecretString)
        ensures
            secret.revealed() == value@,
    {
        SecretString { value }
    }

    /// The secret text, for the one place that must present it.
    pub fn expose(&self) -> (value: &str)
        ensures
            value@ == self.revealed(),
    {
        self.value.as_str()
    }
}

/// Limits of the bridge itself.
#[derive(Clone, PartialEq, Eq)]
pub struct BridgeConfig {
    /// Path of the database.
    pub database: String,
    /// Directory that holds agent sessions.
    pub session_root: String,
    /// Deepest task tree that is still delivered.
    pub max_task_depth: u32,
    /// Most agent-to-agent hops that are still delivered.
    pub max_task_hops: u32,
    /// Deadline given to a task that has none.
    pub default_timeout_seconds: u64,
    /// Capacity of the task queue.
    pub queue_capacity: usize,
    /// Capacity of the event buffer.
    pub event_capacity: usize,
    /// How long a component may take to stop.
    pub shutdown_timeout_seconds: u64,
    /// Where the health listener binds, if it does.
    pub health_bind: Option<SocketAddr>,
}

/// Limits of one agent's run.
#[derive(Debug, Clone, Copy, PartialEq, Eq, Structural)]
pub struct RuntimeConfig {
    /// Whether a turn without a structured result may end a task.
    pub allow_nonterminal_end_turn: bool,
    /// Most turns of one task.
    pub max_turns: u32,
    /// Longest wall time of one task.
    pub max_wall_seconds: u64,
    /// Longest silence of an agent.
    pub max_inactivity_seconds: u64,
    /// Most turns in a row without progress.
    pub max_no_progress: u32,
    /// Most output observed from one task.
    pub max_output_bytes: u64,
    /// How long a lease lasts.
    pub lease_ttl_seconds: u64,
}

/// A name and the agent it routes to.
#[derive(Clone, PartialEq, Eq)]
pub struct RouteEntry {
    /// An alias or a room.
    pub key: String,
    /// The agent.
    pub agent: String,
}

/// A room and the agents that share it.
#[derive(Clone, PartialEq, Eq)]
pub struct DirectEntry {
    /// The room.
    pub room: String,
    /// The agents.
    pub agents: Vec<String>,
}

/// Routes of the Matrix transport.
#[derive(Clone, PartialEq, Eq)]
pub struct MatrixRoutesConfig {
    /// Aliases, in ascending order.
    pub aliases: Vec<RouteEntry>,
    /// Rooms bound to one agent, in ascending order.
    pub rooms: Vec<RouteEntry>,
    /// Direct rooms, in ascending order.
    pub direct: Vec<DirectEntry>,
}

/// The Matrix transport.
#[derive(Clone, PartialEq, Eq)]
pub struct MatrixTransportConfig {
    /// Whether it is used.
    pub enabled: bool,
    /// The homeserver's address.
    pub homeserver: String,
    /// The bridge's user.
    pub user_id: String,
    /// The bridge's device.
    pub device_id: String,
    /// The bridge's token.
    pub access_token: SecretString,
    /// Room that observes every task; empty for none.
    pub monitor_room: String,
    /// Capacity of the buffer of incoming events.
    pub sync_capacity: usize,
    /// Users that may address agents.
    pub allowed_users: Vec<String>,
    /// Where messages go.
    pub routes: MatrixRoutesConfig,
    /// Users that may administer.
    pub admin_users: Vec<String>,
    /// Rooms administration is restricted to.
    pub admin_rooms: Vec<String>,
}

/// One configured A2A peer.
#[derive(Clone, PartialEq, Eq)]
pub struct A2aPeerConfig {
    /// Its address.
    pub url: String,
    /// The identity it must present.
    pub expected_peer_id: String,
    /// The token shared with it.
    pub token: SecretString,
    /// The endpoints it may address.
    pub allowed_targets: Vec<String>,
    /// Path of its private certificate authority, if it has one.
    pub private_ca: Option<String>,
    /// Whether its certificate goes unchecked.
    pub danger_accept_invalid_certs: bool,
}

/// A key and the peer configured under it.
#[derive(Clone, PartialEq, Eq)]
pub struct PeerEntry {
    /// The key.
    pub key: String,
    /// The peer.
    pub peer: A2aPeerConfig,
}

/// The A2A transport.
#[derive(Clone, PartialEq, Eq)]
pub struct A2aTransportConfig {
    /// Whether it is used.
    pub enabled: bool,
    /// Where it listens: a TCP socket, optionally after `tcp:`, or `unix:` and a
    /// path.
    pub listen: String,
    /// Whether a private address may be served without TLS.
    pub allow_private_plaintext: bool,
    /// Largest request or response body.
    pub max_body_bytes: usize,
    /// How long terminal content is kept.
    pub terminal_content_ttl_seconds: u64,
    /// Most terminal content that is kept.
    pub retained_bytes_ceiling: u64,
    /// What cleanup at startup gets it down to.
    pub retained_bytes_low_watermark: u64,
    /// Most exchanges cleaned at once.
    pub cleanup_batch: u32,
    /// Endpoints offered to peers.
    pub exposed_endpoints: Vec<String>,
    /// Configured peers, in ascending order of their keys.
    pub peers: Vec<PeerEntry>,
}

/// The gateway between bridges.
#[derive(Clone, PartialEq, Eq)]
pub struct GatewayTransportConfig {
    /// Whether it is used.
    pub enabled: bool,
}

/// Every transport.
#[derive(Clone, PartialEq, Eq)]
pub struct TransportsConfig {
    /// Matrix.
    pub matrix: MatrixTransportConfig,
    /// A2A.
    pub a2a: A2aTransportConfig,
    /// The gateway.
    pub gateway: GatewayTransportConfig,
}

/// One declared agent.
#[derive(Clone, PartialEq, Eq)]
pub struct AgentEndpointConfig {
    /// How it is reached.
    pub transport: TransportType,
    /// The program of an ACP agent.
    pub command: Option<String>,
    /// The program's arguments.
    pub args: Vec<String>,
    /// Whether tasks may be sent to it.
    pub enabled: bool,
    /// The directory it works in.
    pub workspace: Option<String>,
    /// Further directories it may use.
    pub additional_workspaces: Vec<String>,
    /// The key of an A2A agent's peer.
    pub peer: Option<String>,
}

/// An agent id and what is declared under it.
#[derive(Clone, PartialEq, Eq)]
pub struct AgentEntry {
    /// The id.
    pub agent_id: String,
    /// The declaration.
    pub declared: AgentEndpointConfig,
}

/// The whole configuration.
#[derive(Clone, PartialEq, Eq)]
pub struct Config {
    /// The bridge.
    pub bridge: BridgeConfig,
    /// Agent runs.
    pub runtime: RuntimeConfig,
    /// The transports.
    pub transports: TransportsConfig,
    /// The agents, in ascending order of their ids.
    pub agents: Vec<AgentEntry>,
}

/// No id is declared twice.
pub open spec fn distinct_agents(agents: Seq<AgentEntry>) -> bool {
    forall|i: int, j: int|
        0 <= i < j < agents.len() ==> #[trigger] agents[i].agent_id@ != #[trigger] agents[j].agent_id@
}

} // verus!
