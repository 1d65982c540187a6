//! Taking a changed configuration over while the bridge runs.
//!
//! Routes, permissions and the monitored room can change under way. What the bridge
//! was assembled from cannot: a change there asks for a restart. Whatever is refused
//! leaves the active configuration as it is.

use vstd::prelude::*;
use vstd::string::*;

use crate::acp::result::optional;
use crate::bus::registry::copy_texts;
use crate::bus::registry::declared_endpoint;
use crate::bus::registry::with_agent_id;
use crate::bus::registry::EndpointRegistry;
use crate::bus::registry::EndpointView;
use crate::config::AgentEntry;
use crate::config::BridgeConfig;
use crate::config::Config;
use crate::config::DirectEntry;
use crate::config::RouteEntry;
use crate::config::RuntimeConfig;
use crate::models::TransportType;
use crate::net::SocketAddr;
use crate::path::all_components;
use crate::path::components;
use crate::path::same_path;
use crate::path::same_paths;
use crate::path::PathView;
use crate::text::same_text;
use crate::text::same_texts;
use crate::text::views;

verus! {

/// Why a configuration was not taken over.
#[derive(Debug, Clone, Copy, PartialEq, Eq, Structural)]
pub enum ReloadError {
    /// It could not be loaded.
    Config,
    /// It routes to an agent that cannot be routed to.
    Policy,
    /// The bridge is stopping.
    Stopping,
}

impl ReloadError {
    /// The failure in words.
    pub open spec fn rendered(self) -> Seq<char> {
        match self {
            ReloadError::Config => "configuration reload failed"@,
            ReloadError::Policy => "configuration policy is invalid"@,
            ReloadError::Stopping => "configuration reload is stopping"@,
        }
    }

    /// The failure in words.
    pub fn to_string(&self) -> (text: String)
        ensures
            text@ == self.rendered(),
    {
        match self {
            ReloadError::Config => "configuration reload failed".to_owned(),
            ReloadError::Policy => "configuration policy is invalid".to_owned(),
            ReloadError::Stopping => "configuration reload is stopping".to_owned(),
        }
    }
}

/// Where messages go.
#[derive(Clone, PartialEq, Eq)]
pub struct RoutePolicy {
    /// Aliases and the agents they stand for.
    pub aliases: Vec<RouteEntry>,
    /// Rooms and the agents they are bound to.
    pub rooms: Vec<RouteEntry>,
    /// Direct rooms and the agents that share them.
    pub direct: Vec<DirectEntry>,
}

/// Who may address agents.
#[derive(Debug, Clone, PartialEq, Eq)]
pub struct PermissionPolicy {
    pub users: Vec<String>,
}

/// Who may administer, and where.
#[derive(Debug, Clone, PartialEq, Eq)]
pub struct AdminPermissionPolicy {
    pub users: Vec<String>,
    pub rooms: Vec<String>,
}

/// What can change under way.
#[derive(Clone, PartialEq, Eq)]
pub struct HotConfig {
    pub route: RoutePolicy,
    pub permissions: PermissionPolicy,
    pub admin: AdminPermissionPolicy,
    pub monitor_room: Option<String>,
}

/// Routes as data.
pub open spec fn route_views(routes: Seq<RouteEntry>) -> Seq<(Seq<char>, Seq<char>)> {
    routes.map_values(|route: RouteEntry| (route.key@, route.agent@))
}

/// Direct rooms as data.
pub open spec fn direct_views(rooms: Seq<DirectEntry>) -> Seq<(Seq<char>, Seq<Seq<char>>)> {
    rooms.map_values(|entry: DirectEntry| (entry.room@, views(entry.agents@)))
}

/// What can change under way, as data.
pub ghost struct HotView {
    pub aliases: Seq<(Seq<char>, Seq<char>)>,
    pub rooms: Seq<(Seq<char>, Seq<char>)>,
    pub direct: Seq<(Seq<char>, Seq<Seq<char>>)>,
    pub users: Seq<Seq<char>>,
    pub admin_users: Seq<Seq<char>>,
    pub admin_rooms: Seq<Seq<char>>,
    pub monitor_room: Option<Seq<char>>,
}

impl View for HotConfig {
    type V = HotView;

    open spec fn view(&self) -> HotView {
        HotView {
            aliases: route_views(self.route.aliases@),
            rooms: route_views(self.route.rooms@),
            direct: direct_views(self.route.direct@),
            users: views(self.permissions.users@),
            admin_users: views(self.admin.users@),
            admin_rooms: views(self.admin.rooms@),
            monitor_room: optional(self.monitor_room),
        }
    }
}

/// What can change under way in a configuration. An empty room monitors nothing.
pub open spec fn hot_of(config: Config) -> HotView {
    let matrix = config.transports.matrix;
    HotView {
        aliases: route_views(matrix.routes.aliases@),
        rooms: route_views(matrix.routes.rooms@),
        direct: direct_views(matrix.routes.direct@),
        users: views(matrix.allowed_users@),
        admin_users: views(matrix.admin_users@),
        admin_rooms: views(matrix.admin_rooms@),
        monitor_room: if matrix.monitor_room@.len() == 0 {
            None
        } else {
            Some(matrix.monitor_room@)
        },
    }
}

/// Whether an agent can be routed to: it is declared, enabled and has an address.
pub open spec fn routable(registry: Seq<EndpointView>, agent: Seq<char>) -> bool {
    with_agent_id(registry, agent) matches Some(endpoint) && endpoint.enabled
        && endpoint.address is Some
}

/// Whether every route goes to an agent that can be routed to.
pub open spec fn all_routable(registry: Seq<EndpointView>, hot: HotView) -> bool {
    &&& forall|i: int| 0 <= i < hot.aliases.len() ==> routable(registry, (#[trigger] hot.aliases[i]).1)
    &&& forall|i: int| 0 <= i < hot.rooms.len() ==> routable(registry, (#[trigger] hot.rooms[i]).1)
    &&& forall|i: int, k: int|
        0 <= i < hot.direct.len() && 0 <= k < hot.direct[i].1.len() ==> routable(
            registry,
            #[trigger] hot.direct[i].1[k],
        )
}

/// Whether an agent can be routed to.
pub fn validate_target(registry: &EndpointRegistry, agent: &str) -> (valid: Result<
    (),
    ReloadError,
>)
    ensures
        valid is Ok <==> routable(registry@, agent@),
        valid matches Err(error) ==> error is Policy,
{
    match registry.get_by_agent_id(agent) {
        None => Err(ReloadError::Policy),
        Some(endpoint) => if !endpoint.is_enabled() || !endpoint.is_addressable() {
            Err(ReloadError::Policy)
        } else {
            Ok(())
        },
    }
}

/// Copy routes whose agents can be routed to.
fn checked_routes(routes: &Vec<RouteEntry>, registry: &EndpointRegistry) -> (copy: Result<
    Vec<RouteEntry>,
    ReloadError,
>)
    ensures
        match copy {
            Ok(copy) => route_views(copy@) == route_views(routes@) && forall|i: int|
                0 <= i < routes@.len() ==> routable(registry@, (#[trigger] routes@[i]).agent@),
            Err(error) => error is Policy && exists|i: int|
                0 <= i < routes@.len() && !routable(registry@, (#[trigger] routes@[i]).agent@),
        },
{
    let mut copy: Vec<RouteEntry> = Vec::new();
    let mut i: usize = 0;
    while i < routes.len()
        invariant
            i <= routes@.len(),
            copy@.len() == i,
            forall|k: int|
                0 <= k < i ==> (#[trigger] copy@[k]).key@ == routes@[k].key@ && copy@[k].agent@
                    == routes@[k].agent@,
            forall|k: int| 0 <= k < i ==> routable(registry@, (#[trigger] routes@[k]).agent@),
        decreases routes@.len() - i,
    {
        match validate_target(registry, routes[i].agent.as_str()) {
            Ok(()) => {},
            Err(error) => {
                assert(!routable(registry@, routes@[i as int].agent@));
                return Err(error);
            },
        }
        copy.push(RouteEntry { key: routes[i].key.clone(), agent: routes[i].agent.clone() });
        i = i + 1;
    }
    assert(route_views(copy@) =~= route_views(routes@));
    Ok(copy)
}

/// Whether all agents can be routed to.
fn check_agents(agents: &Vec<String>, registry: &EndpointRegistry) -> (valid: Result<
    (),
    ReloadError,
>)
    ensures
        match valid {
            Ok(_) => forall|i: int|
                0 <= i < agents@.len() ==> routable(registry@, (#[trigger] agents@[i])@),
            Err(error) => error is Policy && exists|i: int|
                0 <= i < agents@.len() && !routable(registry@, (#[trigger] agents@[i])@),
        },
{
    let mut i: usize = 0;
    while i < agents.len()
        invariant
            i <= agents@.len(),
            forall|k: int| 0 <= k < i ==> routable(registry@, (#[trigger] agents@[k])@),
        decreases agents@.len() - i,
    {
        match validate_target(registry, agents[i].as_str()) {
            Ok(()) => {},
            Err(error) => {
                assert(!routable(registry@, agents@[i as int]@));
                return Err(error);
            },
        }
        i = i + 1;
    }
    Ok(())
}

/// Copy direct rooms whose agents can be routed to.
fn checked_direct(rooms: &Vec<DirectEntry>, registry: &EndpointRegistry) -> (copy: Result<
    Vec<DirectEntry>,
    ReloadError,
>)
    ensures
        match copy {
            Ok(copy) => direct_views(copy@) == direct_views(rooms@) && forall|i: int, k: int|
                0 <= i < rooms@.len() && 0 <= k < rooms@[i].agents@.len() ==> routable(
                    registry@,
                    (#[trigger] rooms@[i].agents@[k])@,
                ),
            Err(error) => error is Policy && exists|i: int, k: int|
                0 <= i < rooms@.len() && 0 <= k < rooms@[i].agents@.len() && !routable(
                    registry@,
                    (#[trigger] rooms@[i].agents@[k])@,
                ),
        },
{
    let mut copy: Vec<DirectEntry> = Vec::new();
    let mut i: usize = 0;
    while i < rooms.len()
        invariant
            i <= rooms@.len(),
            copy@.len() == i,
            forall|j: int|
                0 <= j < i ==> (#[trigger] copy@[j]).room@ == rooms@[j].room@ && views(
                    copy@[j].agents@,
                ) == views(rooms@[j].agents@),
            forall|j: int, k: int|
                0 <= j < i && 0 <= k < rooms@[j].agents@.len() ==> routable(
                    registry@,
                    (#[trigger] rooms@[j].agents@[k])@,
                ),
        decreases rooms@.len() - i,
    {
        match check_agents(&rooms[i].agents, registry) {
            Ok(()) => {},
            Err(error) => {
                proof {
                    let agents = rooms@[i as int].agents@;
                    let k = choose|k: int|
                        0 <= k < agents.len() && !routable(registry@, (#[trigger] agents[k])@);
                    assert(!routable(registry@, rooms@[i as int].agents@[k]@));
                }
                return Err(error);
            },
        }
        copy.push(
            DirectEntry { room: rooms[i].room.clone(), agents: copy_texts(&rooms[i].agents) },
        );
        i = i + 1;
    }
    assert(direct_views(copy@) =~= direct_views(rooms@));
    Ok(copy)
}

impl HotConfig {
    /// What can change under way in `config`, where every route goes to an agent that
    /// can be routed to.
    pub fn build(config: &Config, registry: &EndpointRegistry) -> (hot: Result<
        HotConfig,
        ReloadError,
    >)
        ensures
            match hot {
                Ok(hot) => all_routable(registry@, hot_of(*config)) && hot@ == hot_of(*config),
                Err(error) => !all_routable(registry@, hot_of(*config)) && error is Policy,
            },
    {
        let matrix = &config.transports.matrix;
        let ghost hot = hot_of(*config);
        proof {
            assert forall|i: int| 0 <= i < hot.aliases.len() implies (#[trigger] hot.aliases[i]).1
                == matrix.routes.aliases@[i].agent@ by {}
            assert forall|i: int| 0 <= i < hot.rooms.len() implies (#[trigger] hot.rooms[i]).1
                == matrix.routes.rooms@[i].agent@ by {}
            assert forall|i: int, k: int|
                0 <= i < hot.direct.len() && 0 <= k
                    < hot.direct[i].1.len() implies #[trigger] hot.direct[i].1[k]
                == matrix.routes.direct@[i].agents@[k]@ by {}
        }
        let aliases = match checked_routes(&matrix.routes.aliases, registry) {
            Ok(routes) => routes,
            Err(error) => {
                proof {
                    let routes = matrix.routes.aliases@;
                    let i = choose|i: int|
                        0 <= i < routes.len() && !routable(registry@, (#[trigger] routes[i]).agent@);
                    assert(!routable(registry@, hot.aliases[i].1));
                }
                return Err(error);
            },
        };
        let rooms = match checked_routes(&matrix.routes.rooms, registry) {
            Ok(routes) => routes,
            Err(error) => {
                proof {
                    let routes = matrix.routes.rooms@;
                    let i = choose|i: int|
                        0 <= i < routes.len() && !routable(registry@, (#[trigger] routes[i]).agent@);
                    assert(!routable(registry@, hot.rooms[i].1));
                }
                return Err(error);
            },
        };
        let direct = match checked_direct(&matrix.routes.direct, registry) {
            Ok(rooms) => rooms,
            Err(error) => {
                proof {
                    let list = matrix.routes.direct@;
                    let (i, k) = choose|i: int, k: int|
                        0 <= i < list.len() && 0 <= k < list[i].agents@.len() && !routable(
                            registry@,
                            (#[trigger] list[i].agents@[k])@,
                        );
                    assert(!routable(registry@, hot.direct[i].1[k]));
                }
                return Err(error);
            },
        };
        let monitor_room = if matrix.monitor_room.as_str().unicode_len() == 0 {
            None
        } else {
            Some(matrix.monitor_room.clone())
        };
        proof {
            assert forall|i: int| 0 <= i < hot.aliases.len() implies routable(
                registry@,
                (#[trigger] hot.aliases[i]).1,
            ) by {
                assert(routable(registry@, matrix.routes.aliases@[i].agent@));
            }
            assert forall|i: int| 0 <= i < hot.rooms.len() implies routable(
                registry@,
                (#[trigger] hot.rooms[i]).1,
            ) by {
                assert(routable(registry@, matrix.routes.rooms@[i].agent@));
            }
            assert forall|i: int, k: int|
                0 <= i < hot.direct.len() && 0 <= k < hot.direct[i].1.len() implies routable(
                registry@,
                #[trigger] hot.direct[i].1[k],
            ) by {
                assert(routable(registry@, matrix.routes.direct@[i].agents@[k]@));
            }
        }
        Ok(
            HotConfig {
                route: RoutePolicy { aliases, rooms, direct },
                permissions: PermissionPolicy { users: copy_texts(&matrix.allowed_users) },
                admin: AdminPermissionPolicy {
                    users: copy_texts(&matrix.admin_users),
                    rooms: copy_texts(&matrix.admin_rooms),
                },
                monitor_room,
            },
        )
    }
}

/// The components of a path, where there is one.
pub open spec fn optional_path(path: Option<String>) -> Option<PathView> {
    match path {
        Some(path) => Some(components(path@)),
        None => None,
    }
}

/// An agent's declaration, as data.
pub ghost struct DeclaredView {
    pub agent_id: Seq<char>,
    pub transport: TransportType,
    pub command: Option<Seq<char>>,
    pub args: Seq<Seq<char>>,
    pub enabled: bool,
    pub workspace: Option<PathView>,
    pub additional_workspaces: Seq<PathView>,
    pub peer: Option<Seq<char>>,
}

/// An agent's declaration, as data.
pub open spec fn declared(entry: AgentEntry) -> DeclaredView {
    DeclaredView {
        agent_id: entry.agent_id@,
        transport: entry.declared.transport,
        command: optional(entry.declared.command),
        args: views(entry.declared.args@),
        enabled: entry.declared.enabled,
        workspace: optional_path(entry.declared.workspace),
        additional_workspaces: all_components(entry.declared.additional_workspaces@),
        peer: optional(entry.declared.peer),
    }
}

/// The bridge's own limits, as data.
pub ghost struct BridgeView {
    pub database: PathView,
    pub session_root: PathView,
    pub max_task_depth: u32,
    pub max_task_hops: u32,
    pub default_timeout_seconds: u64,
    pub queue_capacity: usize,
    pub event_capacity: usize,
    pub shutdown_timeout_seconds: u64,
    pub health_bind: Option<SocketAddr>,
}

/// The bridge's own limits, as data.
pub open spec fn bridge_view(bridge: BridgeConfig) -> BridgeView {
    BridgeView {
        database: components(bridge.database@),
        session_root: components(bridge.session_root@),
        max_task_depth: bridge.max_task_depth,
        max_task_hops: bridge.max_task_hops,
        default_timeout_seconds: bridge.default_timeout_seconds,
        queue_capacity: bridge.queue_capacity,
        event_capacity: bridge.event_capacity,
        shutdown_timeout_seconds: bridge.shutdown_timeout_seconds,
        health_bind: bridge.health_bind,
    }
}

/// What the bridge was assembled from: a change in it asks for a restart.
pub ghost struct RestartView {
    pub bridge: BridgeView,
    pub enabled: bool,
    pub homeserver: Seq<char>,
    pub user_id: Seq<char>,
    pub access_token: Seq<char>,
    pub sync_capacity: usize,
    pub runtime: RuntimeConfig,
    pub agents: Seq<DeclaredView>,
}

/// What the bridge is assembled from in a configuration.
pub open spec fn restart_projection(config: Config) -> RestartView {
    let matrix = config.transports.matrix;
    RestartView {
        bridge: bridge_view(config.bridge),
        enabled: matrix.enabled,
        homeserver: matrix.homeserver@,
        user_id: matrix.user_id@,
        access_token: matrix.access_token.revealed(),
        sync_capacity: matrix.sync_capacity,
        runtime: config.runtime,
        agents: config.agents@.map_values(|entry: AgentEntry| declared(entry)),
    }
}

/// Whether two optional texts are the same.
fn same_optional(a: &Option<String>, b: &Option<String>) -> (same: bool)
    ensures
        same == (optional(*a) == optional(*b)),
{
    match (a, b) {
        (Some(a), Some(b)) => same_text(a.as_str(), b.as_str()),
        (None, None) => true,
        _ => false,
    }
}

/// Whether two optional paths have the same components.
fn same_optional_path(a: &Option<String>, b: &Option<String>) -> (same: bool)
    ensures
        same == (optional_path(*a) == optional_path(*b)),
{
    match (a, b) {
        (Some(a), Some(b)) => same_path(a.as_str(), b.as_str()),
        (None, None) => true,
        _ => false,
    }
}

/// Whether two addresses are the same.
fn same_bind(a: &Option<SocketAddr>, b: &Option<SocketAddr>) -> (same: bool)
    ensures
        same == (a == b),
{
    match (a, b) {
        (Some(a), Some(b)) => *a == *b,
        (None, None) => true,
        _ => false,
    }
}

/// Whether two declarations are the same.
fn same_entry(a: &AgentEntry, b: &AgentEntry) -> (same: bool)
    ensures
        same == (declared(*a) == declared(*b)),
{
    same_text(a.agent_id.as_str(), b.agent_id.as_str()) && a.declared.transport
        == b.declared.transport && same_optional(&a.declared.command, &b.declared.command)
        && same_texts(&a.declared.args, &b.declared.args) && a.declared.enabled
        == b.declared.enabled && same_optional_path(&a.declared.workspace, &b.declared.workspace)
        && same_paths(&a.declared.additional_workspaces, &b.declared.additional_workspaces)
        && same_optional(&a.declared.peer, &b.declared.peer)
}

/// Whether two bridges have the same limits.
fn same_bridge(a: &BridgeConfig, b: &BridgeConfig) -> (same: bool)
    ensures
        same == (bridge_view(*a) == bridge_view(*b)),
{
    same_path(a.database.as_str(), b.database.as_str()) && same_path(
        a.session_root.as_str(),
        b.session_root.as_str(),
    ) && a.max_task_depth == b.max_task_depth && a.max_task_hops == b.max_task_hops
        && a.default_timeout_seconds == b.default_timeout_seconds && a.queue_capacity
        == b.queue_capacity && a.event_capacity == b.event_capacity && a.shutdown_timeout_seconds
        == b.shutdown_timeout_seconds && same_bind(&a.health_bind, &b.health_bind)
}

/// Whether two lists of agents are the same.
fn same_agents(a: &Vec<AgentEntry>, b: &Vec<AgentEntry>) -> (same: bool)
    ensures
        same == (a@.map_values(|entry: AgentEntry| declared(entry)) == b@.map_values(
            |entry: AgentEntry| declared(entry),
        )),
{
    let ghost left = a@.map_values(|entry: AgentEntry| declared(entry));
    let ghost right = b@.map_values(|entry: AgentEntry| declared(entry));
    if a.len() != b.len() {
        assert(left.len() != right.len());
        return false;
    }
    let mut i: usize = 0;
    while i < a.len()
        invariant
            i <= a@.len(),
            a@.len() == b@.len(),
            left == a@.map_values(|entry: AgentEntry| declared(entry)),
            right == b@.map_values(|entry: AgentEntry| declared(entry)),
            forall|k: int| 0 <= k < i ==> #[trigger] left[k] == right[k],
        decreases a@.len() - i,
    {
        if !same_entry(&a[i], &b[i]) {
            assert(left[i as int] != right[i as int]);
            return false;
        }
        i = i + 1;
    }
    assert(left =~= right);
    true
}

/// Whether a bridge that was assembled from `a` need not be assembled anew for `b`.
pub fn same_assembly(a: &Config, b: &Config) -> (same: bool)
    ensures
        same == (restart_projection(*a) == restart_projection(*b)),
{
    let left = &a.transports.matrix;
    let right = &b.transports.matrix;
    same_bridge(&a.bridge, &b.bridge) && left.enabled == right.enabled && same_text(
        left.homeserver.as_str(),
        right.homeserver.as_str(),
    ) && same_text(left.user_id.as_str(), right.user_id.as_str()) && same_text(
        left.access_token.expose(),
        right.access_token.expose(),
    ) && left.sync_capacity == right.sync_capacity && a.runtime == b.runtime && same_agents(
        &a.agents,
        &b.agents,
    )
}

/// What a reload came to.
#[derive(Debug, Clone, Copy, PartialEq, Eq, Structural)]
pub enum ReloadOutcome {
    /// It was taken over, as this generation.
    Applied { generation: u64 },
    /// It asks for a restart.
    RestartRequired,
}

/// What is active of what can change under way.
#[derive(Clone, PartialEq, Eq)]
pub struct ActiveSnapshot {
    /// How often a configuration was taken over, counted from 1.
    pub generation: u64,
    pub hot: HotConfig,
}

/// The active configuration.
pub struct ReloadController {
    active_config: Config,
    active: ActiveSnapshot,
    stopping: bool,
}

/// The endpoints that a configuration declares.
pub open spec fn endpoints_of(config: Config) -> Seq<EndpointView> {
    config.agents@.map_values(|entry: AgentEntry| declared_endpoint(entry))
}

/// What a reload of `candidate` comes to, where `active` is the active configuration.
pub open spec fn reload_result(
    stopping: bool,
    active: Config,
    generation: u64,
    candidate: Option<Config>,
) -> Result<ReloadOutcome, ReloadError> {
    if stopping {
        Err(ReloadError::Stopping)
    } else {
        match candidate {
            None => Err(ReloadError::Config),
            Some(candidate) => if restart_projection(candidate) != restart_projection(active) {
                Ok(ReloadOutcome::RestartRequired)
            } else if !all_routable(endpoints_of(active), hot_of(candidate)) {
                Err(ReloadError::Policy)
            } else {
                Ok(
                    ReloadOutcome::Applied {
                        generation: if generation == u64::MAX {
                            generation
                        } else {
                            (generation + 1) as u64
                        },
                    },
                )
            },
        }
    }
}

impl ReloadController {
    /// The active configuration.
    pub closed spec fn active(&self) -> Config {
        self.active_config
    }

    /// How often a configuration was taken over, counted from 1.
    pub closed spec fn generation(&self) -> u64 {
        self.active.generation
    }

    /// What is active of what can change under way.
    pub closed spec fn hot(&self) -> HotView {
        self.active.hot@
    }

    /// Whether the bridge is stopping.
    pub closed spec fn is_stopping(&self) -> bool {
        self.stopping
    }

    /// Begin with a configuration.
    pub fn new(config: Config) -> (controller: Result<ReloadController, ReloadError>)
        ensures
            match controller {
                Ok(controller) => {
                    &&& all_routable(endpoints_of(config), hot_of(config))
                    &&& controller.active() == config
                    &&& controller.generation() == 1
                    &&& controller.hot() == hot_of(config)
                    &&& !controller.is_stopping()
                },
                Err(error) => !all_routable(endpoints_of(config), hot_of(config))
                    && error is Policy,
            },
    {
        let registry = EndpointRegistry::from_config(&config);
        match HotConfig::build(&config, &registry) {
            Ok(hot) => Ok(
                ReloadController {
                    active_config: config,
                    active: ActiveSnapshot { generation: 1, hot },
                    stopping: false,
                },
            ),
            Err(error) => Err(error),
        }
    }

    /// What is active of what can change under way, and as which generation.
    pub fn snapshot(&self) -> (snapshot: &ActiveSnapshot)
        ensures
            snapshot.generation == self.generation(),
            snapshot.hot@ == self.hot(),
    {
        &self.active
    }

    /// Take nothing over any more.
    pub fn stop(&mut self)
        ensures
            final(self).is_stopping(),
            final(self).active() == old(self).active(),
            final(self).generation() == old(self).generation(),
            final(self).hot() == old(self).hot(),
    {
        self.stopping = true;
    }

    /// Take a configuration over, where it can be. `candidate` is none where it could
    /// not be loaded.
    pub fn reload(&mut self, candidate: Option<Config>) -> (outcome: Result<
        ReloadOutcome,
        ReloadError,
    >)
        ensures
            outcome == reload_result(
                old(self).is_stopping(),
                old(self).active(),
                old(self).generation(),
                candidate,
            ),
            final(self).is_stopping() == old(self).is_stopping(),
            match outcome {
                Ok(ReloadOutcome::Applied { generation }) => {
                    &&& final(self).generation() == generation
                    &&& candidate == Some(final(self).active())
                    &&& final(self).hot() == hot_of(final(self).active())
                },
                _ => {
                    &&& final(self).generation() == old(self).generation()
                    &&& final(self).active() == old(self).active()
                    &&& final(self).hot() == old(self).hot()
                },
            },
    {
        if self.stopping {
            return Err(ReloadError::Stopping);
        }
        let candidate = match candidate {
            Some(candidate) => candidate,
            None => {
                return Err(ReloadError::Config);
            },
        };
        if !same_assembly(&candidate, &self.active_config) {
            return Ok(ReloadOutcome::RestartRequired);
        }
        let registry = EndpointRegistry::from_config(&self.active_config);
        match HotConfig::build(&candidate, &registry) {
            Err(error) => Err(error),
            Ok(hot) => {
                let generation: u64 = if self.active.generation == u64::MAX {
                    self.active.generation
                } else {
                    self.active.generation + 1
                };
                self.active = ActiveSnapshot { generation, hot };
                self.active_config = candidate;
                Ok(ReloadOutcome::Applied { generation })
            },
        }
    }
}

/// Nothing is taken over while the bridge stops, and what is taken over was routable
/// and asks for no restart.
pub proof fn law_only_safe_changes_are_applied(
    stopping: bool,
    active: Config,
    generation: u64,
    candidate: Option<Config>,
)
    requires
        reload_result(stopping, active, generation, candidate) matches Ok(
            ReloadOutcome::Applied { .. },
        ),
    ensures
        !stopping,
        candidate matches Some(own) && restart_projection(own) == restart_projection(active)
            && all_routable(endpoints_of(active), hot_of(own)),
        generation < u64::MAX ==> (reload_result(stopping, active, generation, candidate) matches Ok(
            ReloadOutcome::Applied { generation: next },
        ) && next == generation + 1),
{
}

/// What a bridge must be restarted for: any change of its own settings, of its Matrix
/// account, of its runtime or of an agent, and nothing else. Paths are the same where their
/// components are.
pub proof fn law_a_restart_is_asked_for_what_cannot_change(a: Config, b: Config)
    ensures
        restart_projection(a) == restart_projection(b) <==> {
            &&& components(a.bridge.database@) == components(b.bridge.database@)
            &&& components(a.bridge.session_root@) == components(b.bridge.session_root@)
            &&& a.bridge.max_task_depth == b.bridge.max_task_depth
            &&& a.bridge.max_task_hops == b.bridge.max_task_hops
            &&& a.bridge.default_timeout_seconds == b.bridge.default_timeout_seconds
            &&& a.bridge.queue_capacity == b.bridge.queue_capacity
            &&& a.bridge.event_capacity == b.bridge.event_capacity
            &&& a.bridge.shutdown_timeout_seconds == b.bridge.shutdown_timeout_seconds
            &&& a.bridge.health_bind == b.bridge.health_bind
            &&& a.transports.matrix.enabled == b.transports.matrix.enabled
            &&& a.transports.matrix.homeserver@ == b.transports.matrix.homeserver@
            &&& a.transports.matrix.user_id@ == b.transports.matrix.user_id@
            &&& a.transports.matrix.access_token.revealed()
                == b.transports.matrix.access_token.revealed()
            &&& a.transports.matrix.sync_capacity == b.transports.matrix.sync_capacity
            &&& a.runtime == b.runtime
            &&& a.agents@.len() == b.agents@.len()
            &&& forall|i: int|
                0 <= i < a.agents@.len() ==> {
                    let own = #[trigger] a.agents@[i];
                    let other = b.agents@[i];
                    &&& own.agent_id@ == other.agent_id@
                    &&& own.declared.transport == other.declared.transport
                    &&& optional(own.declared.command) == optional(other.declared.command)
                    &&& views(own.declared.args@) == views(other.declared.args@)
                    &&& own.declared.enabled == other.declared.enabled
                    &&& optional_path(own.declared.workspace) == optional_path(
                        other.declared.workspace,
                    )
                    &&& all_components(own.declared.additional_workspaces@) == all_components(
                        other.declared.additional_workspaces@,
                    )
                    &&& optional(own.declared.peer) == optional(other.declared.peer)
                }
        },
{
    let first = restart_projection(a);
    let second = restart_projection(b);
    if first == second {
        assert(first.agents.len() == a.agents@.len() && second.agents.len() == b.agents@.len());
        assert forall|i: int| 0 <= i < a.agents@.len() implies declared(#[trigger] a.agents@[i])
            == declared(b.agents@[i]) by {
            assert(first.agents[i] == second.agents[i]);
        }
    } else if a.agents@.len() == b.agents@.len() && (forall|i: int|
        0 <= i < a.agents@.len() ==> declared(#[trigger] a.agents@[i]) == declared(b.agents@[i])) {
        assert(first.agents =~= second.agents);
    }
}

/// What is taken over without a restart: whom messages are routed to, who may send them,
/// who may administer the bridge, and which room is told what happens.
pub proof fn law_what_is_taken_over_is_as_configured(config: Config)
    ensures
        ({
            let matrix = config.transports.matrix;
            let hot = hot_of(config);
            &&& hot.aliases.len() == matrix.routes.aliases@.len()
            &&& forall|i: int|
                0 <= i < hot.aliases.len() ==> (#[trigger] hot.aliases[i]) == (
                    matrix.routes.aliases@[i].key@,
                    matrix.routes.aliases@[i].agent@,
                )
            &&& hot.rooms.len() == matrix.routes.rooms@.len()
            &&& forall|i: int|
                0 <= i < hot.rooms.len() ==> (#[trigger] hot.rooms[i]) == (
                    matrix.routes.rooms@[i].key@,
                    matrix.routes.rooms@[i].agent@,
                )
            &&& hot.direct.len() == matrix.routes.direct@.len()
            &&& forall|i: int|
                0 <= i < hot.direct.len() ==> (#[trigger] hot.direct[i]) == (
                    matrix.routes.direct@[i].room@,
                    views(matrix.routes.direct@[i].agents@),
                )
            &&& hot.users == views(matrix.allowed_users@)
            &&& hot.admin_users == views(matrix.admin_users@)
            &&& hot.admin_rooms == views(matrix.admin_rooms@)
            &&& hot.monitor_room is None <==> matrix.monitor_room@.len() == 0
            &&& hot.monitor_room matches Some(room) ==> room == matrix.monitor_room@
        }),
{
}

/// What becomes of a changed configuration. A bridge that is stopping takes none over; one
/// that cannot be loaded, or that routes to an agent that is not declared, enabled and
/// reachable, is refused; one that changes more than routes and permissions asks for a
/// restart; and any other is taken over as the next generation.
pub proof fn law_a_changed_configuration_is_judged(
    stopping: bool,
    active: Config,
    generation: u64,
    candidate: Option<Config>,
)
    ensures
        ({
            let result = reload_result(stopping, active, generation, candidate);
            if stopping {
                result == Err::<ReloadOutcome, ReloadError>(ReloadError::Stopping)
            } else {
                match candidate {
                    None => result == Err::<ReloadOutcome, ReloadError>(ReloadError::Config),
                    Some(own) => {
                        let registry = active.agents@.map_values(
                            |entry: AgentEntry| declared_endpoint(entry),
                        );
                        let reaches = |agent: Seq<char>| with_agent_id(registry, agent) matches
                            Some(endpoint) && endpoint.enabled && endpoint.address is Some;
                        let routes = own.transports.matrix.routes;
                        let usable = {
                            &&& forall|i: int|
                                0 <= i < routes.aliases@.len() ==> reaches(
                                    (#[trigger] routes.aliases@[i]).agent@,
                                )
                            &&& forall|i: int|
                                0 <= i < routes.rooms@.len() ==> reaches(
                                    (#[trigger] routes.rooms@[i]).agent@,
                                )
                            &&& forall|i: int, k: int|
                                0 <= i < routes.direct@.len() && 0 <= k
                                    < routes.direct@[i].agents@.len() ==> reaches(
                                    (#[trigger] routes.direct@[i].agents@[k])@,
                                )
                        };
                        if restart_projection(own) != restart_projection(active) {
                            result == Ok::<ReloadOutcome, ReloadError>(
                                ReloadOutcome::RestartRequired,
                            )
                        } else if usable {
                            result matches Ok(ReloadOutcome::Applied { generation: next }) && (
                            generation < u64::MAX ==> next == generation + 1)
                        } else {
                            result == Err::<ReloadOutcome, ReloadError>(ReloadError::Policy)
                        }
                    },
                }
            }
        }),
{
    if let Some(own) = candidate {
        lemma_routable(endpoints_of(active), own);
    }
}

proof fn lemma_routable(registry: Seq<EndpointView>, config: Config)
    ensures
        all_routable(registry, hot_of(config)) <==> {
            let routes = config.transports.matrix.routes;
            &&& forall|i: int|
                0 <= i < routes.aliases@.len() ==> routable(
                    registry,
                    (#[trigger] routes.aliases@[i]).agent@,
                )
            &&& forall|i: int|
                0 <= i < routes.rooms@.len() ==> routable(
                    registry,
                    (#[trigger] routes.rooms@[i]).agent@,
                )
            &&& forall|i: int, k: int|
                0 <= i < routes.direct@.len() && 0 <= k < routes.direct@[i].agents@.len()
                    ==> routable(registry, (#[trigger] routes.direct@[i].agents@[k])@)
        },
{
    let hot = hot_of(config);
    let routes = config.transports.matrix.routes;
    if all_routable(registry, hot) {
        assert forall|i: int| 0 <= i < routes.aliases@.len() implies routable(
            registry,
            (#[trigger] routes.aliases@[i]).agent@,
        ) by {
            assert(hot.aliases[i].1 == routes.aliases@[i].agent@);
        }
        assert forall|i: int| 0 <= i < routes.rooms@.len() implies routable(
            registry,
            (#[trigger] routes.rooms@[i]).agent@,
        ) by {
            assert(hot.rooms[i].1 == routes.rooms@[i].agent@);
        }
        assert forall|i: int, k: int|
            0 <= i < routes.direct@.len() && 0 <= k
                < routes.direct@[i].agents@.len() implies routable(
            registry,
            (#[trigger] routes.direct@[i].agents@[k])@,
        ) by {
            assert(hot.direct[i].1[k] == routes.direct@[i].agents@[k]@);
        }
    } else {
        assert(forall|i: int, k: int|
            0 <= i < hot.direct.len() && 0 <= k < hot.direct[i].1.len() ==> (
            #[trigger] hot.direct[i].1[k]) == routes.direct@[i].agents@[k]@);
    }
}

} // verus!
