//! Deterministic endpoint identity and the runtime endpoint registry.
//!
//! A task names an [`EndpointId`], never a natural-language name. This is the one
//! place where a configured agent id becomes that identity, so the registry is a
//! function of the configuration alone and rebuilds identically after a restart.

use vstd::prelude::*;
use vstd::string::*;
use vstd::utf8::encode_utf8;
use crate::bus::error::BusError;
use crate::config::{distinct_agents, AgentEndpointConfig, AgentEntry, Config};
use crate::ids::{name_uuid, named_uuid, EndpointId, NAMESPACE_URL};
use crate::models::{AgentEndpoint, EndpointAddress, TransportType};
use crate::text::{same_text, views};

verus! {

/// Label of the namespace that every endpoint identity is derived in. It never
/// changes: another label would rename every endpoint.
pub const ENDPOINT_NAMESPACE_LABEL: &'static str = "guigu-agent-bridge/agent/v1";

/// The namespace of endpoint identities.
pub open spec fn endpoint_space() -> u128 {
    named_uuid(NAMESPACE_URL, encode_utf8("guigu-agent-bridge/agent/v1"@))
}

/// The identity of the agent declared as `agent_id`.
pub open spec fn endpoint_bits(agent_id: Seq<char>) -> u128 {
    named_uuid(endpoint_space(), encode_utf8(agent_id))
}

/// The namespace of endpoint identities.
pub fn endpoint_namespace() -> (space: u128)
    ensures
        space == endpoint_space(),
{
    name_uuid(NAMESPACE_URL, ENDPOINT_NAMESPACE_LABEL.as_bytes())
}

/// The stable identity of a configured agent id.
pub fn derive_endpoint_id(agent_id: &str) -> (id: EndpointId)
    ensures
        id.bits() == endpoint_bits(agent_id@),
{
    EndpointId::from_u128(name_uuid(endpoint_namespace(), agent_id.as_bytes()))
}

/// What an address says.
pub ghost enum AddressView {
    /// An agent process.
    Acp { command: Seq<char>, args: Seq<Seq<char>> },
    /// An A2A peer.
    A2a { peer: Seq<char> },
}

impl View for EndpointAddress {
    type V = AddressView;

    open spec fn view(&self) -> AddressView {
        match *self {
            EndpointAddress::Acp { command, args } => AddressView::Acp {
                command: command@,
                args: views(args@),
            },
            EndpointAddress::A2a { peer } => AddressView::A2a { peer: peer@ },
        }
    }
}

/// What a registered endpoint says.
pub ghost struct EndpointView {
    pub id: u128,
    pub agent_id: Seq<char>,
    pub transport: TransportType,
    pub enabled: bool,
    pub address: Option<AddressView>,
}

/// The address that a declaration carries, if it carries one.
pub open spec fn declared_address(declared: AgentEndpointConfig) -> Option<AddressView> {
    match declared.transport {
        TransportType::Acp => match declared.command {
            Some(command) => Some(
                AddressView::Acp { command: command@, args: views(declared.args@) },
            ),
            None => None,
        },
        TransportType::A2a => match declared.peer {
            Some(peer) => Some(AddressView::A2a { peer: peer@ }),
            None => None,
        },
        TransportType::Matrix | TransportType::Http => None,
    }
}

/// The endpoint that a declaration registers.
pub open spec fn declared_endpoint(entry: AgentEntry) -> EndpointView {
    EndpointView {
        id: endpoint_bits(entry.agent_id@),
        agent_id: entry.agent_id@,
        transport: entry.declared.transport,
        enabled: entry.declared.enabled,
        address: declared_address(entry.declared),
    }
}

/// The last endpoint with the given identity.
pub open spec fn with_id(endpoints: Seq<EndpointView>, id: u128) -> Option<EndpointView>
    decreases endpoints.len(),
{
    if endpoints.len() == 0 {
        None
    } else if endpoints.last().id == id {
        Some(endpoints.last())
    } else {
        with_id(endpoints.drop_last(), id)
    }
}

/// The endpoint declared under the given agent id.
pub open spec fn with_agent_id(endpoints: Seq<EndpointView>, agent_id: Seq<char>) -> Option<
    EndpointView,
>
    decreases endpoints.len(),
{
    if endpoints.len() == 0 {
        None
    } else if endpoints.last().agent_id == agent_id {
        Some(endpoints.last())
    } else {
        with_agent_id(endpoints.drop_last(), agent_id)
    }
}

/// Whether a task may be sent to `id`: unknown, then disabled, then without an
/// address.
pub open spec fn judged(endpoints: Seq<EndpointView>, id: EndpointId) -> Result<
    EndpointView,
    BusError,
> {
    match with_id(endpoints, id.bits()) {
        None => Err(BusError::UnknownTarget { endpoint_id: id }),
        Some(endpoint) => if !endpoint.enabled {
            Err(BusError::TargetDisabled { endpoint_id: id })
        } else if endpoint.address is None {
            Err(BusError::AddressUnavailable { endpoint_id: id })
        } else {
            Ok(endpoint)
        },
    }
}

/// One declared endpoint.
#[derive(Debug, Clone, PartialEq, Eq)]
pub struct RegisteredEndpoint {
    id: EndpointId,
    agent_id: String,
    transport: TransportType,
    enabled: bool,
    address: Option<EndpointAddress>,
}

impl View for RegisteredEndpoint {
    type V = EndpointView;

    closed spec fn view(&self) -> EndpointView {
        EndpointView {
            id: self.id.bits(),
            agent_id: self.agent_id@,
            transport: self.transport,
            enabled: self.enabled,
            address: match self.address {
                Some(address) => Some(address@),
                None => None,
            },
        }
    }
}

/// A copy of a list of texts.
pub fn copy_texts(parts: &Vec<String>) -> (copy: Vec<String>)
    ensures
        views(copy@) == views(parts@),
{
    let copy = parts.clone();
    assert(views(copy@) =~= views(parts@));
    copy
}

/// A copy of an address.
pub fn copy_address(address: &EndpointAddress) -> (copy: EndpointAddress)
    ensures
        copy@ == address@,
{
    match address {
        EndpointAddress::Acp { command, args } => EndpointAddress::Acp {
            command: command.clone(),
            args: copy_texts(args),
        },
        EndpointAddress::A2a { peer } => EndpointAddress::A2a { peer: peer.clone() },
    }
}

impl RegisteredEndpoint {
    /// The derived identity.
    pub fn id(&self) -> (id: EndpointId)
        ensures
            id.bits() == self@.id,
    {
        self.id
    }

    /// The agent id it was declared under.
    pub fn agent_id(&self) -> (agent_id: &str)
        ensures
            agent_id@ == self@.agent_id,
    {
        self.agent_id.as_str()
    }

    /// The declared transport.
    pub fn transport(&self) -> (transport: TransportType)
        ensures
            transport == self@.transport,
    {
        self.transport
    }

    /// Whether tasks may be sent to it.
    pub fn is_enabled(&self) -> (enabled: bool)
        ensures
            enabled == self@.enabled,
    {
        self.enabled
    }

    /// The address, where the declaration carries one.
    pub fn address(&self) -> (address: Option<&EndpointAddress>)
        ensures
            address is Some <==> self@.address is Some,
            address matches Some(found) ==> self@.address == Some(found@),
    {
        match &self.address {
            Some(address) => Some(address),
            None => None,
        }
    }

    /// Whether it has an address at all.
    pub fn is_addressable(&self) -> (addressable: bool)
        ensures
            addressable == (self@.address is Some),
    {
        match &self.address {
            Some(_) => true,
            None => false,
        }
    }

    /// The full endpoint, where there is an address. It declares no capabilities.
    pub fn agent_endpoint(&self) -> (endpoint: Option<AgentEndpoint>)
        ensures
            endpoint is Some <==> self@.address is Some,
            endpoint matches Some(full) ==> {
                &&& full.id.bits() == self@.id
                &&& full.transport == self@.transport
                &&& self@.address == Some(full.address@)
                &&& full.enabled == self@.enabled
                &&& full.capabilities@.len() == 0
            },
    {
        match &self.address {
            Some(address) => Some(
                AgentEndpoint {
                    id: self.id,
                    transport: self.transport,
                    address: copy_address(address),
                    enabled: self.enabled,
                    capabilities: Vec::new(),
                },
            ),
            None => None,
        }
    }
}

/// The address of a declaration, where it carries enough to reach the agent. A
/// `matrix` or `http` declaration never does.
pub fn derive_address(declared: &AgentEndpointConfig) -> (address: Option<EndpointAddress>)
    ensures
        address is Some <==> declared_address(*declared) is Some,
        address matches Some(found) ==> declared_address(*declared) == Some(found@),
{
    match declared.transport {
        TransportType::Acp => match &declared.command {
            Some(command) => Some(
                EndpointAddress::Acp {
                    command: command.clone(),
                    args: copy_texts(&declared.args),
                },
            ),
            None => None,
        },
        TransportType::A2a => match &declared.peer {
            Some(peer) => Some(EndpointAddress::A2a { peer: peer.clone() }),
            None => None,
        },
        TransportType::Matrix | TransportType::Http => None,
    }
}

/// The declared endpoints, in the order of their agent ids. It never changes once
/// built.
#[derive(Debug, Clone, PartialEq, Eq)]
pub struct EndpointRegistry {
    endpoints: Vec<RegisteredEndpoint>,
}

impl View for EndpointRegistry {
    type V = Seq<EndpointView>;

    closed spec fn view(&self) -> Seq<EndpointView> {
        self.endpoints@.map_values(|endpoint: RegisteredEndpoint| endpoint@)
    }
}

impl EndpointRegistry {
    /// The registry of a configuration: every declared agent, reachable or not.
    pub fn from_config(config: &Config) -> (registry: EndpointRegistry)
        ensures
            registry@ == config.agents@.map_values(|entry: AgentEntry| declared_endpoint(entry)),
    {
        let mut endpoints: Vec<RegisteredEndpoint> = Vec::new();
        let mut i: usize = 0;
        while i < config.agents.len()
            invariant
                i <= config.agents.len(),
                endpoints@.len() == i,
                forall|k: int|
                    0 <= k < i ==> (#[trigger] endpoints@[k])@ == declared_endpoint(
                        config.agents@[k],
                    ),
            decreases config.agents.len() - i,
        {
            let entry = &config.agents[i];
            endpoints.push(
                RegisteredEndpoint {
                    id: derive_endpoint_id(entry.agent_id.as_str()),
                    agent_id: entry.agent_id.clone(),
                    transport: entry.declared.transport,
                    enabled: entry.declared.enabled,
                    address: derive_address(&entry.declared),
                },
            );
            i = i + 1;
        }
        let registry = EndpointRegistry { endpoints };
        assert(registry@ =~= config.agents@.map_values(
            |entry: AgentEntry| declared_endpoint(entry),
        ));
        registry
    }

    /// The endpoint with the given identity, reachable or not.
    pub fn get(&self, id: EndpointId) -> (endpoint: Option<&RegisteredEndpoint>)
        ensures
            endpoint is Some <==> with_id(self@, id.bits()) is Some,
            endpoint matches Some(found) ==> with_id(self@, id.bits()) == Some(found@),
    {
        let mut i: usize = self.endpoints.len();
        assert(self@.take(i as int) =~= self@);
        while i > 0
            invariant
                i <= self.endpoints.len(),
                self@.len() == self.endpoints@.len(),
                with_id(self@, id.bits()) == with_id(self@.take(i as int), id.bits()),
            decreases i,
        {
            let ghost prefix = self@.take(i as int);
            i = i - 1;
            assert(prefix.last() == self.endpoints@[i as int]@);
            assert(prefix.drop_last() =~= self@.take(i as int));
            let found = &self.endpoints[i];
            if found.id.as_u128() == id.as_u128() {
                return Some(found);
            }
        }
        None
    }

    /// The endpoint declared under `agent_id`.
    pub fn get_by_agent_id(&self, agent_id: &str) -> (endpoint: Option<&RegisteredEndpoint>)
        ensures
            endpoint is Some <==> with_agent_id(self@, agent_id@) is Some,
            endpoint matches Some(found) ==> with_agent_id(self@, agent_id@) == Some(found@),
    {
        let mut i: usize = self.endpoints.len();
        assert(self@.take(i as int) =~= self@);
        while i > 0
            invariant
                i <= self.endpoints.len(),
                self@.len() == self.endpoints@.len(),
                with_agent_id(self@, agent_id@) == with_agent_id(self@.take(i as int), agent_id@),
            decreases i,
        {
            let ghost prefix = self@.take(i as int);
            i = i - 1;
            assert(prefix.last() == self.endpoints@[i as int]@);
            assert(prefix.drop_last() =~= self@.take(i as int));
            let found = &self.endpoints[i];
            if same_text(found.agent_id.as_str(), agent_id) {
                return Some(found);
            }
        }
        None
    }

    /// The identity of the agent declared under `agent_id`.
    pub fn resolve_agent_id(&self, agent_id: &str) -> (id: Option<EndpointId>)
        ensures
            id is Some <==> with_agent_id(self@, agent_id@) is Some,
            id matches Some(found) ==> found.bits() == with_agent_id(self@, agent_id@)->0.id,
    {
        match self.get_by_agent_id(agent_id) {
            Some(endpoint) => Some(endpoint.id()),
            None => None,
        }
    }

    /// Whether `id` is declared.
    pub fn contains(&self, id: EndpointId) -> (declared: bool)
        ensures
            declared == (with_id(self@, id.bits()) is Some),
    {
        match self.get(id) {
            Some(_) => true,
            None => false,
        }
    }

    /// Every declared endpoint, in the order of the agent ids.
    pub fn iter(&self) -> (endpoints: &Vec<RegisteredEndpoint>)
        ensures
            endpoints@.map_values(|endpoint: RegisteredEndpoint| endpoint@) == self@,
    {
        &self.endpoints
    }

    /// Number of declared endpoints.
    pub fn len(&self) -> (len: usize)
        ensures
            len == self@.len(),
    {
        self.endpoints.len()
    }

    /// Whether nothing is declared.
    pub fn is_empty(&self) -> (empty: bool)
        ensures
            empty == (self@.len() == 0),
    {
        self.endpoints.len() == 0
    }

    /// Judges a target: unknown, then disabled, then without an address.
    pub fn validate_target(&self, id: EndpointId) -> (verdict: Result<&RegisteredEndpoint, BusError>)
        ensures
            match verdict {
                Ok(found) => judged(self@, id) == Ok::<EndpointView, BusError>(found@),
                Err(error) => judged(self@, id) == Err::<EndpointView, BusError>(error),
            },
    {
        match self.get(id) {
            None => Err(BusError::UnknownTarget { endpoint_id: id }),
            Some(endpoint) => {
                if !endpoint.is_enabled() {
                    Err(BusError::TargetDisabled { endpoint_id: id })
                } else if !endpoint.is_addressable() {
                    Err(BusError::AddressUnavailable { endpoint_id: id })
                } else {
                    Ok(endpoint)
                }
            },
        }
    }
}

/// An endpoint found under an identity is one of the registered ones, and has it.
pub proof fn lemma_with_id_found(endpoints: Seq<EndpointView>, id: u128)
    ensures
        with_id(endpoints, id) is Some ==> endpoints.contains(with_id(endpoints, id)->0)
            && with_id(endpoints, id)->0.id == id,
        with_id(endpoints, id) is None ==> forall|i: int|
            0 <= i < endpoints.len() ==> (#[trigger] endpoints[i]).id != id,
    decreases endpoints.len(),
{
    if endpoints.len() > 0 {
        if endpoints.last().id == id {
            assert(endpoints[endpoints.len() - 1] == endpoints.last());
        } else {
            let rest = endpoints.drop_last();
            lemma_with_id_found(rest, id);
            if with_id(rest, id) is Some {
                let k = choose|k: int| 0 <= k < rest.len() && rest[k] == with_id(rest, id)->0;
                assert(endpoints[k] == with_id(endpoints, id)->0);
            } else {
                assert forall|i: int| 0 <= i < endpoints.len() implies (
                #[trigger] endpoints[i]).id != id by {
                    if i < rest.len() {
                        assert(rest[i].id != id);
                    }
                }
            }
        }
    }
}

/// A declared agent is found under its own id, and its identity resolves to an
/// endpoint with that identity.
pub proof fn law_declared_agents_resolve(agents: Seq<AgentEntry>, k: int)
    requires
        distinct_agents(agents),
        0 <= k < agents.len(),
    ensures
        ({
            let endpoints = agents.map_values(|entry: AgentEntry| declared_endpoint(entry));
            let agent_id = agents[k].agent_id@;
            &&& with_agent_id(endpoints, agent_id) == Some(declared_endpoint(agents[k]))
            &&& with_id(endpoints, endpoint_bits(agent_id)) is Some
            &&& with_id(endpoints, endpoint_bits(agent_id))->0.id == endpoint_bits(agent_id)
        }),
{
    let endpoints = agents.map_values(|entry: AgentEntry| declared_endpoint(entry));
    lemma_with_id_found(endpoints, endpoint_bits(agents[k].agent_id@));
    assert(endpoints[k].id == endpoint_bits(agents[k].agent_id@));
    lemma_found_by_name(agents, k, agents.len() as int);
    assert(endpoints.take(agents.len() as int) =~= endpoints);
}

proof fn lemma_found_by_name(agents: Seq<AgentEntry>, k: int, n: int)
    requires
        distinct_agents(agents),
        0 <= k < n <= agents.len(),
    ensures
        with_agent_id(
            agents.map_values(|entry: AgentEntry| declared_endpoint(entry)).take(n),
            agents[k].agent_id@,
        ) == Some(declared_endpoint(agents[k])),
    decreases n,
{
    let prefix = agents.map_values(|entry: AgentEntry| declared_endpoint(entry)).take(n);
    assert(prefix.last() == declared_endpoint(agents[n - 1]));
    if k < n - 1 {
        assert(agents[k].agent_id@ != agents[n - 1].agent_id@);
        assert(prefix.drop_last() =~= agents.map_values(
            |entry: AgentEntry| declared_endpoint(entry),
        ).take(n - 1));
        lemma_found_by_name(agents, k, n - 1);
    }
}

/// A target is accepted exactly when it is declared, enabled and has an address.
pub proof fn law_accepted_targets_are_usable(endpoints: Seq<EndpointView>, id: EndpointId)
    ensures
        judged(endpoints, id) is Ok <==> with_id(endpoints, id.bits()) is Some && with_id(
            endpoints,
            id.bits(),
        )->0.enabled && with_id(endpoints, id.bits())->0.address is Some,
        judged(endpoints, id) is Ok ==> judged(endpoints, id)->Ok_0.id == id.bits(),
{
    lemma_with_id_found(endpoints, id.bits());
}

/// A lookup finds an endpoint that was declared under what was asked for, and finds one
/// wherever there is one.
pub proof fn law_lookups_find_what_is_declared(
    endpoints: Seq<EndpointView>,
    id: u128,
    agent_id: Seq<char>,
)
    ensures
        match with_id(endpoints, id) {
            Some(endpoint) => endpoint.id == id && endpoints.contains(endpoint),
            None => forall|k: int| 0 <= k < endpoints.len() ==> (#[trigger] endpoints[k]).id != id,
        },
        match with_agent_id(endpoints, agent_id) {
            Some(endpoint) => endpoint.agent_id == agent_id && endpoints.contains(endpoint),
            None => forall|k: int|
                0 <= k < endpoints.len() ==> (#[trigger] endpoints[k]).agent_id != agent_id,
        },
    decreases endpoints.len(),
{
    if endpoints.len() > 0 {
        let rest = endpoints.drop_last();
        let last = endpoints.len() - 1;
        law_lookups_find_what_is_declared(rest, id, agent_id);
        assert(endpoints.contains(endpoints[last]));
        if let Some(endpoint) = with_id(rest, id) {
            let k = choose|k: int| 0 <= k < rest.len() && rest[k] == endpoint;
            assert(endpoints[k] == endpoint);
        }
        if let Some(endpoint) = with_agent_id(rest, agent_id) {
            let k = choose|k: int| 0 <= k < rest.len() && rest[k] == endpoint;
            assert(endpoints[k] == endpoint);
        }
        assert forall|k: int| 0 <= k < last implies (#[trigger] endpoints[k]) == rest[k] by {}
    }
}

/// Why a target is refused: it is not declared; it is declared and switched off; or it is
/// on and cannot be reached. In this order.
pub proof fn law_refused_targets_are_told_why(endpoints: Seq<EndpointView>, id: EndpointId)
    ensures
        match with_id(endpoints, id.bits()) {
            None => judged(endpoints, id) == Err::<EndpointView, BusError>(
                BusError::UnknownTarget { endpoint_id: id },
            ),
            Some(endpoint) => judged(endpoints, id) == (match (
                endpoint.enabled,
                endpoint.address,
            ) {
                (false, _) => Err::<EndpointView, BusError>(
                    BusError::TargetDisabled { endpoint_id: id },
                ),
                (true, None) => Err(BusError::AddressUnavailable { endpoint_id: id }),
                (true, Some(_)) => Ok(endpoint),
            }),
        },
{
}

/// An agent is reached as it was declared: a process by its command line, a peer by its
/// key, and nothing else; and it is registered under its own name, as it is declared.
pub proof fn law_agents_are_registered_as_declared(entry: AgentEntry)
    ensures
        ({
            let endpoint = declared_endpoint(entry);
            &&& endpoint.agent_id == entry.agent_id@
            &&& endpoint.id == endpoint_bits(entry.agent_id@)
            &&& endpoint.enabled == entry.declared.enabled
            &&& endpoint.transport == entry.declared.transport
            &&& endpoint.address matches Some(AddressView::Acp { command, args }) ==> {
                &&& entry.declared.transport is Acp
                &&& entry.declared.command matches Some(own) && own@ == command
                &&& args == views(entry.declared.args@)
            }
            &&& endpoint.address matches Some(AddressView::A2a { peer }) ==> {
                &&& entry.declared.transport is A2a
                &&& entry.declared.peer matches Some(own) && own@ == peer
            }
            &&& endpoint.address is None ==> {
                ||| entry.declared.transport is Matrix
                ||| entry.declared.transport is Http
                ||| entry.declared.transport is Acp && entry.declared.command is None
                ||| entry.declared.transport is A2a && entry.declared.peer is None
            }
        }),
{
}

} // verus!
