//! What the adapter is assembled from the configuration.

use vstd::prelude::*;
use vstd::string::*;

use crate::a2a::client::TrustPolicy;
use crate::a2a::client::REQUEST_TIMEOUT_SECS;
use crate::a2a::error::A2aError;
use crate::a2a::error::A2aErrorView;
use crate::a2a::ingress::ExposedEndpoint;
use crate::a2a::policy::peer_fault;
use crate::a2a::policy::validate_peer_url;
use crate::a2a::policy::PeerUrl;
use crate::a2a::server::known_views;
use crate::a2a::server::KnownPeer;
use crate::a2a::server::KnownView;
use crate::a2a::server::PeerAccess;
use crate::a2a::wire::AgentCard;
use crate::a2a::wire::Capabilities;
use crate::a2a::wire::Skill;
use crate::a2a::wire::PROTOCOL_VERSION;
use crate::bus::registry::copy_texts;
use crate::bus::registry::with_agent_id;
use crate::bus::registry::EndpointRegistry;
use crate::bus::registry::EndpointView;
use crate::config::PeerEntry;
use crate::config::SecretString;
use crate::net::SocketAddr;
use crate::text::comes_before;
use crate::text::concat2;
use crate::text::lemma_precedes_total;
use crate::text::lemma_precedes_transitive;
use crate::text::precedes;
use crate::text::same_text;
use crate::text::views;
use crate::time::Duration;

verus! {

/// Where the adapter listens, as data.
pub ghost enum ListenView {
    Unix(Seq<char>),
    Tcp(Seq<char>),
}

/// Where the adapter listens.
#[derive(Debug, Clone, PartialEq, Eq)]
pub enum Listen {
    /// A socket at this path.
    Unix(String),
    /// A literal address and port.
    Tcp(String),
}

impl View for Listen {
    type V = ListenView;

    open spec fn view(&self) -> ListenView {
        match self {
            Listen::Unix(path) => ListenView::Unix(path@),
            Listen::Tcp(address) => ListenView::Tcp(address@),
        }
    }
}

/// Where a configured listener is: `unix:` and a path, or an address with or
/// without `tcp:`.
pub open spec fn listen_at(listen: Seq<char>) -> ListenView {
    if "unix:"@.is_prefix_of(listen) {
        ListenView::Unix(listen.skip("unix:"@.len() as int))
    } else if "tcp:"@.is_prefix_of(listen) {
        ListenView::Tcp(listen.skip("tcp:"@.len() as int))
    } else {
        ListenView::Tcp(listen)
    }
}

/// What follows `prefix` in `text`.
fn after_prefix(text: &str, prefix: &str) -> (rest: Option<String>)
    ensures
        match rest {
            Some(rest) => prefix@.is_prefix_of(text@) && rest@ == text@.skip(prefix@.len() as int),
            None => !prefix@.is_prefix_of(text@),
        },
{
    let len: usize = prefix.unicode_len();
    let total: usize = text.unicode_len();
    if total < len {
        return None;
    }
    assert(prefix@.is_prefix_of(text@) <==> text@.subrange(0, len as int) =~= prefix@);
    if same_text(text.substring_char(0, len), prefix) {
        assert(text@.subrange(len as int, total as int) =~= text@.skip(len as int));
        Some(text.substring_char(len, total).to_owned())
    } else {
        None
    }
}

/// Where a configured listener is.
pub fn listen_target(listen: &str) -> (target: Listen)
    ensures
        target@ == listen_at(listen@),
{
    match after_prefix(listen, "unix:") {
        Some(path) => Listen::Unix(path),
        None => match after_prefix(listen, "tcp:") {
            Some(address) => Listen::Tcp(address),
            None => Listen::Tcp(listen.to_owned()),
        },
    }
}

/// The failure of a listener that is neither a literal socket nor a path.
pub fn listen_fault() -> (error: A2aError)
    ensures
        error@ == A2aErrorView::Config("listen must be a literal TCP socket or unix:path"@),
{
    A2aError::Config("listen must be a literal TCP socket or unix:path")
}

/// Why an endpoint cannot be exposed, where it cannot.
pub open spec fn exposure_fault(registry: Seq<EndpointView>, name: Seq<char>) -> Option<
    A2aErrorView,
> {
    match with_agent_id(registry, name) {
        None => Some(A2aErrorView::Config("exposed endpoint missing"@)),
        Some(endpoint) => if endpoint.enabled {
            None
        } else {
            Some(A2aErrorView::Config("exposed endpoint disabled"@))
        },
    }
}

/// The endpoints that peers may address: each of the configured names must be a
/// declared and enabled agent, and the first that is not is the failure.
pub fn exposed_endpoints(names: &Vec<String>, registry: &EndpointRegistry) -> (endpoints: Result<
    Vec<ExposedEndpoint>,
    A2aError,
>)
    ensures
        match endpoints {
            Ok(endpoints) => {
                &&& endpoints@.len() == names@.len()
                &&& forall|i: int|
                    0 <= i < names@.len() ==> exposure_fault(registry@, #[trigger] names@[i]@) is None
                        && endpoints@[i].name@ == names@[i]@ && endpoints@[i].id.bits()
                        == with_agent_id(registry@, names@[i]@)->0.id
            },
            Err(error) => exists|i: int|
                0 <= i < names@.len() && exposure_fault(registry@, #[trigger] names@[i]@) == Some(
                    error@,
                ) && forall|k: int|
                    0 <= k < i ==> exposure_fault(registry@, #[trigger] names@[k]@) is None,
        },
{
    let mut endpoints: Vec<ExposedEndpoint> = Vec::new();
    let mut i: usize = 0;
    while i < names.len()
        invariant
            i <= names@.len(),
            endpoints@.len() == i,
            forall|k: int|
                0 <= k < i ==> exposure_fault(registry@, #[trigger] names@[k]@) is None
                    && endpoints@[k].name@ == names@[k]@ && endpoints@[k].id.bits()
                    == with_agent_id(registry@, names@[k]@)->0.id,
        decreases names@.len() - i,
    {
        match registry.get_by_agent_id(names[i].as_str()) {
            None => {
                let error = A2aError::Config("exposed endpoint missing");
                assert(exposure_fault(registry@, names@[i as int]@) == Some(error@));
                return Err(error);
            },
            Some(endpoint) => {
                if !endpoint.is_enabled() {
                    let error = A2aError::Config("exposed endpoint disabled");
                    assert(exposure_fault(registry@, names@[i as int]@) == Some(error@));
                    return Err(error);
                }
                endpoints.push(ExposedEndpoint { name: names[i].clone(), id: endpoint.id() });
            },
        }
        i = i + 1;
    }
    Ok(endpoints)
}

/// What a configured peer presents and may address, as data.
pub open spec fn configured_peer(entry: PeerEntry) -> KnownView {
    KnownView {
        id: entry.peer.expected_peer_id@,
        token: entry.peer.token.revealed(),
        endpoints: views(entry.peer.allowed_targets@),
    }
}

/// The last of the configured peers with an identity.
pub open spec fn configured(peers: Seq<PeerEntry>, id: Seq<char>) -> Option<KnownView>
    decreases peers.len(),
{
    if peers.len() == 0 {
        None
    } else if peers.last().peer.expected_peer_id@ == id {
        Some(configured_peer(peers.last()))
    } else {
        configured(peers.drop_last(), id)
    }
}

/// The peer with an identity.
pub open spec fn known(peers: Seq<KnownView>, id: Seq<char>) -> Option<KnownView>
    decreases peers.len(),
{
    if peers.len() == 0 {
        None
    } else if peers.last().id == id {
        Some(peers.last())
    } else {
        known(peers.drop_last(), id)
    }
}

/// Whether peers are in ascending order of their identities, each once.
pub open spec fn ascending(peers: Seq<KnownView>) -> bool {
    forall|i: int, j: int| 0 <= i < j < peers.len() ==> precedes(peers[i].id, peers[j].id)
}

/// The peer with an identity, by where it is.
proof fn lemma_known(peers: Seq<KnownView>, id: Seq<char>)
    requires
        ascending(peers),
    ensures
        forall|i: int| 0 <= i < peers.len() && peers[i].id == id ==> known(peers, id) == Some(
            #[trigger] peers[i],
        ),
        known(peers, id) matches Some(peer) ==> peer.id == id && peers.contains(peer),
    decreases peers.len(),
{
    if peers.len() > 0 {
        let rest = peers.drop_last();
        assert(ascending(rest));
        lemma_known(rest, id);
        let last = peers.len() - 1;
        assert forall|i: int| 0 <= i < peers.len() && peers[i].id == id implies known(peers, id)
            == Some(#[trigger] peers[i]) by {
            if i < last {
                assert(precedes(peers[i].id, peers[last].id));
                lemma_precedes_total(peers[i].id, peers[last].id);
                assert(rest[i] == peers[i]);
            }
        }
        if let Some(peer) = known(peers, id) {
            if peers.last().id == id {
                assert(peers[last] == peer);
            } else {
                let at = choose|k: int| 0 <= k < rest.len() && rest[k] == peer;
                assert(peers[at] == peer);
            }
        }
    }
}

/// Putting a peer where it belongs: it is known, and the others stay known.
proof fn lemma_put(before: Seq<KnownView>, after: Seq<KnownView>, at: int, peer: KnownView)
    requires
        ascending(before),
        ascending(after),
        0 <= at < after.len(),
        after[at] == peer,
        after == before.insert(at, peer) || (at < before.len() && before[at].id == peer.id && after
            == before.update(at, peer)),
        at <= before.len(),
    ensures
        forall|id: Seq<char>|
            #[trigger] known(after, id) == if id == peer.id {
                Some(peer)
            } else {
                known(before, id)
            },
{
    assert forall|id: Seq<char>|
        #[trigger] known(after, id) == if id == peer.id {
            Some(peer)
        } else {
            known(before, id)
        } by {
        lemma_known(before, id);
        lemma_known(after, id);
        if id != peer.id {
            let replaced = after.len() == before.len();
            if let Some(own) = known(before, id) {
                let k = choose|k: int| 0 <= k < before.len() && before[k] == own;
                if replaced {
                    assert(after[k] == own);
                } else if k < at {
                    assert(after[k] == own);
                } else {
                    assert(after[k + 1] == own);
                }
            }
            if let Some(own) = known(after, id) {
                let k = choose|k: int| 0 <= k < after.len() && after[k] == own;
                if replaced {
                    assert(before[k] == own);
                } else if k < at {
                    assert(before[k] == own);
                } else {
                    assert(before[k - 1] == own);
                }
            }
        } else {
            assert(after[at].id == id);
        }
    }
}

/// Put a peer where it belongs, in place of one with its identity.
fn put_peer(peers: &mut Vec<KnownPeer>, peer: KnownPeer)
    requires
        ascending(known_views(old(peers)@)),
    ensures
        ascending(known_views(final(peers)@)),
        forall|id: Seq<char>|
            #[trigger] known(known_views(final(peers)@), id) == if id == peer@.id {
                Some(peer@)
            } else {
                known(known_views(old(peers)@), id)
            },
{
    let ghost before = known_views(peers@);
    let ghost added = peer@;
    let mut i: usize = 0;
    while i < peers.len() && comes_before(peers[i].id.as_str(), peer.id.as_str())
        invariant
            i <= peers@.len(),
            peers@ == old(peers)@,
            before == known_views(peers@),
            forall|k: int| 0 <= k < i ==> precedes((#[trigger] before[k]).id, peer@.id),
        decreases peers@.len() - i,
    {
        assert(before[i as int] == peers@[i as int]@);
        i = i + 1;
    }
    if i < peers.len() && same_text(peers[i].id.as_str(), peer.id.as_str()) {
        peers.set(i, peer);
        proof {
            let after = known_views(peers@);
            assert(after =~= before.update(i as int, added));
            assert forall|a: int, b: int| 0 <= a < b < after.len() implies precedes(
                after[a].id,
                after[b].id,
            ) by {
                assert(precedes(before[a].id, before[b].id));
            }
            lemma_put(before, after, i as int, added);
        }
    } else {
        proof {
            if i < peers@.len() {
                assert(before[i as int] == peers@[i as int]@);
                lemma_precedes_total(before[i as int].id, added.id);
            }
        }
        peers.insert(i, peer);
        proof {
            let after = known_views(peers@);
            assert(after =~= before.insert(i as int, added));
            assert forall|a: int, b: int| 0 <= a < b < after.len() implies precedes(
                after[a].id,
                after[b].id,
            ) by {
                if b < i {
                    assert(after[a] == before[a] && after[b] == before[b]);
                } else if b == i {
                    assert(after[a] == before[a]);
                } else if a < i {
                    assert(after[a] == before[a] && after[b] == before[b - 1]);
                } else if a == i {
                    assert(after[b] == before[b - 1]);
                    if b - 1 > i {
                        assert(precedes(before[i as int].id, before[b - 1].id));
                        lemma_precedes_transitive(added.id, before[i as int].id, before[b - 1].id);
                    }
                } else {
                    assert(after[a] == before[a - 1] && after[b] == before[b - 1]);
                }
            }
            lemma_put(before, after, i as int, added);
        }
    }
}

/// The peers that may call, in ascending order of their identities. Where two are
/// configured with one identity, the later one counts.
pub fn known_peers(configured_peers: &Vec<PeerEntry>) -> (peers: Vec<KnownPeer>)
    ensures
        ascending(known_views(peers@)),
        forall|id: Seq<char>|
            #[trigger] known(known_views(peers@), id) == configured(configured_peers@, id),
{
    let mut peers: Vec<KnownPeer> = Vec::new();
    let mut i: usize = 0;
    assert(known_views(peers@) =~= Seq::empty());
    while i < configured_peers.len()
        invariant
            i <= configured_peers@.len(),
            ascending(known_views(peers@)),
            forall|id: Seq<char>|
                #[trigger] known(known_views(peers@), id) == configured(
                    configured_peers@.take(i as int),
                    id,
                ),
        decreases configured_peers@.len() - i,
    {
        let entry = &configured_peers[i];
        let peer = KnownPeer {
            id: entry.peer.expected_peer_id.clone(),
            access: PeerAccess {
                token: SecretString::new(entry.peer.token.expose().to_owned()),
                allowed_endpoints: copy_texts(&entry.peer.allowed_targets),
            },
        };
        let ghost held = known_views(peers@);
        put_peer(&mut peers, peer);
        proof {
            let upto = configured_peers@.take(i + 1);
            assert(upto.drop_last() =~= configured_peers@.take(i as int));
            assert(upto.last() == *entry);
            assert forall|id: Seq<char>|
                #[trigger] known(known_views(peers@), id) == configured(upto, id) by {
                assert(known(held, id) == configured(configured_peers@.take(i as int), id));
            }
        }
        i = i + 1;
    }
    assert(configured_peers@.take(i as int) =~= configured_peers@);
    peers
}

/// The card of a bridge that listens at `address`, offering the exposed endpoints.
/// `address` is none for a socket with a path.
pub fn agent_card(address: Option<&str>, names: &Vec<String>) -> (card: AgentCard)
    ensures
        card.name@ == "guigu-agent-bridge"@,
        card.description@ == "trusted-LAN A2A bridge"@,
        card.url@ == (match address {
            Some(address) => "http://"@ + address@,
            None => "http+unix://local"@,
        }),
        card.protocol_version@ == PROTOCOL_VERSION@,
        !card.capabilities.streaming,
        !card.capabilities.push_notifications,
        card.skills@.len() == names@.len(),
        forall|i: int|
            0 <= i < names@.len() ==> (#[trigger] card.skills@[i]).id@ == names@[i]@
                && card.skills@[i].name@ == names@[i]@ && card.skills@[i].description@
                == "configured bridge endpoint"@,
{
    let url = match address {
        Some(address) => concat2("http://", address),
        None => "http+unix://local".to_owned(),
    };
    let mut skills: Vec<Skill> = Vec::new();
    let mut i: usize = 0;
    while i < names.len()
        invariant
            i <= names@.len(),
            skills@.len() == i,
            forall|k: int|
                0 <= k < i ==> (#[trigger] skills@[k]).id@ == names@[k]@ && skills@[k].name@
                    == names@[k]@ && skills@[k].description@ == "configured bridge endpoint"@,
        decreases names@.len() - i,
    {
        skills.push(
            Skill {
                id: names[i].clone(),
                name: names[i].clone(),
                description: "configured bridge endpoint".to_owned(),
            },
        );
        i = i + 1;
    }
    AgentCard {
        name: "guigu-agent-bridge".to_owned(),
        description: "trusted-LAN A2A bridge".to_owned(),
        url,
        protocol_version: PROTOCOL_VERSION.to_owned(),
        capabilities: Capabilities { streaming: false, push_notifications: false },
        skills,
    }
}

/// A peer that can be called.
#[derive(Clone, PartialEq, Eq)]
pub struct ClientPeer {
    pub id: String,
    pub rpc_url: PeerUrl,
    pub token: SecretString,
    pub resolved: Vec<SocketAddr>,
    pub trust: TrustPolicy,
    pub danger_accept_invalid_certs: bool,
    pub timeout: Duration,
    pub max_response_bytes: usize,
}

/// Assemble a configured peer at `rpc_url`. `resolved` is none where its name could
/// not be resolved; `trust` is what loading its authority came to. The first thing
/// that is wrong is the failure.
pub fn client_peer(
    entry: &PeerEntry,
    rpc_url: PeerUrl,
    resolved: Option<Vec<SocketAddr>>,
    trust: Result<TrustPolicy, A2aError>,
    max_response_bytes: usize,
) -> (peer: Result<ClientPeer, A2aError>)
    ensures
        match (resolved, trust) {
            (None, _) => peer matches Err(error) && error@ == A2aErrorView::Config(
                "peer DNS resolution failed"@,
            ),
            (Some(_), Err(fault)) => peer == Err::<ClientPeer, A2aError>(fault),
            (Some(resolved), Ok(trust)) => match peer {
                Err(error) => peer_fault(rpc_url@, resolved@) == Some(error@),
                Ok(peer) => {
                    &&& peer_fault(rpc_url@, resolved@) is None
                    &&& peer.id@ == entry.peer.expected_peer_id@
                    &&& peer.rpc_url == rpc_url
                    &&& peer.token.revealed() == entry.peer.token.revealed()
                    &&& peer.resolved == resolved
                    &&& peer.trust == trust
                    &&& peer.danger_accept_invalid_certs == entry.peer.danger_accept_invalid_certs
                    &&& peer.timeout.total() == REQUEST_TIMEOUT_SECS * 1_000_000_000
                    &&& peer.max_response_bytes == max_response_bytes
                },
            },
        },
{
    let resolved = match resolved {
        Some(resolved) => resolved,
        None => {
            return Err(A2aError::Config("peer DNS resolution failed"));
        },
    };
    let trust = match trust {
        Ok(trust) => trust,
        Err(error) => {
            return Err(error);
        },
    };
    match validate_peer_url(&rpc_url, &resolved) {
        Ok(()) => {},
        Err(error) => {
            return Err(error);
        },
    }
    Ok(
        ClientPeer {
            id: entry.peer.expected_peer_id.clone(),
            rpc_url,
            token: SecretString::new(entry.peer.token.expose().to_owned()),
            resolved,
            trust,
            danger_accept_invalid_certs: entry.peer.danger_accept_invalid_certs,
            timeout: Duration::from_secs(REQUEST_TIMEOUT_SECS),
            max_response_bytes,
        },
    )
}

/// A listener is at a path behind `unix:`, and at an address otherwise, which may stand
/// behind `tcp:`.
pub proof fn law_listeners_are_named(rest: Seq<char>)
    ensures
        listen_at("unix:"@ + rest) == ListenView::Unix(rest),
        listen_at("tcp:"@ + rest) == ListenView::Tcp(rest),
        !"unix:"@.is_prefix_of(rest) && !"tcp:"@.is_prefix_of(rest) ==> listen_at(rest)
            == ListenView::Tcp(rest),
{
    reveal_strlit("unix:");
    reveal_strlit("tcp:");
    assert(("unix:"@ + rest).take(5) =~= "unix:"@);
    assert(("unix:"@ + rest).skip(5) =~= rest);
    assert(("tcp:"@ + rest).skip(4) =~= rest);
    assert("unix:"@.is_prefix_of("unix:"@ + rest));
    assert("tcp:"@.is_prefix_of("tcp:"@ + rest));
    assert(("tcp:"@ + rest)[0] == 't');
    assert("unix:"@[0] == 'u');
    assert(!"unix:"@.is_prefix_of("tcp:"@ + rest));
}

/// A peer that is configured more than once is known as it was configured last, with the
/// identity that it is expected to have, its own token and its own targets.
pub proof fn law_the_last_configuration_of_a_peer_counts(
    peers: Seq<PeerEntry>,
    id: Seq<char>,
    i: int,
)
    requires
        0 <= i < peers.len(),
        peers[i].peer.expected_peer_id@ == id,
        forall|k: int| i < k < peers.len() ==> (#[trigger] peers[k]).peer.expected_peer_id@ != id,
    ensures
        configured(peers, id) matches Some(known) && known.id == id && known.token
            == peers[i].peer.token.revealed() && known.endpoints == views(
            peers[i].peer.allowed_targets@,
        ),
    decreases peers.len(),
{
    if i < peers.len() - 1 {
        let rest = peers.drop_last();
        assert(peers[peers.len() - 1].peer.expected_peer_id@ != id);
        assert forall|k: int| i < k < rest.len() implies (
        #[trigger] rest[k]).peer.expected_peer_id@ != id by {
            assert(peers[k].peer.expected_peer_id@ != id);
        }
        law_the_last_configuration_of_a_peer_counts(rest, id, i);
    }
}

/// A peer that is not configured is not known.
pub proof fn law_nobody_else_is_known(peers: Seq<PeerEntry>, id: Seq<char>)
    requires
        forall|k: int|
            0 <= k < peers.len() ==> (#[trigger] peers[k]).peer.expected_peer_id@ != id,
    ensures
        configured(peers, id) is None,
    decreases peers.len(),
{
    if peers.len() > 0 {
        let rest = peers.drop_last();
        assert forall|k: int| 0 <= k < rest.len() implies (
        #[trigger] rest[k]).peer.expected_peer_id@ != id by {
            assert(peers[k].peer.expected_peer_id@ != id);
        }
        assert(peers[peers.len() - 1].peer.expected_peer_id@ != id);
        law_nobody_else_is_known(rest, id);
    }
}

/// An endpoint is exposed where it is declared and enabled, and no other.
pub proof fn law_only_enabled_endpoints_are_exposed(registry: Seq<EndpointView>, name: Seq<char>)
    ensures
        exposure_fault(registry, name) is None <==> (with_agent_id(registry, name) matches Some(
            endpoint,
        ) && endpoint.enabled),
        with_agent_id(registry, name) is None ==> exposure_fault(registry, name) == Some(
            A2aErrorView::Config("exposed endpoint missing"@),
        ),
        with_agent_id(registry, name) matches Some(endpoint) ==> (!endpoint.enabled
            ==> exposure_fault(registry, name) == Some(
            A2aErrorView::Config("exposed endpoint disabled"@),
        )),
{
}

} // verus!
