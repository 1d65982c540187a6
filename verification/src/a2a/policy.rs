//! Where the adapter may listen, and which peers it may talk to.

use vstd::prelude::*;
use vstd::string::*;

use crate::a2a::error::A2aError;
use crate::a2a::error::A2aErrorView;
use crate::acp::result::optional;
use crate::net::IpAddr;
use crate::net::SocketAddr;
use crate::text::same_text;

verus! {

/// What a listener may be.
#[derive(Debug, Clone, Copy, PartialEq, Eq, Structural)]
pub struct ListenPolicy {
    /// Whether a private address may be served without TLS.
    pub allow_private_plaintext: bool,
}

/// Why a listener is refused, where it is.
pub open spec fn listener_fault(address: SocketAddr, policy: ListenPolicy) -> Option<A2aErrorView> {
    let ip = address.ip;
    if ip.unspecified() || ip.multicast() {
        Some(A2aErrorView::Config("wildcard or multicast listener rejected"@))
    } else if ip.loopback() || (policy.allow_private_plaintext && ip.private_or_link_local()) {
        None
    } else {
        Some(A2aErrorView::Config("listener must be loopback or explicitly allowed private IP"@))
    }
}

/// Accept a listener on loopback, or on a private address where that is allowed.
pub fn validate_listener(address: SocketAddr, policy: ListenPolicy) -> (valid: Result<(), A2aError>)
    ensures
        match valid {
            Ok(_) => listener_fault(address, policy) is None,
            Err(error) => listener_fault(address, policy) == Some(error@),
        },
{
    let ip = address.ip;
    if ip.is_unspecified() || ip.is_multicast() {
        return Err(A2aError::Config("wildcard or multicast listener rejected"));
    }
    if ip.is_loopback() {
        return Ok(());
    }
    if policy.allow_private_plaintext && ip.is_private_or_link_local() {
        return Ok(());
    }
    Err(A2aError::Config("listener must be loopback or explicitly allowed private IP"))
}

/// A listener is never reachable from beyond the local network, and one that is
/// accepted without the permission is reachable from this host alone.
pub proof fn law_listeners_stay_local(address: SocketAddr, policy: ListenPolicy)
    requires
        listener_fault(address, policy) is None,
    ensures
        address.ip.loopback() || address.ip.private_or_link_local(),
        !policy.allow_private_plaintext ==> address.ip.loopback(),
        !address.ip.unspecified() && !address.ip.multicast(),
{
}

/// The parts of a peer's address, as data.
pub ghost struct UrlView {
    pub scheme: Seq<char>,
    pub username: Seq<char>,
    pub password: Option<Seq<char>>,
    pub host: Option<Seq<char>>,
    pub port: Option<u16>,
    pub query: Option<Seq<char>>,
    pub fragment: Option<Seq<char>>,
}

/// The parts of a peer's address.
#[derive(Debug, Clone, PartialEq, Eq)]
pub struct PeerUrl {
    pub scheme: String,
    pub username: String,
    pub password: Option<String>,
    pub host: Option<String>,
    /// The port, or the usual one of the scheme.
    pub port: Option<u16>,
    pub query: Option<String>,
    pub fragment: Option<String>,
}

impl View for PeerUrl {
    type V = UrlView;

    open spec fn view(&self) -> UrlView {
        UrlView {
            scheme: self.scheme@,
            username: self.username@,
            password: optional(self.password),
            host: optional(self.host),
            port: self.port,
            query: optional(self.query),
            fragment: optional(self.fragment),
        }
    }
}

/// What `url::Url::parse` makes of a text.
pub uninterp spec fn parsed_url(text: Seq<char>) -> Option<UrlView>;

/// `url::Url::parse`: the parts of an absolute URL, as its accessors give them
/// (the port by `port_or_known_default`), and nothing where the text is none.
#[verifier::external_body]
fn parse_url(text: &str) -> (url: Option<PeerUrl>)
    ensures
        match url {
            Some(url) => parsed_url(text@) == Some(url@),
            None => parsed_url(text@) is None,
        },
{
    let url = url::Url::parse(text).ok()?;
    Some(PeerUrl {
        scheme: url.scheme().to_owned(),
        username: url.username().to_owned(),
        password: url.password().map(str::to_owned),
        host: url.host_str().map(str::to_owned),
        port: url.port_or_known_default(),
        query: url.query().map(str::to_owned),
        fragment: url.fragment().map(str::to_owned),
    })
}

/// Whether every address is on this host.
pub open spec fn all_loopback(resolved: Seq<SocketAddr>) -> bool {
    forall|i: int| 0 <= i < resolved.len() ==> (#[trigger] resolved[i]).ip.loopback()
}

/// Whether every address is on this host or the local network.
pub open spec fn all_local(resolved: Seq<SocketAddr>) -> bool {
    forall|i: int| 0 <= i < resolved.len() ==> (#[trigger] resolved[i]).ip.loopback()
        || resolved[i].ip.private_or_link_local()
}

/// Why a peer's address is refused, where it is.
pub open spec fn peer_fault(url: UrlView, resolved: Seq<SocketAddr>) -> Option<A2aErrorView> {
    if url.username.len() > 0 || url.password is Some || url.query is Some || url.fragment is Some {
        Some(A2aErrorView::Config("peer URL cannot contain credentials, query or fragment"@))
    } else if resolved.len() == 0 {
        Some(A2aErrorView::Config("peer DNS returned no addresses"@))
    } else if url.scheme == "http"@ && all_loopback(resolved) {
        None
    } else if url.scheme == "https"@ && all_local(resolved) {
        None
    } else if url.scheme == "http"@ {
        Some(A2aErrorView::Config("plaintext peer must resolve only to loopback"@))
    } else {
        Some(A2aErrorView::Config("peer URL must use http or https"@))
    }
}

/// Whether an address may be called.
fn allowed_outbound(ip: &IpAddr) -> (allowed: bool)
    ensures
        allowed == (ip.loopback() || ip.private_or_link_local()),
{
    ip.is_loopback() || ip.is_private_or_link_local()
}

/// Accept a peer whose address holds no credential, query or fragment and that
/// resolves to this host (in plain text) or to the local network (encrypted) only.
pub fn validate_peer_url(url: &PeerUrl, resolved: &Vec<SocketAddr>) -> (valid: Result<(), A2aError>)
    ensures
        match valid {
            Ok(_) => peer_fault(url@, resolved@) is None,
            Err(error) => peer_fault(url@, resolved@) == Some(error@),
        },
{
    if url.username.as_str().unicode_len() > 0 || url.password.is_some() || url.query.is_some()
        || url.fragment.is_some() {
        return Err(A2aError::Config("peer URL cannot contain credentials, query or fragment"));
    }
    if resolved.len() == 0 {
        return Err(A2aError::Config("peer DNS returned no addresses"));
    }
    let mut loopback = true;
    let mut local = true;
    let mut i: usize = 0;
    while i < resolved.len()
        invariant
            i <= resolved@.len(),
            loopback == all_loopback(resolved@.take(i as int)),
            local == all_local(resolved@.take(i as int)),
        decreases resolved@.len() - i,
    {
        let ghost before = resolved@.take(i as int);
        let ghost after = resolved@.take(i + 1);
        assert(after =~= before.push(resolved@[i as int]));
        let ip = resolved[i].ip;
        let here = ip.is_loopback();
        let near = allowed_outbound(&ip);
        proof {
            assert(after[i as int].ip == ip);
            assert(all_loopback(after) <==> all_loopback(before) && here) by {
                if all_loopback(after) {
                    assert forall|k: int| 0 <= k < before.len() implies (
                    #[trigger] before[k]).ip.loopback() by {
                        assert(after[k].ip.loopback());
                    }
                }
                if all_loopback(before) && here {
                    assert forall|k: int| 0 <= k < after.len() implies (
                    #[trigger] after[k]).ip.loopback() by {
                        if k < i {
                            assert(before[k].ip.loopback());
                        }
                    }
                }
            }
            assert(all_local(after) <==> all_local(before) && near) by {
                if all_local(after) {
                    assert forall|k: int| 0 <= k < before.len() implies (
                    #[trigger] before[k]).ip.loopback()
                        || before[k].ip.private_or_link_local() by {
                        assert(after[k].ip.loopback() || after[k].ip.private_or_link_local());
                    }
                }
                if all_local(before) && near {
                    assert forall|k: int| 0 <= k < after.len() implies (
                    #[trigger] after[k]).ip.loopback() || after[k].ip.private_or_link_local() by {
                        if k < i {
                            assert(before[k].ip.loopback() || before[k].ip.private_or_link_local());
                        }
                    }
                }
            }
        }
        loopback = loopback && here;
        local = local && near;
        i = i + 1;
    }
    assert(resolved@.take(i as int) =~= resolved@);
    let plain = same_text(url.scheme.as_str(), "http");
    if plain && loopback {
        Ok(())
    } else if same_text(url.scheme.as_str(), "https") && local {
        Ok(())
    } else if plain {
        Err(A2aError::Config("plaintext peer must resolve only to loopback"))
    } else {
        Err(A2aError::Config("peer URL must use http or https"))
    }
}

/// Every address of an accepted peer is on this host or the local network, and a
/// credential travels in plain text to this host alone.
pub proof fn law_accepted_peers_are_local(url: UrlView, resolved: Seq<SocketAddr>)
    requires
        peer_fault(url, resolved) is None,
    ensures
        resolved.len() > 0,
        all_local(resolved),
        url.scheme != "https"@ ==> all_loopback(resolved),
{
    if all_loopback(resolved) {
        assert forall|i: int| 0 <= i < resolved.len() implies (#[trigger] resolved[i]).ip.loopback()
            || resolved[i].ip.private_or_link_local() by {}
    }
}

/// Why a peer's configured address cannot be resolved, where it cannot.
pub open spec fn address_fault(text: Seq<char>) -> Option<A2aErrorView> {
    match parsed_url(text) {
        None => Some(A2aErrorView::Config("invalid peer URL"@)),
        Some(url) => if url.host is None {
            Some(A2aErrorView::Config("peer URL missing host"@))
        } else if url.port is None {
            Some(A2aErrorView::Config("peer URL missing port"@))
        } else {
            None
        },
    }
}

/// Judge a peer's parsed address: it must name a host and a port.
pub fn judge_address(url: Option<PeerUrl>) -> (address: Result<PeerUrl, A2aError>)
    ensures
        match url {
            None => address matches Err(error) && error@ == A2aErrorView::Config(
                "invalid peer URL"@,
            ),
            Some(url) => match address {
                Ok(own) => own == url && url.host is Some && url.port is Some,
                Err(error) => error@ == A2aErrorView::Config(
                    if url.host is None {
                        "peer URL missing host"@
                    } else {
                        "peer URL missing port"@
                    },
                ) && (url.host is None || url.port is None),
            },
        },
{
    match url {
        None => Err(A2aError::Config("invalid peer URL")),
        Some(url) => {
            if url.host.is_none() {
                return Err(A2aError::Config("peer URL missing host"));
            }
            if url.port.is_none() {
                return Err(A2aError::Config("peer URL missing port"));
            }
            Ok(url)
        },
    }
}

/// The address of a configured peer: a URL that names a host and has a port.
pub fn peer_address(text: &str) -> (address: Result<PeerUrl, A2aError>)
    ensures
        match address {
            Ok(url) => address_fault(text@) is None && parsed_url(text@) == Some(url@),
            Err(error) => address_fault(text@) == Some(error@),
        },
{
    judge_address(parse_url(text))
}

/// A listener on this machine is always allowed, one on a private network where that is
/// configured, and no other.
pub proof fn law_local_listeners_are_allowed(address: SocketAddr, policy: ListenPolicy)
    ensures
        listener_fault(address, policy) is None <==> {
            &&& !address.ip.unspecified()
            &&& !address.ip.multicast()
            &&& address.ip.loopback() || (policy.allow_private_plaintext
                && address.ip.private_or_link_local())
        },
{
}

/// A peer is accepted where its address is plain and every machine that it resolves to is
/// near enough: this one without encryption, one on the local network with it.
pub proof fn law_near_peers_are_accepted(url: UrlView, resolved: Seq<SocketAddr>)
    ensures
        peer_fault(url, resolved) is None <==> {
            &&& url.username.len() == 0
            &&& url.password is None
            &&& url.query is None
            &&& url.fragment is None
            &&& resolved.len() > 0
            &&& {
                ||| url.scheme == "http"@ && forall|i: int|
                    0 <= i < resolved.len() ==> (#[trigger] resolved[i]).ip.loopback()
                ||| url.scheme == "https"@ && forall|i: int|
                    0 <= i < resolved.len() ==> (#[trigger] resolved[i]).ip.loopback()
                        || resolved[i].ip.private_or_link_local()
            }
        },
{
}

/// The address of a peer can be used where it can be read and names a host and a port.
pub proof fn law_an_address_names_a_host_and_a_port(text: Seq<char>)
    ensures
        address_fault(text) is None <==> (parsed_url(text) matches Some(url) && url.host is Some
            && url.port is Some),
        parsed_url(text) is None ==> address_fault(text) == Some(
            A2aErrorView::Config("invalid peer URL"@),
        ),
        parsed_url(text) matches Some(url) ==> {
            &&& url.host is None ==> address_fault(text) == Some(
                A2aErrorView::Config("peer URL missing host"@),
            )
            &&& url.host is Some && url.port is None ==> address_fault(text) == Some(
                A2aErrorView::Config("peer URL missing port"@),
            )
        },
{
}

} // verus!
