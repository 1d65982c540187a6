//! The identity of a configured peer.

use vstd::prelude::*;
use vstd::string::*;
use vstd::utf8::encode_utf8;

use crate::ids::name_uuid;
use crate::ids::named_uuid;
use crate::ids::EndpointId;
use crate::ids::NAMESPACE_URL;

verus! {

/// The name of the namespace that peers are identified in.
pub const PEER_NAMESPACE_LABEL: &'static str = "guigu-agent-bridge/a2a-peer/v1";

/// The namespace that peers are identified in.
pub open spec fn peer_space() -> u128 {
    named_uuid(NAMESPACE_URL, encode_utf8(PEER_NAMESPACE_LABEL@))
}

/// The identity of the peer `peer_id`.
pub open spec fn peer_bits(peer_id: Seq<char>) -> u128 {
    named_uuid(peer_space(), encode_utf8(peer_id))
}

/// Stable identity of a configured peer, in a namespace of its own, apart from that
/// of local agents.
pub fn derive_peer_endpoint_id(peer_id: &str) -> (id: EndpointId)
    ensures
        id.bits() == peer_bits(peer_id@),
{
    let namespace: u128 = name_uuid(NAMESPACE_URL, PEER_NAMESPACE_LABEL.as_bytes());
    EndpointId::from_u128(name_uuid(namespace, peer_id.as_bytes()))
}

} // verus!
