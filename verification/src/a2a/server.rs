//! Who may call, and what a caller is answered.

use vstd::prelude::*;
use vstd::string::*;

use crate::a2a::dispatcher::position_of;
use crate::a2a::error::A2aError;
use crate::a2a::error::A2aErrorView;
use crate::a2a::wire::JsonRpcError;
use crate::a2a::wire::JsonRpcResponse;
use crate::config::SecretString;
use crate::json::Json;
use crate::json::JsonView;
use crate::text::concat2;
use crate::text::same_text;
use crate::text::views;

verus! {

/// The request was served.
pub const STATUS_OK: u16 = 200;

/// The request cannot be served as it is.
pub const STATUS_BAD_REQUEST: u16 = 400;

/// The caller is not known, or may not call the endpoint.
pub const STATUS_UNAUTHORIZED: u16 = 401;

/// The request is too large.
pub const STATUS_PAYLOAD_TOO_LARGE: u16 = 413;

/// What a peer presents and may address.
#[derive(Clone, PartialEq, Eq)]
pub struct PeerAccess {
    pub token: SecretString,
    pub allowed_endpoints: Vec<String>,
}

/// A peer that may call.
#[derive(Clone, PartialEq, Eq)]
pub struct KnownPeer {
    pub id: String,
    pub access: PeerAccess,
}

/// A peer that may call, as data.
pub ghost struct KnownView {
    pub id: Seq<char>,
    pub token: Seq<char>,
    pub endpoints: Seq<Seq<char>>,
}

impl View for KnownPeer {
    type V = KnownView;

    open spec fn view(&self) -> KnownView {
        KnownView {
            id: self.id@,
            token: self.access.token.revealed(),
            endpoints: views(self.access.allowed_endpoints@),
        }
    }
}

/// Peers as data.
pub open spec fn known_views(peers: Seq<KnownPeer>) -> Seq<KnownView> {
    peers.map_values(|peer: KnownPeer| peer@)
}

/// The credential that a peer presents.
pub open spec fn bearer(token: Seq<char>) -> Seq<char> {
    "Bearer "@ + token
}

/// The first peer that presents `credential`.
pub open spec fn presenter(peers: Seq<KnownView>, credential: Seq<char>) -> Option<KnownView>
    decreases peers.len(),
{
    if peers.len() == 0 {
        None
    } else if bearer(peers[0].token) == credential {
        Some(peers[0])
    } else {
        presenter(peers.drop_first(), credential)
    }
}

/// What is decided about a call before it is served.
pub ghost enum VerdictView {
    Serve(Seq<char>),
    Unauthorized,
    Invalid,
}

/// What is decided about a call before it is served: the peer it is served for.
#[derive(Debug, Clone, PartialEq, Eq)]
pub enum Verdict {
    /// Serve it for this peer.
    Serve { peer: String },
    /// The caller is not known, or may not call the endpoint.
    Unauthorized,
    /// It is no request.
    Invalid,
}

impl View for Verdict {
    type V = VerdictView;

    open spec fn view(&self) -> VerdictView {
        match self {
            Verdict::Serve { peer } => VerdictView::Serve(peer@),
            Verdict::Unauthorized => VerdictView::Unauthorized,
            Verdict::Invalid => VerdictView::Invalid,
        }
    }
}

/// What is decided about a call of `endpoint` with a credential.
pub open spec fn verdict(
    peers: Seq<KnownView>,
    credential: Option<Seq<char>>,
    endpoint: Seq<char>,
    jsonrpc: Seq<char>,
) -> VerdictView {
    match credential {
        None => VerdictView::Unauthorized,
        Some(credential) => match presenter(peers, credential) {
            None => VerdictView::Unauthorized,
            Some(peer) => if !peer.endpoints.contains(endpoint) {
                VerdictView::Unauthorized
            } else if jsonrpc != "2.0"@ {
                VerdictView::Invalid
            } else {
                VerdictView::Serve(peer.id)
            },
        },
    }
}

/// The first peer that presents `credential`.
fn find_presenter<'a>(peers: &'a Vec<KnownPeer>, credential: &str) -> (found: Option<&'a KnownPeer>)
    ensures
        match found {
            Some(peer) => presenter(known_views(peers@), credential@) == Some(peer@),
            None => presenter(known_views(peers@), credential@) is None,
        },
{
    let ghost all = known_views(peers@);
    let mut i: usize = 0;
    assert(all.skip(0) =~= all);
    while i < peers.len()
        invariant
            i <= peers@.len(),
            all == known_views(peers@),
            presenter(all.skip(i as int), credential@) == presenter(all, credential@),
        decreases peers@.len() - i,
    {
        let peer = &peers[i];
        let expected = concat2("Bearer ", peer.access.token.expose());
        assert(all.skip(i as int)[0] == peer@);
        assert(all.skip(i as int).drop_first() =~= all.skip(i + 1));
        if same_text(expected.as_str(), credential) {
            return Some(peer);
        }
        i = i + 1;
    }
    None
}

/// Decide about a call: who presents the credential, whether that peer may address
/// the endpoint, and whether it is a request at all.
pub fn authorize(
    peers: &Vec<KnownPeer>,
    credential: Option<&str>,
    endpoint: &str,
    jsonrpc: &str,
) -> (decision: Verdict)
    ensures
        decision@ == verdict(
            known_views(peers@),
            match credential {
                Some(credential) => Some(credential@),
                None => None,
            },
            endpoint@,
            jsonrpc@,
        ),
{
    let credential = match credential {
        Some(credential) => credential,
        None => {
            return Verdict::Unauthorized;
        },
    };
    let peer = match find_presenter(peers, credential) {
        Some(peer) => peer,
        None => {
            return Verdict::Unauthorized;
        },
    };
    let allowed = position_of(&peer.access.allowed_endpoints, endpoint);
    proof {
        let endpoints = peer@.endpoints;
        match allowed {
            Some(at) => {
                assert(endpoints[at as int] == endpoint@);
            },
            None => {
                assert forall|k: int| 0 <= k < endpoints.len() implies endpoints[k]
                    != endpoint@ by {
                    assert(endpoints[k] == peer.access.allowed_endpoints@[k]@);
                }
            },
        }
    }
    if allowed.is_none() {
        return Verdict::Unauthorized;
    }
    if !same_text(jsonrpc, "2.0") {
        return Verdict::Invalid;
    }
    Verdict::Serve { peer: peer.id.clone() }
}

/// A call is served only for a configured peer that presents its own token, and only
/// at an endpoint that this peer may address.
pub proof fn law_only_known_peers_are_served(
    peers: Seq<KnownView>,
    credential: Option<Seq<char>>,
    endpoint: Seq<char>,
    jsonrpc: Seq<char>,
)
    requires
        verdict(peers, credential, endpoint, jsonrpc) is Serve,
    ensures
        exists|i: int|
            0 <= i < peers.len() && (#[trigger] peers[i]).id == verdict(
                peers,
                credential,
                endpoint,
                jsonrpc,
            )->Serve_0 && credential == Some(bearer(peers[i].token)) && peers[i].endpoints.contains(
                endpoint,
            ),
{
    lemma_presenter(peers, credential->0);
}

/// The presenter is one of the peers.
proof fn lemma_presenter(peers: Seq<KnownView>, credential: Seq<char>)
    ensures
        presenter(peers, credential) matches Some(peer) ==> bearer(peer.token) == credential
            && exists|i: int| 0 <= i < peers.len() && #[trigger] peers[i] == peer,
    decreases peers.len(),
{
    if peers.len() > 0 {
        if bearer(peers[0].token) == credential {
            assert(peers[0] == peers[0]);
        } else {
            lemma_presenter(peers.drop_first(), credential);
            if let Some(peer) = presenter(peers.drop_first(), credential) {
                let rest = peers.drop_first();
                let i = choose|i: int| 0 <= i < rest.len() && #[trigger] rest[i] == peer;
                assert(peers[i + 1] == peer);
            }
        }
    }
}

/// What a caller is answered, as data: the HTTP status, and the result or the error.
pub ghost struct AnswerView {
    pub status: u16,
    pub outcome: Result<JsonView, (int, Seq<char>)>,
}

/// What the outcome of a served call is answered with.
pub open spec fn answer(outcome: Result<JsonView, A2aErrorView>) -> AnswerView {
    match outcome {
        Ok(value) => AnswerView { status: STATUS_OK, outcome: Ok(value) },
        Err(A2aErrorView::Unsupported) => AnswerView {
            status: STATUS_OK,
            outcome: Err((-32601, "method not supported"@)),
        },
        Err(A2aErrorView::TooLarge) => AnswerView {
            status: STATUS_PAYLOAD_TOO_LARGE,
            outcome: Err((-32002, "request too large"@)),
        },
        Err(_) => AnswerView {
            status: STATUS_BAD_REQUEST,
            outcome: Err((-32602, "invalid params"@)),
        },
    }
}

/// Whether `response` is `expected`, with the identity of the request.
pub open spec fn responds(response: JsonRpcResponse, id: JsonView, expected: Result<
    JsonView,
    (int, Seq<char>),
>) -> bool {
    &&& response.jsonrpc@ == "2.0"@
    &&& response.id@ == id
    &&& match expected {
        Ok(value) => response.error is None && (response.result matches Some(result) && result@
            == value),
        Err((code, message)) => response.result is None && (response.error matches Some(error)
            && error.code == code && error.message@ == message),
    }
}

/// An error response.
fn error(id: Json, code: i32, message: &'static str) -> (response: JsonRpcResponse)
    ensures
        responds(response, id@, Err((code as int, message@))),
{
    JsonRpcResponse {
        jsonrpc: "2.0".to_owned(),
        id,
        result: None,
        error: Some(JsonRpcError { code, message: message.to_owned() }),
    }
}

/// The answer to a caller that is not known or may not call the endpoint.
pub fn unauthorized(id: Json) -> (answer: (u16, JsonRpcResponse))
    ensures
        answer.0 == STATUS_UNAUTHORIZED,
        responds(answer.1, id@, Err((-32001, "unauthorized"@))),
{
    (STATUS_UNAUTHORIZED, error(id, -32001, "unauthorized"))
}

/// The answer to something that is no request.
pub fn invalid_request(id: Json) -> (answer: (u16, JsonRpcResponse))
    ensures
        answer.0 == STATUS_BAD_REQUEST,
        responds(answer.1, id@, Err((-32600, "invalid request"@))),
{
    (STATUS_BAD_REQUEST, error(id, -32600, "invalid request"))
}

/// An outcome as data.
pub open spec fn served(outcome: Result<Json, A2aError>) -> Result<JsonView, A2aErrorView> {
    match outcome {
        Ok(value) => Ok(value@),
        Err(error) => Err(error@),
    }
}

/// The answer to a call that was served. A failure is answered by its kind alone:
/// nothing of its detail goes out.
pub fn respond(id: Json, outcome: Result<Json, A2aError>) -> (reply: (u16, JsonRpcResponse))
    ensures
        reply.0 == answer(served(outcome)).status,
        responds(reply.1, id@, answer(served(outcome)).outcome),
{
    match outcome {
        Ok(value) => (
            STATUS_OK,
            JsonRpcResponse {
                jsonrpc: "2.0".to_owned(),
                id,
                result: Some(value),
                error: None,
            },
        ),
        Err(A2aError::Unsupported) => (STATUS_OK, error(id, -32601, "method not supported")),
        Err(A2aError::TooLarge) => (
            STATUS_PAYLOAD_TOO_LARGE,
            error(id, -32002, "request too large"),
        ),
        Err(_) => (STATUS_BAD_REQUEST, error(id, -32602, "invalid params")),
    }
}

/// Whether a call is served. It is where its credential is that of the first peer that has
/// this token, the peer may call the endpoint, and it is a request; a caller that is not
/// known, or may not call the endpoint, is told so before anything else.
pub proof fn law_a_call_is_judged_by_its_credential(
    peers: Seq<KnownView>,
    credential: Seq<char>,
    endpoint: Seq<char>,
    jsonrpc: Seq<char>,
    i: int,
)
    ensures
        verdict(peers, None, endpoint, jsonrpc) is Unauthorized,
        (forall|k: int| 0 <= k < peers.len() ==> "Bearer "@ + (#[trigger] peers[k]).token
            != credential) ==> verdict(peers, Some(credential), endpoint, jsonrpc) is Unauthorized,
        0 <= i < peers.len() && "Bearer "@ + peers[i].token == credential && (forall|k: int|
            0 <= k < i ==> "Bearer "@ + (#[trigger] peers[k]).token != credential) ==> verdict(
            peers,
            Some(credential),
            endpoint,
            jsonrpc,
        ) == (if !peers[i].endpoints.contains(endpoint) {
            VerdictView::Unauthorized
        } else if jsonrpc != "2.0"@ {
            VerdictView::Invalid
        } else {
            VerdictView::Serve(peers[i].id)
        }),
{
    lemma_first_presenter(peers, credential, i);
}

proof fn lemma_first_presenter(peers: Seq<KnownView>, credential: Seq<char>, i: int)
    ensures
        (forall|k: int| 0 <= k < peers.len() ==> "Bearer "@ + (#[trigger] peers[k]).token
            != credential) ==> presenter(peers, credential) is None,
        0 <= i < peers.len() && "Bearer "@ + peers[i].token == credential && (forall|k: int|
            0 <= k < i ==> "Bearer "@ + (#[trigger] peers[k]).token != credential) ==> presenter(
            peers,
            credential,
        ) == Some(peers[i]),
    decreases peers.len(),
{
    if peers.len() > 0 {
        let rest = peers.drop_first();
        lemma_first_presenter(rest, credential, i - 1);
        if forall|k: int| 0 <= k < peers.len() ==> "Bearer "@ + (#[trigger] peers[k]).token
            != credential {
            assert("Bearer "@ + peers[0].token != credential);
            assert forall|k: int| 0 <= k < rest.len() implies "Bearer "@ + (
            #[trigger] rest[k]).token != credential by {
                assert("Bearer "@ + peers[k + 1].token != credential);
            }
        }
        if 0 < i < peers.len() && (forall|k: int|
            0 <= k < i ==> "Bearer "@ + (#[trigger] peers[k]).token != credential) {
            assert("Bearer "@ + peers[0].token != credential);
            assert forall|k: int| 0 <= k < i - 1 implies "Bearer "@ + (#[trigger] rest[k]).token
                != credential by {
                assert("Bearer "@ + peers[k + 1].token != credential);
            }
            assert(rest[i - 1] == peers[i]);
        }
    }
}

/// What a peer is answered: the result where there is one; that a method is not supported,
/// or that the request is too large, where that is so; and otherwise that the request is
/// not valid, without saying why.
pub proof fn law_answers_tell_no_more_than_they_must(outcome: Result<JsonView, A2aErrorView>)
    ensures
        match outcome {
            Ok(value) => answer(outcome).status == 200 && answer(outcome).outcome == Ok::<
                JsonView,
                (int, Seq<char>),
            >(value),
            Err(error) => if error is Unsupported {
                answer(outcome).status == 200 && answer(outcome).outcome == Err::<
                    JsonView,
                    (int, Seq<char>),
                >((-32601int, "method not supported"@))
            } else if error is TooLarge {
                answer(outcome).status == 413 && answer(outcome).outcome == Err::<
                    JsonView,
                    (int, Seq<char>),
                >((-32002int, "request too large"@))
            } else {
                answer(outcome).status == 400 && answer(outcome).outcome == Err::<
                    JsonView,
                    (int, Seq<char>),
                >((-32602int, "invalid params"@))
            },
        },
{
}

/// A response is to its own request, and carries the result or the error that is answered,
/// and not both.
pub proof fn law_a_response_carries_one_of_two(
    response: JsonRpcResponse,
    id: JsonView,
    expected: Result<JsonView, (int, Seq<char>)>,
    outcome: Result<Json, A2aError>,
)
    requires
        responds(response, id, expected),
    ensures
        response.id@ == id,
        response.jsonrpc@ == "2.0"@,
        expected matches Ok(value) ==> response.error is None && (response.result matches Some(own)
            && own@ == value),
        expected matches Err((code, message)) ==> response.result is None && (response.error
            matches Some(own) && own.code == code && own.message@ == message),
        match outcome {
            Ok(value) => served(outcome) == Ok::<JsonView, A2aErrorView>(value@),
            Err(error) => served(outcome) == Err::<JsonView, A2aErrorView>(error@),
        },
{
}

} // verus!
