//! What the bridge asks of a peer, and what it makes of the answer.

use vstd::prelude::*;
use vstd::string::*;

use crate::a2a::error::A2aError;
use crate::a2a::error::A2aErrorView;
use crate::a2a::wire::JsonRpcRequest;
use crate::a2a::wire::JsonRpcResponse;
use crate::a2a::wire::TaskQuery;
use crate::a2a::wire::TaskSnapshot;
use crate::a2a::wire::PROTOCOL_VERSION;
use crate::ids::fresh_uuid;
use crate::ids::is_fresh_text;
use crate::ids::uuid_text;
use crate::json::Json;
use crate::json::JsonView;

verus! {

/// How long a peer may take to answer, in seconds.
pub const REQUEST_TIMEOUT_SECS: u64 = 30;

/// Largest private certificate authority that is read, in bytes.
pub const MAX_PRIVATE_CA_BYTES: u64 = 262_144;

/// Which certificates a peer is trusted by.
#[derive(Debug, Clone, PartialEq, Eq)]
pub enum TrustPolicy {
    /// Those of the public authorities.
    WebPki,
    /// Those of this authority alone.
    PrivateCa(Vec<u8>),
}

/// Which certificates a peer is trusted by, where `private_ca` is what loading its
/// configured authority gave. An authority that cannot be loaded is a failure, and
/// never a reason to trust others.
pub fn trust_policy(private_ca: Option<Result<Vec<u8>, A2aError>>) -> (trust: Result<
    TrustPolicy,
    A2aError,
>)
    ensures
        match private_ca {
            None => trust matches Ok(TrustPolicy::WebPki),
            Some(Ok(pem)) => trust == Ok::<TrustPolicy, A2aError>(TrustPolicy::PrivateCa(pem)),
            Some(Err(error)) => trust == Err::<TrustPolicy, A2aError>(error),
        },
{
    match private_ca {
        None => Ok(TrustPolicy::WebPki),
        Some(Ok(pem)) => Ok(TrustPolicy::PrivateCa(pem)),
        Some(Err(error)) => Err(error),
    }
}

/// Judge the file of a private authority before it is read: `found` says whether it
/// is a regular file, and how long it is.
pub fn judge_private_ca(found: Option<(bool, u64)>, max_bytes: u64) -> (valid: Result<
    (),
    A2aError,
>)
    ensures
        match (found, valid) {
            (None, Err(error)) => error@ == A2aErrorView::Config("private CA unavailable"@),
            (None, Ok(_)) => false,
            (Some((regular, len)), Ok(_)) => regular && len <= max_bytes,
            (Some((regular, len)), Err(error)) => !(regular && len <= max_bytes) && error@
                == A2aErrorView::Config("private CA must be a bounded regular file"@),
        },
{
    match found {
        None => Err(A2aError::Config("private CA unavailable")),
        Some((regular, len)) => if !regular || len > max_bytes {
            Err(A2aError::Config("private CA must be a bounded regular file"))
        } else {
            Ok(())
        },
    }
}

/// Whether an HTTP status means success.
pub open spec fn success(status: u16) -> bool {
    200 <= status <= 299
}

/// Judge the status of an answer to a call.
pub fn judge_status(status: u16) -> (valid: Result<(), A2aError>)
    ensures
        match valid {
            Ok(_) => success(status),
            Err(error) => !success(status) && error@ == (if status == 401 {
                A2aErrorView::Unauthorized
            } else {
                A2aErrorView::Protocol("remote HTTP status"@)
            }),
        },
{
    if 200 <= status && status <= 299 {
        Ok(())
    } else if status == 401 {
        Err(A2aError::Unauthorized)
    } else {
        Err(A2aError::Protocol("remote HTTP status"))
    }
}

/// Judge the status of an answer to a request for an agent card.
pub fn judge_card_status(status: u16) -> (valid: Result<(), A2aError>)
    ensures
        valid is Ok <==> success(status),
        valid matches Err(error) ==> error@ == A2aErrorView::Protocol(
            "remote Agent Card HTTP status"@,
        ),
{
    if 200 <= status && status <= 299 {
        Ok(())
    } else {
        Err(A2aError::Protocol("remote Agent Card HTTP status"))
    }
}

/// Judge the length of an answer.
pub fn judge_length(len: usize, max_response_bytes: usize) -> (valid: Result<(), A2aError>)
    ensures
        valid is Ok <==> len <= max_response_bytes,
        valid matches Err(error) ==> error@ == A2aErrorView::TooLarge,
{
    if len > max_response_bytes {
        Err(A2aError::TooLarge)
    } else {
        Ok(())
    }
}

/// The result that an answer carries. `envelope` is none where it could not be read.
pub fn envelope_result(envelope: Option<JsonRpcResponse>) -> (result: Result<Json, A2aError>)
    ensures
        match envelope {
            None => result matches Err(error) && error@ == A2aErrorView::Protocol(
                "invalid JSON-RPC response"@,
            ),
            Some(envelope) => if envelope.error is Some {
                result matches Err(error) && error@ == A2aErrorView::Protocol(
                    "remote JSON-RPC error"@,
                )
            } else {
                match envelope.result {
                    Some(value) => result == Ok::<Json, A2aError>(value),
                    None => result matches Err(error) && error@ == A2aErrorView::Protocol(
                        "missing result"@,
                    ),
                }
            },
        },
{
    match envelope {
        None => Err(A2aError::Protocol("invalid JSON-RPC response")),
        Some(envelope) => {
            if envelope.error.is_some() {
                return Err(A2aError::Protocol("remote JSON-RPC error"));
            }
            match envelope.result {
                Some(value) => Ok(value),
                None => Err(A2aError::Protocol("missing result")),
            }
        },
    }
}

/// The task that a result is. It is none where it could not be read.
pub fn task_result(snapshot: Option<TaskSnapshot>) -> (task: Result<TaskSnapshot, A2aError>)
    ensures
        match snapshot {
            Some(snapshot) => task == Ok::<TaskSnapshot, A2aError>(snapshot),
            None => task matches Err(error) && error@ == A2aErrorView::Protocol(
                "invalid task result"@,
            ),
        },
{
    match snapshot {
        Some(snapshot) => Ok(snapshot),
        None => Err(A2aError::Protocol("invalid task result")),
    }
}

/// A call of `method`, under an identity of its own.
pub fn rpc_request(method: &str, params: Json) -> (request: JsonRpcRequest)
    ensures
        request.jsonrpc@ == "2.0"@,
        request.id@ matches JsonView::Text(id) && is_fresh_text(id),
        request.method@ == method@,
        request.params == params,
{
    let id = uuid_text(fresh_uuid());
    JsonRpcRequest {
        jsonrpc: "2.0".to_owned(),
        id: Json::text(id.as_str()),
        method: method.to_owned(),
        params,
    }
}

/// The query for a task.
pub fn task_query(task_id: &str) -> (query: TaskQuery)
    ensures
        query.protocol_version@ == PROTOCOL_VERSION@,
        query.task_id@ == task_id@,
{
    TaskQuery { protocol_version: PROTOCOL_VERSION.to_owned(), task_id: task_id.to_owned() }
}

/// An answer counts as a success where its status is one, and no other does; a call is
/// waited for as long as is fixed, and a certificate is read up to a size that is.
pub proof fn law_only_a_success_counts(status: u16)
    ensures
        success(status) <==> status / 100 == 2,
        MAX_PRIVATE_CA_BYTES == 262_144,
{
}

} // verus!
