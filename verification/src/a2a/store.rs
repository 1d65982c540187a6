//! What the exchange table decides.
//!
//! An exchange is one request, known by its peer, its direction and its request
//! id. Asking again with the same request is answered from the exchange; asking
//! with another one under the same id is a conflict.

use vstd::prelude::*;
use vstd::string::*;

use crate::a2a::error::A2aError;
use crate::a2a::error::A2aErrorView;
use crate::acp::result::optional;
use crate::text::same_text;

verus! {

/// Most exchanges cleaned in one batch.
pub const MAX_CLEANUP_BATCH: u32 = 256;

/// One stored exchange.
#[derive(Debug, Clone, PartialEq, Eq)]
pub struct ExchangeRecord {
    pub exchange_id: String,
    pub peer_id: String,
    pub request_id: String,
    pub request_hash: String,
    pub external_task_id: Option<String>,
    pub internal_task_id: Option<String>,
    pub state: String,
    pub revision: i64,
    pub content_bytes: i64,
    pub content_cleaned: bool,
}

/// What reserving an exchange came to.
#[derive(Debug, Clone, PartialEq, Eq)]
pub enum InboundReservation {
    /// The exchange is new.
    New(ExchangeRecord),
    /// The exchange was there.
    Replay(ExchangeRecord),
}

/// An exchange whose content this runtime may remove.
#[derive(Debug, Clone, PartialEq, Eq)]
pub struct CleanupClaim {
    pub exchange_id: String,
    pub revision: i64,
}

/// What is decided on a request of a peer with this hash, given the exchange that is
/// there for its request id.
pub open spec fn decided_inbound(
    existing: Option<ExchangeRecord>,
    request_hash: Seq<char>,
    decision: Result<Option<ExchangeRecord>, A2aError>,
) -> bool {
    match existing {
        None => decision == Ok::<Option<ExchangeRecord>, A2aError>(None),
        Some(record) => if record.request_hash@ == request_hash {
            decision == Ok::<Option<ExchangeRecord>, A2aError>(Some(record))
        } else {
            decision matches Err(error) && error@ == A2aErrorView::Conflict
        },
    }
}

/// Decide on a request of a peer that may have been seen: an exchange that is
/// there with the same request is replayed, one with another request is a
/// conflict, and nothing there means that one is to be inserted.
pub fn inbound_reservation(existing: Option<ExchangeRecord>, request_hash: &str) -> (decision:
    Result<Option<ExchangeRecord>, A2aError>)
    ensures
        decided_inbound(existing, request_hash@, decision),
{
    match existing {
        None => Ok(None),
        Some(record) => if same_text(record.request_hash.as_str(), request_hash) {
            Ok(Some(record))
        } else {
            Err(A2aError::Conflict)
        },
    }
}

/// Decide on a task that may have been sent: an exchange that is there for the same
/// task is replayed, one for another task is a conflict, and nothing there means
/// that one is to be inserted.
pub fn outbound_reservation(existing: Option<ExchangeRecord>, internal_task_id: &str) -> (decision:
    Result<Option<ExchangeRecord>, A2aError>)
    ensures
        match existing {
            None => decision == Ok::<Option<ExchangeRecord>, A2aError>(None),
            Some(record) => if optional(record.internal_task_id) == Some(internal_task_id@) {
                decision == Ok::<Option<ExchangeRecord>, A2aError>(Some(record))
            } else {
                decision matches Err(error) && error@ == A2aErrorView::Conflict
            },
        },
{
    match existing {
        None => Ok(None),
        Some(record) => {
            let same = match &record.internal_task_id {
                Some(id) => same_text(id.as_str(), internal_task_id),
                None => false,
            };
            if same {
                Ok(Some(record))
            } else {
                Err(A2aError::Conflict)
            }
        },
    }
}

/// Accept only the states in which a peer has taken a task.
pub fn acceptance_state(state: &str) -> (valid: Result<(), A2aError>)
    ensures
        valid is Ok <==> state@ == "submitted"@ || state@ == "working"@,
        valid matches Err(error) ==> error@ == A2aErrorView::Protocol("invalid acceptance state"@),
{
    if same_text(state, "submitted") || same_text(state, "working") {
        Ok(())
    } else {
        Err(A2aError::Protocol("invalid acceptance state"))
    }
}

/// Accept only the states in which a task is over.
pub fn terminal_state(state: &str) -> (valid: Result<(), A2aError>)
    ensures
        valid is Ok <==> state@ == "completed"@ || state@ == "failed"@ || state@ == "canceled"@
            || state@ == "rejected"@,
        valid matches Err(error) ==> error@ == A2aErrorView::Protocol("invalid terminal state"@),
{
    if same_text(state, "completed") || same_text(state, "failed") || same_text(state, "canceled")
        || same_text(state, "rejected") {
        Ok(())
    } else {
        Err(A2aError::Protocol("invalid terminal state"))
    }
}

/// Accept a batch of at least one and at most [`MAX_CLEANUP_BATCH`] exchanges.
pub fn cleanup_limit(limit: u32) -> (valid: Result<(), A2aError>)
    ensures
        valid is Ok <==> 1 <= limit <= MAX_CLEANUP_BATCH,
        valid matches Err(error) ==> error@ == A2aErrorView::Config(
            "cleanup batch must be 1..=256"@,
        ),
{
    if limit == 0 || limit > MAX_CLEANUP_BATCH {
        Err(A2aError::Config("cleanup batch must be 1..=256"))
    } else {
        Ok(())
    }
}

/// The claim that taking an exchange at `revision` gives, where the exchange was
/// still there to be taken. Taking it is itself a revision.
pub fn claim(exchange_id: String, revision: i64, rows: u64) -> (claim: Option<CleanupClaim>)
    requires
        revision < i64::MAX,
    ensures
        match claim {
            Some(claim) => rows == 1 && claim.exchange_id == exchange_id && claim.revision
                == revision + 1,
            None => rows != 1,
        },
{
    if rows == 1 {
        Some(CleanupClaim { exchange_id, revision: revision + 1 })
    } else {
        None
    }
}

} // verus!
