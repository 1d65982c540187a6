//! The adapter for agents that speak the Agent Client Protocol over stdio.

use vstd::prelude::*;

use crate::text::fit;
use crate::text::fit_bytes;

pub mod client;
pub mod connection;
pub mod dispatcher;
pub mod error;
pub mod framing;
pub mod jsonrpc;
pub mod result;
pub mod schema;
pub mod session;
pub mod transport;
pub mod turn;

verus! {

/// How much of any single detail text is retained, in bytes.
pub const MAX_DETAIL_BYTES: usize = 256;

/// `text` cut to the bytes that a detail may take.
pub open spec fn bounded_text(text: Seq<char>) -> Seq<char> {
    fit(text, MAX_DETAIL_BYTES as nat)
}

/// Truncate `text` to [`MAX_DETAIL_BYTES`] at a character boundary.
pub fn bounded(text: &str) -> (kept: String)
    ensures
        kept@ == bounded_text(text@),
{
    fit_bytes(text, MAX_DETAIL_BYTES)
}

} // verus!
