//! Content-addressed, section-based transaction envelopes for a
//! proof-of-stake ledger: a canonical byte codec, SHA-256 content
//! addressing, wrapper encryption, a pending-decryption queue, and a
//! deterministic block-proposal builder.
use vstd::prelude::*;

pub mod crypto;
pub mod dkg;
pub mod header;
pub mod proposal;
pub mod queue;
pub mod section;
pub mod signed;
pub mod tx;
pub mod vp;
pub mod wire;

verus! {

/// Upper bound, in bytes, on a whole block proposal.
pub const MAX_PROPOSAL_SIZE: usize = 5242880;

/// Byte budget for the mempool phase of proposal building; the queue
/// phase is unbounded.
pub const HALF_MAX_PROPOSAL_SIZE: usize = 2621440;

/// The mempool-phase budget is half of the proposal bound.
pub fn half_max_proposal_size() -> (r: usize)
    ensures
        r == HALF_MAX_PROPOSAL_SIZE,
        2 * r == MAX_PROPOSAL_SIZE,
{
    HALF_MAX_PROPOSAL_SIZE
}

} // verus!
