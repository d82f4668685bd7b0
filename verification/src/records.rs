//! The three persistent record kinds and their well-formedness conditions.

use vstd::prelude::*;

use crate::identity::Identity;

verus! {

/// The singleton configuration record: the controlling authority, the
/// payment destination, and the current price. Created once by Initialize,
/// mutated only by UpdatePrice.
#[derive(Clone, Copy, PartialEq, Eq, Structural, Debug)]
pub struct OracleState {
    /// The sole principal permitted to change the price and to fulfill.
    pub authority: Identity,
    /// The payment destination; opaque, never validated beyond existing.
    pub treasury: Identity,
    /// The payment amount required per request. May be zero, in which case
    /// requests are rejected until it is raised.
    pub price_lamports: u64,
    /// Salt the address-derivation collaborator produced for this record.
    pub bump: u8,
}

/// One per-requester sequencer, created lazily on a user's first request.
/// `next_request_id` is the sequence number the next request will get.
#[derive(Clone, Copy, PartialEq, Eq, Structural, Debug)]
pub struct UserCounter {
    /// The requester this sequencer is bound to for life.
    pub user: Identity,
    /// The next sequence number to assign; starts at 0, never decreases.
    pub next_request_id: u64,
    /// Salt the address-derivation collaborator produced for this record.
    pub bump: u8,
}

/// One request record per (owner, sequence) pair. Created unfulfilled by
/// RequestOracle; mutated exactly once by FulfillOracle, which attaches the
/// result and sets `fulfilled` irrevocably.
#[derive(Debug)]
pub struct OracleRequest {
    /// The requester; copied from the payer at creation, never changed.
    pub user: Identity,
    /// The sequence number assigned at creation, never changed.
    pub request_id: u64,
    /// The 32-byte prompt digest the requester supplied; opaque.
    pub prompt_hash: [u8; 32],
    /// The result location; empty until fulfilled, at most 200 characters.
    pub result_uri: String,
    /// Result asset reference; null until fulfilled, never null after.
    pub asset_id: Identity,
    /// Result collection reference; null until fulfilled, may stay null.
    pub collection_mint: Identity,
    /// False at creation; becomes true exactly once and never reverts.
    pub fulfilled: bool,
    /// Salt the address-derivation collaborator produced for this record.
    pub bump: u8,
}

impl OracleRequest {
    /// The largest number of characters a result URI may hold.
    pub const MAX_RESULT_URI: usize = 200;
}

/// The mathematical value of a request record: the same fields with the
/// prompt digest and the result URI as sequences.
#[verifier::ext_equal]
pub struct RequestModel {
    pub user: Identity,
    pub request_id: u64,
    pub prompt_hash: Seq<u8>,
    pub result_uri: Seq<char>,
    pub asset_id: Identity,
    pub collection_mint: Identity,
    pub fulfilled: bool,
    pub bump: u8,
}

impl View for OracleRequest {
    type V = RequestModel;

    open spec fn view(&self) -> RequestModel {
        RequestModel {
            user: self.user,
            request_id: self.request_id,
            prompt_hash: self.prompt_hash@,
            result_uri: self.result_uri@,
            asset_id: self.asset_id,
            collection_mint: self.collection_mint,
            fulfilled: self.fulfilled,
            bump: self.bump,
        }
    }
}

impl RequestModel {
    /// Well-formedness of a single request record: the digest is 32 bytes;
    /// the URI never exceeds its bound; before fulfillment the result
    /// fields are empty; after it the asset reference is set.
    pub open spec fn wf(self) -> bool {
        &&& self.prompt_hash.len() == 32
        &&& self.result_uri.len() <= 200
        &&& !self.fulfilled ==> {
            &&& self.result_uri.len() == 0
            &&& self.asset_id.is_null()
            &&& self.collection_mint.is_null()
        }
        &&& self.fulfilled ==> !self.asset_id.is_null()
    }
}

} // verus!
