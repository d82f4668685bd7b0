//! The error taxonomy. Every error is fatal to the invoking operation: the
//! ledger is left exactly as it was.

use vstd::prelude::*;

verus! {

/// Errors raised by the oracle state machine's own validation rules.
#[derive(Clone, Copy, PartialEq, Eq, Structural, Debug)]
pub enum CyberOracleError {
    /// The caller is not the principal the operation requires (the
    /// configured authority, or a sequencer's bound owner).
    Unauthorized,
    /// The configured price is zero at the time a request is attempted.
    InvalidPrice,
    /// Fulfillment was attempted on a request that is already fulfilled.
    AlreadyFulfilled,
    /// The supplied result URI exceeds the 200-character bound.
    ResultUriTooLong,
    /// The supplied asset reference equals the null identity.
    InvalidAssetId,
    /// The per-user sequence counter would exceed its representable range.
    RequestIdOverflow,
}

/// Errors of a whole operation: either one of the state machine's own
/// validation errors, or a failure surfaced by the storage and payment
/// collaborators the ledger stands on. Both kinds abort the operation with
/// no state created or mutated.
#[derive(Clone, Copy, PartialEq, Eq, Structural, Debug)]
pub enum LedgerError {
    /// A validation rule of the oracle state machine failed.
    Oracle(CyberOracleError),
    /// Initialize was called although the configuration record exists.
    AlreadyInitialized,
    /// An operation other than Initialize found no configuration record.
    NotInitialized,
    /// Fulfillment addressed a (owner, sequence) pair with no request.
    RequestNotFound,
    /// The payment transfer failed: the declared treasury does not match
    /// the configured one, the payer lacks funds, or the destination
    /// balance cannot take the amount.
    TransferFailed,
}

} // verus!
