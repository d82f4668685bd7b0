//! A paid-oracle request/fulfillment ledger.
//!
//! A requester pays a fixed fee to submit a hashed prompt; a privileged
//! authority later attaches a computed result (a URI plus two identifier
//! references) to that specific request. The ledger tracks a singleton
//! configuration record, one sequence counter per requester, one request
//! record per (owner, sequence) pair, and the account balances that the
//! payment transfers move between.
//!
//! The executable operations in [`ops`] are verified against the
//! mathematical transition functions in [`model`]; the laws that hold
//! across whole operation sequences are proved in [`laws`].

pub mod address;
pub mod errors;
pub mod identity;
pub mod laws;
pub mod ledger;
pub mod model;
pub mod ops;
pub mod records;
