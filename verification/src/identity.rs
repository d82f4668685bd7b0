//! Identities of principals and accounts.
//!
//! An identity is an opaque 256-bit value, held as four 64-bit words. The
//! ledger never inspects an identity beyond comparing it to another one and
//! to the distinguished null identity (all words zero), which marks fields
//! that have not been set yet.

use vstd::prelude::*;

verus! {

/// An opaque 256-bit principal or account identifier.
#[derive(Clone, Copy, PartialEq, Eq, Structural, Debug, Hash)]
pub struct Identity {
    pub w0: u64,
    pub w1: u64,
    pub w2: u64,
    pub w3: u64,
}

impl Identity {
    /// The null identity: every word zero. Used as the "not set" marker.
    pub open spec fn spec_null() -> Identity {
        Identity { w0: 0, w1: 0, w2: 0, w3: 0 }
    }

    /// True exactly of the null identity.
    pub open spec fn is_null(self) -> bool {
        self == Identity::spec_null()
    }

    /// Builds the null identity.
    pub fn null() -> (r: Identity)
        ensures
            r == Identity::spec_null(),
    {
        Identity { w0: 0, w1: 0, w2: 0, w3: 0 }
    }

    /// Builds an identity from its four 64-bit words.
    pub fn from_words(w0: u64, w1: u64, w2: u64, w3: u64) -> (r: Identity)
        ensures
            r == (Identity { w0, w1, w2, w3 }),
    {
        Identity { w0, w1, w2, w3 }
    }
}

} // verus!
