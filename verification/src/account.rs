//! Account identifiers: opaque 32-byte values, held as four 64-bit words.

use vstd::prelude::*;

verus! {

/// A 32-byte account identifier, stored as four little-endian 64-bit words
/// (`w0` holds bytes 0..8 of the wire form, `w3` bytes 24..32).
#[derive(Clone, Copy, PartialEq, Eq, Structural, Debug, Hash)]
pub struct AccountId {
    pub w0: u64,
    pub w1: u64,
    pub w2: u64,
    pub w3: u64,
}

impl AccountId {
    /// Builds an identifier from its four words.
    pub fn from_words(w0: u64, w1: u64, w2: u64, w3: u64) -> (r: AccountId)
        ensures
            r == (AccountId { w0, w1, w2, w3 }),
    {
        AccountId { w0, w1, w2, w3 }
    }
}

} // verus!
