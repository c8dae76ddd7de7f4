//! Balances: a 256-bit unsigned integer with checked addition and
//! subtraction. All registry arithmetic goes through this type; an operation
//! that would overflow or underflow reports failure instead of wrapping.

use vstd::prelude::*;

verus! {

/// `2^128`, the weight of the high word of a [`U256`].
pub open spec fn u256_base() -> int {
    0x100000000000000000000000000000000int
}

/// `2^256`, one past the largest representable balance.
pub open spec fn u256_limit() -> int {
    0x10000000000000000000000000000000000000000000000000000000000000000int
}

/// A 256-bit unsigned balance, as two 128-bit little-endian limbs.
#[derive(Clone, Copy, PartialEq, Eq, Structural, Debug)]
pub struct U256 {
    pub lo: u128,
    pub hi: u128,
}

impl U256 {
    /// The mathematical value of this balance.
    pub open spec fn val(self) -> int {
        self.hi * u256_base() + self.lo
    }

    /// Every balance value lies in `[0, 2^256)`.
    pub proof fn lemma_val_range(self)
        ensures
            0 <= self.val() < u256_limit(),
    {
        assert(self.hi * u256_base() <= (u256_base() - 1) * u256_base());
    }

    /// Two balances with the same value are the same pair of limbs.
    pub proof fn lemma_val_injective(self, other: U256)
        requires
            self.val() == other.val(),
        ensures
            self == other,
    {
        assert(self.hi == other.hi) by {
            if self.hi < other.hi {
                assert(other.hi * u256_base() >= (self.hi + 1) * u256_base());
            }
            if self.hi > other.hi {
                assert(self.hi * u256_base() >= (other.hi + 1) * u256_base());
            }
        }
    }

    /// The zero balance.
    pub fn zero() -> (r: U256)
        ensures
            r.val() == 0,
    {
        U256 { lo: 0, hi: 0 }
    }

    /// Embeds a 128-bit quantity as a balance.
    pub fn from_u128(x: u128) -> (r: U256)
        ensures
            r.val() == x,
    {
        U256 { lo: x, hi: 0 }
    }

    /// Checked addition: `None` exactly when the sum does not fit in 256 bits.
    pub fn checked_add(self, rhs: U256) -> (r: Option<U256>)
        ensures
            (r is Some) <==> self.val() + rhs.val() < u256_limit(),
            r matches Some(s) ==> s.val() == self.val() + rhs.val(),
    {
        proof {
            self.lemma_val_range();
            rhs.lemma_val_range();
        }
        let (lo, carry): (u128, u128) = if self.lo <= u128::MAX - rhs.lo {
            (self.lo + rhs.lo, 0)
        } else {
            (self.lo - (u128::MAX - rhs.lo) - 1, 1)
        };
        if self.hi > u128::MAX - rhs.hi {
            proof {
                assert((self.hi + rhs.hi) * u256_base() >= u256_base() * u256_base());
            }
            return None;
        }
        let s: u128 = self.hi + rhs.hi;
        if carry == 1 {
            if s == u128::MAX {
                proof {
                    assert((self.hi + rhs.hi + 1) * u256_base() == u256_base() * u256_base());
                }
                return None;
            }
            Some(U256 { lo, hi: s + 1 })
        } else {
            Some(U256 { lo, hi: s })
        }
    }

    /// Checked subtraction: `None` exactly when `rhs` exceeds `self`.
    pub fn checked_sub(self, rhs: U256) -> (r: Option<U256>)
        ensures
            (r is Some) <==> self.val() >= rhs.val(),
            r matches Some(s) ==> s.val() == self.val() - rhs.val(),
    {
        let (lo, borrow): (u128, u128) = if self.lo >= rhs.lo {
            (self.lo - rhs.lo, 0)
        } else {
            (u128::MAX - rhs.lo + self.lo + 1, 1)
        };
        if borrow == 1 {
            if self.hi > rhs.hi {
                proof {
                    assert(self.hi * u256_base() >= (rhs.hi + 1) * u256_base());
                }
                Some(U256 { lo, hi: self.hi - rhs.hi - 1 })
            } else {
                proof {
                    assert(rhs.hi * u256_base() >= self.hi * u256_base());
                }
                None
            }
        } else {
            if self.hi >= rhs.hi {
                proof {
                    assert(self.hi * u256_base() >= rhs.hi * u256_base());
                }
                Some(U256 { lo, hi: self.hi - rhs.hi })
            } else {
                proof {
                    assert(rhs.hi * u256_base() >= (self.hi + 1) * u256_base());
                }
                None
            }
        }
    }

    /// Value comparison: at least.
    pub fn ge(self, rhs: U256) -> (r: bool)
        ensures
            r <==> self.val() >= rhs.val(),
    {
        proof {
            if self.hi < rhs.hi {
                assert(rhs.hi * u256_base() >= (self.hi + 1) * u256_base());
            }
            if self.hi > rhs.hi {
                assert(self.hi * u256_base() >= (rhs.hi + 1) * u256_base());
            }
        }
        if self.hi > rhs.hi {
            true
        } else if self.hi < rhs.hi {
            false
        } else {
            self.lo >= rhs.lo
        }
    }

    /// Value comparison: equal.
    pub fn eq_val(self, rhs: U256) -> (r: bool)
        ensures
            r <==> self.val() == rhs.val(),
    {
        proof {
            if self == rhs {
            } else {
                if self.val() == rhs.val() {
                    self.lemma_val_injective(rhs);
                }
            }
        }
        self.lo == rhs.lo && self.hi == rhs.hi
    }
}

} // verus!
