//! The wire argument encoding of the dispatch surface: fixed-width
//! little-endian integers, 32-byte account identifiers, and length-prefixed
//! (32-bit little-endian count) byte strings and sequences. The spec
//! functions define the grammar; the executable readers are proved against
//! them. A tuple decodes only when it consumes its buffer exactly.

use vstd::prelude::*;
use crate::account::AccountId;
use crate::balance::U256;

verus! {

/// The value of a little-endian byte string.
pub open spec fn le_val(s: Seq<u8>) -> int
    decreases s.len(),
{
    if s.len() == 0 {
        0
    } else {
        s[0] + 256 * le_val(s.drop_first())
    }
}

/// `256^n`.
pub open spec fn pow256(n: nat) -> int
    decreases n,
{
    if n == 0 {
        1int
    } else {
        256 * pow256((n - 1) as nat)
    }
}

/// The concrete powers the fixed-width readers need.
pub proof fn lemma_pow256_values()
    ensures
        pow256(4) == 0x100000000int,
        pow256(8) == 0x10000000000000000int,
        pow256(16) == 0x100000000000000000000000000000000int,
{
    assert(pow256(0) == 1int);
    assert(pow256(1) == 0x100int);
    assert(pow256(2) == 0x10000int);
    assert(pow256(3) == 0x1000000int);
    assert(pow256(4) == 0x100000000int);
    assert(pow256(5) == 0x10000000000int);
    assert(pow256(6) == 0x1000000000000int);
    assert(pow256(7) == 0x100000000000000int);
    assert(pow256(8) == 0x10000000000000000int);
    assert(pow256(9) == 0x1000000000000000000int);
    assert(pow256(10) == 0x100000000000000000000int);
    assert(pow256(11) == 0x10000000000000000000000int);
    assert(pow256(12) == 0x1000000000000000000000000int);
    assert(pow256(13) == 0x100000000000000000000000000int);
    assert(pow256(14) == 0x10000000000000000000000000000int);
    assert(pow256(15) == 0x1000000000000000000000000000000int);
    assert(pow256(16) == 0x100000000000000000000000000000000int);
}

/// A little-endian value lies below `256^len`.
pub proof fn lemma_le_bound(s: Seq<u8>)
    ensures
        0 <= le_val(s) < pow256(s.len()),
    decreases s.len(),
{
    if s.len() > 0 {
        lemma_le_bound(s.drop_first());
    }
}

/// Splitting a byte string splits its value at the matching power.
pub proof fn lemma_le_split(s: Seq<u8>, k: int)
    requires
        0 <= k <= s.len(),
    ensures
        le_val(s) == le_val(s.subrange(0, k)) + pow256(k as nat) * le_val(
            s.subrange(k, s.len() as int),
        ),
    decreases k,
{
    if k == 0 {
        assert(s.subrange(0, 0).len() == 0);
        assert(s.subrange(0, s.len() as int) =~= s);
    } else {
        let d = s.drop_first();
        lemma_le_split(d, k - 1);
        assert(s.subrange(0, k).drop_first() =~= d.subrange(0, k - 1));
        assert(s.subrange(k, s.len() as int) =~= d.subrange(k - 1, d.len() as int));
        assert(le_val(s.subrange(0, k)) == s[0] + 256 * le_val(d.subrange(0, k - 1)));
        let p1 = pow256((k - 1) as nat);
        let x = le_val(d.subrange(k - 1, d.len() as int));
        assert(pow256(k as nat) == 256 * p1);
        assert(256 * (p1 * x) == (256 * p1) * x) by (nonlinear_arith);
    }
}

/// Reads the 4-byte little-endian integer at `pos`.
pub fn read_u32_at(bytes: &Vec<u8>, pos: usize) -> (r: u32)
    requires
        pos + 4 <= bytes@.len(),
    ensures
        r == le_val(bytes@.subrange(pos as int, pos as int + 4)),
{
    let _len: usize = bytes.len();  // pins the buffer length into usize for the index sums
    let b0 = bytes[pos] as u32;
    let b1 = bytes[pos + 1] as u32;
    let b2 = bytes[pos + 2] as u32;
    let b3 = bytes[pos + 3] as u32;
    let r = b0 + b1 * 0x100 + b2 * 0x10000 + b3 * 0x1000000;
    proof {
        reveal_with_fuel(le_val, 8);
        let p = pos as int;
        let s = bytes@.subrange(p, p + 4);
        assert(s.drop_first() =~= bytes@.subrange(p + 1, p + 4));
        assert(bytes@.subrange(p + 1, p + 4).drop_first() =~= bytes@.subrange(p + 2, p + 4));
        assert(bytes@.subrange(p + 2, p + 4).drop_first() =~= bytes@.subrange(p + 3, p + 4));
        assert(bytes@.subrange(p + 3, p + 4).drop_first() =~= bytes@.subrange(p + 4, p + 4));
        assert(bytes@.subrange(p + 4, p + 4).len() == 0);
        assert(s[0] == bytes@[p] && s.drop_first()[0] == bytes@[p + 1]);
    }
    r
}

/// Reads the 8-byte little-endian integer at `pos`.
pub fn read_u64_at(bytes: &Vec<u8>, pos: usize) -> (r: u64)
    requires
        pos + 8 <= bytes@.len(),
    ensures
        r == le_val(bytes@.subrange(pos as int, pos as int + 8)),
{
    let _len: usize = bytes.len();  // pins the buffer length into usize for the index sums
    let lo = read_u32_at(bytes, pos);
    let hi = read_u32_at(bytes, pos + 4);
    proof {
        let p = pos as int;
        let s = bytes@.subrange(p, p + 8);
        lemma_le_split(s, 4);
        lemma_pow256_values();
        assert(s.subrange(0, 4) =~= bytes@.subrange(p, p + 4));
        assert(s.subrange(4, 8) =~= bytes@.subrange(p + 4, p + 8));
        lemma_le_bound(bytes@.subrange(p + 4, p + 8));
    }
    (lo as u64) + (hi as u64) * 0x100000000
}

/// Reads the 16-byte little-endian integer at `pos`.
pub fn read_u128_at(bytes: &Vec<u8>, pos: usize) -> (r: u128)
    requires
        pos + 16 <= bytes@.len(),
    ensures
        r == le_val(bytes@.subrange(pos as int, pos as int + 16)),
{
    let _len: usize = bytes.len();  // pins the buffer length into usize for the index sums
    let lo = read_u64_at(bytes, pos);
    let hi = read_u64_at(bytes, pos + 8);
    proof {
        let p = pos as int;
        let s = bytes@.subrange(p, p + 16);
        lemma_le_split(s, 8);
        lemma_pow256_values();
        assert(s.subrange(0, 8) =~= bytes@.subrange(p, p + 8));
        assert(s.subrange(8, 16) =~= bytes@.subrange(p + 8, p + 16));
        lemma_le_bound(bytes@.subrange(p + 8, p + 16));
    }
    (lo as u128) + (hi as u128) * 0x10000000000000000
}

/// The balance encoded at `pos`: 32 little-endian bytes.
pub open spec fn sp_u256_at(s: Seq<u8>, pos: int) -> U256 {
    U256 {
        lo: le_val(s.subrange(pos, pos + 16)) as u128,
        hi: le_val(s.subrange(pos + 16, pos + 32)) as u128,
    }
}

/// Reads the 32-byte little-endian balance at `pos`.
pub fn read_u256_at(bytes: &Vec<u8>, pos: usize) -> (r: U256)
    requires
        pos + 32 <= bytes@.len(),
    ensures
        r == sp_u256_at(bytes@, pos as int),
        r.val() == le_val(bytes@.subrange(pos as int, pos as int + 32)),
{
    let _len: usize = bytes.len();  // pins the buffer length into usize for the index sums
    let lo = read_u128_at(bytes, pos);
    let hi = read_u128_at(bytes, pos + 16);
    proof {
        let p = pos as int;
        let s = bytes@.subrange(p, p + 32);
        lemma_le_split(s, 16);
        lemma_pow256_values();
        assert(s.subrange(0, 16) =~= bytes@.subrange(p, p + 16));
        assert(s.subrange(16, 32) =~= bytes@.subrange(p + 16, p + 32));
        lemma_le_bound(bytes@.subrange(p, p + 16));
        lemma_le_bound(bytes@.subrange(p + 16, p + 32));
        assert(bytes@.subrange(p, p + 32) =~= s);
    }
    U256 { lo, hi }
}

/// The account identifier encoded at `pos`: 32 bytes, four 8-byte words.
pub open spec fn sp_account_at(s: Seq<u8>, pos: int) -> AccountId {
    AccountId {
        w0: le_val(s.subrange(pos, pos + 8)) as u64,
        w1: le_val(s.subrange(pos + 8, pos + 16)) as u64,
        w2: le_val(s.subrange(pos + 16, pos + 24)) as u64,
        w3: le_val(s.subrange(pos + 24, pos + 32)) as u64,
    }
}

/// Reads the 32-byte account identifier at `pos`.
pub fn read_account_at(bytes: &Vec<u8>, pos: usize) -> (r: AccountId)
    requires
        pos + 32 <= bytes@.len(),
    ensures
        r == sp_account_at(bytes@, pos as int),
{
    let _len: usize = bytes.len();  // pins the buffer length into usize for the index sums
    proof {
        lemma_pow256_values();
        lemma_le_bound(bytes@.subrange(pos as int, pos as int + 8));
        lemma_le_bound(bytes@.subrange(pos as int + 8, pos as int + 16));
        lemma_le_bound(bytes@.subrange(pos as int + 16, pos as int + 24));
        lemma_le_bound(bytes@.subrange(pos as int + 24, pos as int + 32));
    }
    AccountId {
        w0: read_u64_at(bytes, pos),
        w1: read_u64_at(bytes, pos + 8),
        w2: read_u64_at(bytes, pos + 16),
        w3: read_u64_at(bytes, pos + 24),
    }
}

/// A u32 field: present iff 4 bytes remain.
pub open spec fn sp_u32(s: Seq<u8>, pos: int) -> Option<(u32, int)> {
    if 0 <= pos && pos + 4 <= s.len() {
        Some((le_val(s.subrange(pos, pos + 4)) as u32, pos + 4))
    } else {
        None
    }
}

/// A balance field: present iff 32 bytes remain.
pub open spec fn sp_u256(s: Seq<u8>, pos: int) -> Option<(U256, int)> {
    if 0 <= pos && pos + 32 <= s.len() {
        Some((sp_u256_at(s, pos), pos + 32))
    } else {
        None
    }
}

/// An account field: present iff 32 bytes remain.
pub open spec fn sp_account(s: Seq<u8>, pos: int) -> Option<(AccountId, int)> {
    if 0 <= pos && pos + 32 <= s.len() {
        Some((sp_account_at(s, pos), pos + 32))
    } else {
        None
    }
}

/// A u8 field.
pub open spec fn sp_u8(s: Seq<u8>, pos: int) -> Option<(u8, int)> {
    if 0 <= pos && pos + 1 <= s.len() {
        Some((s[pos], pos + 1))
    } else {
        None
    }
}

/// A bool field: one byte, 0 or 1.
pub open spec fn sp_bool(s: Seq<u8>, pos: int) -> Option<(bool, int)> {
    if 0 <= pos && pos + 1 <= s.len() && (s[pos] == 0 || s[pos] == 1) {
        Some((s[pos] == 1, pos + 1))
    } else {
        None
    }
}

/// A length-prefixed byte string.
pub open spec fn sp_bytes(s: Seq<u8>, pos: int) -> Option<(Seq<u8>, int)> {
    if 0 <= pos && pos + 4 <= s.len() {
        let n = le_val(s.subrange(pos, pos + 4));
        if pos + 4 + n <= s.len() {
            Some((s.subrange(pos + 4, pos + 4 + n), pos + 4 + n))
        } else {
            None
        }
    } else {
        None
    }
}

/// A length-prefixed sequence of u32 values.
pub open spec fn sp_u32_seq(s: Seq<u8>, pos: int) -> Option<(Seq<u32>, int)> {
    if 0 <= pos && pos + 4 <= s.len() {
        let n = le_val(s.subrange(pos, pos + 4));
        if pos + 4 + 4 * n <= s.len() {
            Some(
                (
                    Seq::new(n as nat, |i: int| le_val(
                        s.subrange(pos + 4 + 4 * i, pos + 8 + 4 * i),
                    ) as u32),
                    pos + 4 + 4 * n,
                ),
            )
        } else {
            None
        }
    } else {
        None
    }
}

/// A length-prefixed sequence of balances.
pub open spec fn sp_u256_seq(s: Seq<u8>, pos: int) -> Option<(Seq<U256>, int)> {
    if 0 <= pos && pos + 4 <= s.len() {
        let n = le_val(s.subrange(pos, pos + 4));
        if pos + 4 + 32 * n <= s.len() {
            Some(
                (
                    Seq::new(n as nat, |i: int| sp_u256_at(s, pos + 4 + 32 * i)),
                    pos + 4 + 32 * n,
                ),
            )
        } else {
            None
        }
    } else {
        None
    }
}

/// Reads a u32 field, if the buffer holds one.
pub fn read_u32(bytes: &Vec<u8>, pos: usize) -> (r: Option<(u32, usize)>)
    ensures
        match r {
            Some(t) => sp_u32(bytes@, pos as int) == Some((t.0, t.1 as int)) && t.1 <= bytes@.len(),
            None => sp_u32(bytes@, pos as int) is None,
        },
{
    if pos <= bytes.len() && bytes.len() - pos >= 4 {
        Some((read_u32_at(bytes, pos), pos + 4))
    } else {
        None
    }
}

/// Reads a balance field, if the buffer holds one.
pub fn read_u256(bytes: &Vec<u8>, pos: usize) -> (r: Option<(U256, usize)>)
    ensures
        match r {
            Some(t) => sp_u256(bytes@, pos as int) == Some((t.0, t.1 as int)) && t.1
                <= bytes@.len(),
            None => sp_u256(bytes@, pos as int) is None,
        },
{
    if pos <= bytes.len() && bytes.len() - pos >= 32 {
        Some((read_u256_at(bytes, pos), pos + 32))
    } else {
        None
    }
}

/// Reads an account field, if the buffer holds one.
pub fn read_account(bytes: &Vec<u8>, pos: usize) -> (r: Option<(AccountId, usize)>)
    ensures
        match r {
            Some(t) => sp_account(bytes@, pos as int) == Some((t.0, t.1 as int)) && t.1
                <= bytes@.len(),
            None => sp_account(bytes@, pos as int) is None,
        },
{
    if pos <= bytes.len() && bytes.len() - pos >= 32 {
        Some((read_account_at(bytes, pos), pos + 32))
    } else {
        None
    }
}

/// Reads a u8 field, if the buffer holds one.
pub fn read_u8(bytes: &Vec<u8>, pos: usize) -> (r: Option<(u8, usize)>)
    ensures
        match r {
            Some(t) => sp_u8(bytes@, pos as int) == Some((t.0, t.1 as int)) && t.1 <= bytes@.len(),
            None => sp_u8(bytes@, pos as int) is None,
        },
{
    if pos < bytes.len() {
        Some((bytes[pos], pos + 1))
    } else {
        None
    }
}

/// Reads a bool field, if the buffer holds a valid one.
pub fn read_bool(bytes: &Vec<u8>, pos: usize) -> (r: Option<(bool, usize)>)
    ensures
        match r {
            Some(t) => sp_bool(bytes@, pos as int) == Some((t.0, t.1 as int)) && t.1
                <= bytes@.len(),
            None => sp_bool(bytes@, pos as int) is None,
        },
{
    if pos < bytes.len() {
        let b = bytes[pos];
        if b == 0 {
            Some((false, pos + 1))
        } else if b == 1 {
            Some((true, pos + 1))
        } else {
            None
        }
    } else {
        None
    }
}

/// Reads a length-prefixed byte string, if the buffer holds one.
#[verifier::loop_isolation(false)]
pub fn read_bytes(bytes: &Vec<u8>, pos: usize) -> (r: Option<(Vec<u8>, usize)>)
    ensures
        match r {
            Some(t) => (sp_bytes(bytes@, pos as int) matches Some(st) && st.0 == t.0@ && st.1
                == t.1 as int) && t.1 <= bytes@.len(),
            None => sp_bytes(bytes@, pos as int) is None,
        },
{
    let (n, p) = match read_u32(bytes, pos) {
        Some(t) => t,
        None => {
            return None;
        },
    };
    proof {
        lemma_le_bound(bytes@.subrange(pos as int, pos as int + 4));
        lemma_pow256_values();
    }
    if bytes.len() - p < n as usize {
        return None;
    }
    let count = n as usize;
    let mut out: Vec<u8> = Vec::new();
    let mut k: usize = 0;
    while k < count
        invariant
            k <= count,
            p + count <= bytes@.len(),
            out@ =~= bytes@.subrange(p as int, p as int + k as int),
        decreases count - k,
    {
        out.push(bytes[p + k]);
        k = k + 1;
        proof {
            assert(out@ =~= bytes@.subrange(p as int, p as int + k as int));
        }
    }
    Some((out, p + count))
}

/// Reads a length-prefixed sequence of u32 values, if the buffer holds one.
#[verifier::loop_isolation(false)]
pub fn read_u32_seq(bytes: &Vec<u8>, pos: usize) -> (r: Option<(Vec<u32>, usize)>)
    ensures
        match r {
            Some(t) => (sp_u32_seq(bytes@, pos as int) matches Some(st) && st.0 == t.0@ && st.1
                == t.1 as int) && t.1 <= bytes@.len(),
            None => sp_u32_seq(bytes@, pos as int) is None,
        },
{
    let (n, p) = match read_u32(bytes, pos) {
        Some(t) => t,
        None => {
            return None;
        },
    };
    proof {
        lemma_le_bound(bytes@.subrange(pos as int, pos as int + 4));
        lemma_pow256_values();
    }
    if ((bytes.len() - p) as u64) < (n as u64) * 4 {
        return None;
    }
    let count = n as usize;
    let mut out: Vec<u32> = Vec::new();
    let mut k: usize = 0;
    while k < count
        invariant
            k <= count,
            out@.len() == k,
            forall|i: int|
                0 <= i < k ==> out@[i] == le_val(
                    bytes@.subrange(p + 4 * i, p + 4 + 4 * i),
                ) as u32,
        decreases count - k,
    {
        out.push(read_u32_at(bytes, p + 4 * k));
        k = k + 1;
    }
    proof {
        let st = sp_u32_seq(bytes@, pos as int).unwrap();
        assert(out@ =~= st.0);
    }
    Some((out, p + 4 * count))
}

/// Reads a length-prefixed sequence of balances, if the buffer holds one.
#[verifier::loop_isolation(false)]
pub fn read_u256_seq(bytes: &Vec<u8>, pos: usize) -> (r: Option<(Vec<U256>, usize)>)
    ensures
        match r {
            Some(t) => (sp_u256_seq(bytes@, pos as int) matches Some(st) && st.0 == t.0@ && st.1
                == t.1 as int) && t.1 <= bytes@.len(),
            None => sp_u256_seq(bytes@, pos as int) is None,
        },
{
    let (n, p) = match read_u32(bytes, pos) {
        Some(t) => t,
        None => {
            return None;
        },
    };
    proof {
        lemma_le_bound(bytes@.subrange(pos as int, pos as int + 4));
        lemma_pow256_values();
    }
    if ((bytes.len() - p) as u64) < (n as u64) * 32 {
        return None;
    }
    let count = n as usize;
    let mut out: Vec<U256> = Vec::new();
    let mut k: usize = 0;
    while k < count
        invariant
            k <= count,
            out@.len() == k,
            forall|i: int| 0 <= i < k ==> out@[i] == sp_u256_at(bytes@, p + 32 * i),
        decreases count - k,
    {
        out.push(read_u256_at(bytes, p + 32 * k));
        k = k + 1;
    }
    proof {
        let st = sp_u256_seq(bytes@, pos as int).unwrap();
        assert(out@ =~= st.0);
    }
    Some((out, p + 32 * count))
}

} // verus!
