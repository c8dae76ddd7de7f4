//! Operator approvals, shared by the non-fungible and multi-token
//! registries: a set of (owner, operator) pairs; a pair being present grants
//! the operator full transfer authority over the owner's holdings in the
//! token the table belongs to.

use vstd::prelude::*;
use crate::account::AccountId;

verus! {

/// One granted (owner, operator) pair.
#[derive(Clone, Copy, PartialEq, Eq, Structural, Debug)]
pub struct OperatorEntry {
    pub owner: AccountId,
    pub operator: AccountId,
}

/// Whether `operator` is approved for all of `owner`'s holdings.
pub open spec fn operator_set(s: Seq<OperatorEntry>, owner: AccountId, operator: AccountId) -> bool {
    exists|k: int| 0 <= k < s.len() && s[k].owner == owner && s[k].operator == operator
}

/// No (owner, operator) pair occurs twice.
pub open spec fn unique_operators(s: Seq<OperatorEntry>) -> bool {
    forall|i: int, j: int|
        0 <= i < j < s.len() ==> !(s[i].owner == s[j].owner && s[i].operator == s[j].operator)
}

/// Finds the index of the entry holding `(owner, operator)`, if any.
pub fn find_operator(v: &Vec<OperatorEntry>, owner: AccountId, operator: AccountId) -> (r: Option<
    usize,
>)
    ensures
        r matches Some(i) ==> i < v@.len() && v@[i as int].owner == owner && v@[
            i as int
        ].operator == operator,
        r is None ==> !operator_set(v@, owner, operator),
{
    let mut k: usize = 0;
    while k < v.len()
        invariant
            k <= v@.len(),
            forall|j: int| 0 <= j < k ==> !(v@[j].owner == owner && v@[j].operator == operator),
        decreases v@.len() - k,
    {
        if v[k].owner == owner && v[k].operator == operator {
            return Some(k);
        }
        k = k + 1;
    }
    None
}

/// Whether `operator` is approved for all of `owner`'s holdings.
pub fn has_operator(v: &Vec<OperatorEntry>, owner: AccountId, operator: AccountId) -> (r: bool)
    ensures
        r == operator_set(v@, owner, operator),
{
    find_operator(v, owner, operator).is_some()
}

/// Grants or revokes `(owner, operator)`, keeping every other pair.
pub fn set_operator(v: &mut Vec<OperatorEntry>, owner: AccountId, operator: AccountId, approved: bool)
    requires
        unique_operators(old(v)@),
    ensures
        unique_operators(final(v)@),
        operator_set(final(v)@, owner, operator) == approved,
        forall|o: AccountId, p: AccountId|
            !(o == owner && p == operator) ==> operator_set(final(v)@, o, p) == operator_set(
                old(v)@,
                o,
                p,
            ),
{
    let ghost s = v@;
    match find_operator(v, owner, operator) {
        Some(i) => {
            if !approved {
                v.remove(i);
                proof {
                    let s2 = v@;
                    assert forall|i2: int, j2: int| 0 <= i2 < j2 < s2.len() implies !(s2[i2].owner
                        == s2[j2].owner && s2[i2].operator == s2[j2].operator) by {
                        let oi = if i2 < i { i2 } else { i2 + 1 };
                        let oj = if j2 < i { j2 } else { j2 + 1 };
                        assert(s2[i2] == s[oi] && s2[j2] == s[oj]);
                    }
                    assert(!operator_set(s2, owner, operator)) by {
                        if operator_set(s2, owner, operator) {
                            let k = choose|k: int|
                                0 <= k < s2.len() && s2[k].owner == owner && s2[k].operator
                                    == operator;
                            let ok = if k < i { k } else { k + 1 };
                            assert(s2[k] == s[ok]);
                        }
                    }
                    assert forall|o: AccountId, p: AccountId|
                        !(o == owner && p == operator) implies operator_set(s2, o, p)
                        == operator_set(s, o, p) by {
                        if operator_set(s2, o, p) {
                            let k = choose|k: int|
                                0 <= k < s2.len() && s2[k].owner == o && s2[k].operator == p;
                            let ok = if k < i { k } else { k + 1 };
                            assert(s2[k] == s[ok]);
                            assert(operator_set(s, o, p));
                        }
                        if operator_set(s, o, p) {
                            let k = choose|k: int|
                                0 <= k < s.len() && s[k].owner == o && s[k].operator == p;
                            let nk = if k < i { k } else { k - 1 };
                            assert(k != i);
                            assert(s2[nk] == s[k]);
                            assert(operator_set(s2, o, p));
                        }
                    }
                }
            }
        },
        None => {
            if approved {
                let e = OperatorEntry { owner, operator };
                v.push(e);
                proof {
                    let s2 = v@;
                    assert(s2 == s.push(e));
                    assert(forall|k: int| 0 <= k < s.len() ==> s2[k] == s[k]);
                    assert(s2[s.len() as int] == e);
                    assert(operator_set(s2, owner, operator));
                    assert forall|o: AccountId, p: AccountId|
                        !(o == owner && p == operator) implies operator_set(s2, o, p)
                        == operator_set(s, o, p) by {
                        if operator_set(s2, o, p) {
                            let k = choose|k: int|
                                0 <= k < s2.len() && s2[k].owner == o && s2[k].operator == p;
                            assert(k < s.len());
                            assert(operator_set(s, o, p));
                        }
                        if operator_set(s, o, p) {
                            let k = choose|k: int|
                                0 <= k < s.len() && s[k].owner == o && s[k].operator == p;
                            assert(s2[k] == s[k]);
                            assert(operator_set(s2, o, p));
                        }
                    }
                }
            }
        },
    }
}

} // verus!
