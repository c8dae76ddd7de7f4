//! The fungible registry: per-token metadata, total supply, balances and
//! allowances, with the supply-equals-sum-of-balances invariant.

use vstd::prelude::*;
use crate::account::AccountId;
use crate::balance::{U256, u256_limit};
use crate::engine::TokenEngine;
use crate::errors::TokenError;
use crate::events::Event;

verus! {

/// One account's balance in one fungible token.
#[derive(Clone, Copy, PartialEq, Eq, Structural, Debug)]
pub struct BalanceEntry {
    pub account: AccountId,
    pub amount: U256,
}

/// One (owner, spender) allowance in one fungible token.
#[derive(Clone, Copy, PartialEq, Eq, Structural, Debug)]
pub struct AllowanceEntry {
    pub owner: AccountId,
    pub spender: AccountId,
    pub amount: U256,
}

/// One registered fungible token.
#[derive(Debug)]
pub struct FungibleToken {
    pub name: Vec<u8>,
    pub symbol: Vec<u8>,
    pub decimals: u8,
    pub total_supply: U256,
    pub balances: Vec<BalanceEntry>,
    pub allowances: Vec<AllowanceEntry>,
}

/// The balance of `a`: the amount of the entry holding `a`, or 0 when no
/// entry does.
pub open spec fn bal_of(s: Seq<BalanceEntry>, a: AccountId) -> int
    decreases s.len(),
{
    if s.len() == 0 {
        0
    } else if s.last().account == a {
        s.last().amount.val()
    } else {
        bal_of(s.drop_last(), a)
    }
}

/// The sum of all balance entries.
pub open spec fn sum_balances(s: Seq<BalanceEntry>) -> int
    decreases s.len(),
{
    if s.len() == 0 {
        0
    } else {
        sum_balances(s.drop_last()) + s.last().amount.val()
    }
}

/// No account owns two balance entries.
pub open spec fn unique_accounts(s: Seq<BalanceEntry>) -> bool {
    forall|i: int, j: int| 0 <= i < j < s.len() ==> s[i].account != s[j].account
}

/// The allowance of `(owner, spender)`, or 0 when no entry holds the pair.
pub open spec fn alw_of(s: Seq<AllowanceEntry>, owner: AccountId, spender: AccountId) -> int
    decreases s.len(),
{
    if s.len() == 0 {
        0
    } else if s.last().owner == owner && s.last().spender == spender {
        s.last().amount.val()
    } else {
        alw_of(s.drop_last(), owner, spender)
    }
}

/// No (owner, spender) pair owns two allowance entries.
pub open spec fn unique_allowances(s: Seq<AllowanceEntry>) -> bool {
    forall|i: int, j: int|
        0 <= i < j < s.len() ==> !(s[i].owner == s[j].owner && s[i].spender == s[j].spender)
}

/// A token's internal invariant: unique keys, and the recorded total supply
/// is exactly the sum of the balances.
pub open spec fn fungible_token_wf(t: FungibleToken) -> bool {
    &&& unique_accounts(t.balances@)
    &&& unique_allowances(t.allowances@)
    &&& t.total_supply.val() == sum_balances(t.balances@)
}

/// Under unique keys, the entry at `i` gives the balance of its account.
pub proof fn lemma_bal_of_match(s: Seq<BalanceEntry>, i: int)
    requires
        unique_accounts(s),
        0 <= i < s.len(),
    ensures
        bal_of(s, s[i].account) == s[i].amount.val(),
    decreases s.len(),
{
    if i == s.len() - 1 {
    } else {
        assert(s.last().account != s[i].account);
        assert(s.drop_last()[i] == s[i]);
        lemma_bal_of_match(s.drop_last(), i);
    }
}

/// An account with no entry has balance 0.
pub proof fn lemma_bal_of_absent(s: Seq<BalanceEntry>, a: AccountId)
    requires
        forall|k: int| 0 <= k < s.len() ==> s[k].account != a,
    ensures
        bal_of(s, a) == 0,
    decreases s.len(),
{
    if s.len() > 0 {
        lemma_bal_of_absent(s.drop_last(), a);
    }
}

/// Replacing the entry at `i` by one for the same account moves that
/// account's balance to the new amount, keeps every other balance, and
/// shifts the sum by the difference.
pub proof fn lemma_set_at(s: Seq<BalanceEntry>, i: int, e: BalanceEntry)
    requires
        unique_accounts(s),
        0 <= i < s.len(),
        e.account == s[i].account,
    ensures
        unique_accounts(s.update(i, e)),
        bal_of(s.update(i, e), e.account) == e.amount.val(),
        forall|b: AccountId| b != e.account ==> bal_of(s.update(i, e), b) == bal_of(s, b),
        sum_balances(s.update(i, e)) == sum_balances(s) - s[i].amount.val() + e.amount.val(),
    decreases s.len(),
{
    let s2 = s.update(i, e);
    assert(unique_accounts(s2));
    if i == s.len() - 1 {
        assert(s2.drop_last() =~= s.drop_last());
        assert(s2.last() == e);
        assert forall|b: AccountId| b != e.account implies bal_of(s2, b) == bal_of(s, b) by {
            assert(bal_of(s2, b) == bal_of(s2.drop_last(), b));
            assert(bal_of(s, b) == bal_of(s.drop_last(), b));
        }
    } else {
        assert(s2.last() == s.last());
        assert(s2.drop_last() =~= s.drop_last().update(i, e));
        assert(s.drop_last()[i] == s[i]);
        lemma_set_at(s.drop_last(), i, e);
        assert(s.last().account != s[i].account);
        lemma_bal_of_match(s, i);
        lemma_bal_of_match(s2, i);
        assert forall|b: AccountId| b != e.account implies bal_of(s2, b) == bal_of(s, b) by {
            if s.last().account != b {
                assert(bal_of(s2, b) == bal_of(s2.drop_last(), b));
                assert(bal_of(s, b) == bal_of(s.drop_last(), b));
                assert(bal_of(s.drop_last().update(i, e), b) == bal_of(s.drop_last(), b));
            }
        }
    }
}

/// Appending an entry for a fresh account gives it that balance, keeps every
/// other balance, and adds the amount to the sum.
pub proof fn lemma_push_fresh(s: Seq<BalanceEntry>, e: BalanceEntry)
    requires
        unique_accounts(s),
        forall|k: int| 0 <= k < s.len() ==> s[k].account != e.account,
    ensures
        unique_accounts(s.push(e)),
        bal_of(s.push(e), e.account) == e.amount.val(),
        forall|b: AccountId| b != e.account ==> bal_of(s.push(e), b) == bal_of(s, b),
        sum_balances(s.push(e)) == sum_balances(s) + e.amount.val(),
{
    let s2 = s.push(e);
    assert(s2.drop_last() =~= s);
    assert(forall|i: int, j: int| 0 <= i < j < s2.len() ==> s2[i].account != s2[j].account) by {
        assert(forall|i: int| 0 <= i < s.len() ==> s2[i] == s[i]);
    }
}

/// The sum of balances is non-negative.
pub proof fn lemma_sum_nonneg(s: Seq<BalanceEntry>)
    ensures
        sum_balances(s) >= 0,
    decreases s.len(),
{
    if s.len() > 0 {
        lemma_sum_nonneg(s.drop_last());
    }
}

/// The sum of balances covers any single balance.
pub proof fn lemma_sum_ge_bal(s: Seq<BalanceEntry>, a: AccountId)
    requires
        unique_accounts(s),
    ensures
        sum_balances(s) >= bal_of(s, a),
    decreases s.len(),
{
    if s.len() == 0 {
    } else if s.last().account == a {
        lemma_sum_nonneg(s.drop_last());
    } else {
        lemma_sum_ge_bal(s.drop_last(), a);
    }
}

/// The sum of balances covers any two balances of distinct accounts.
pub proof fn lemma_sum_ge_pair(s: Seq<BalanceEntry>, a: AccountId, b: AccountId)
    requires
        unique_accounts(s),
        a != b,
    ensures
        sum_balances(s) >= bal_of(s, a) + bal_of(s, b),
    decreases s.len(),
{
    if s.len() == 0 {
    } else if s.last().account == a {
        lemma_sum_ge_bal(s.drop_last(), b);
    } else if s.last().account == b {
        lemma_sum_ge_bal(s.drop_last(), a);
    } else {
        lemma_sum_ge_pair(s.drop_last(), a, b);
    }
}

/// Finds the index of the entry holding `a`, if any.
pub fn find_balance(v: &Vec<BalanceEntry>, a: AccountId) -> (r: Option<usize>)
    ensures
        r matches Some(i) ==> i < v@.len() && v@[i as int].account == a,
        r is None ==> forall|k: int| 0 <= k < v@.len() ==> v@[k].account != a,
{
    let mut k: usize = 0;
    while k < v.len()
        invariant
            k <= v@.len(),
            forall|j: int| 0 <= j < k ==> v@[j].account != a,
        decreases v@.len() - k,
    {
        if v[k].account == a {
            return Some(k);
        }
        k = k + 1;
    }
    None
}

/// Reads the balance of `a` (0 when no entry holds it).
pub fn get_balance(v: &Vec<BalanceEntry>, a: AccountId) -> (r: U256)
    requires
        unique_accounts(v@),
    ensures
        r.val() == bal_of(v@, a),
{
    match find_balance(v, a) {
        Some(i) => {
            proof {
                lemma_bal_of_match(v@, i as int);
            }
            v[i].amount
        },
        None => {
            proof {
                lemma_bal_of_absent(v@, a);
            }
            U256::zero()
        },
    }
}

/// Sets the balance of `a` to `amount`, keeping every other balance and
/// shifting the sum accordingly.
pub fn set_balance(v: &mut Vec<BalanceEntry>, a: AccountId, amount: U256)
    requires
        unique_accounts(old(v)@),
    ensures
        unique_accounts(final(v)@),
        bal_of(final(v)@, a) == amount.val(),
        forall|b: AccountId| b != a ==> bal_of(final(v)@, b) == bal_of(old(v)@, b),
        sum_balances(final(v)@) == sum_balances(old(v)@) - bal_of(old(v)@, a) + amount.val(),
{
    let ghost s = v@;
    let e = BalanceEntry { account: a, amount };
    match find_balance(v, a) {
        Some(i) => {
            v.remove(i);
            v.insert(i, e);
            proof {
                assert(v@ =~= s.update(i as int, e));
                lemma_bal_of_match(s, i as int);
                lemma_set_at(s, i as int, e);
            }
        },
        None => {
            v.push(e);
            proof {
                lemma_bal_of_absent(s, a);
                lemma_push_fresh(s, e);
            }
        },
    }
}

/// Under unique pairs, the entry at `i` gives the allowance of its pair.
pub proof fn lemma_alw_of_match(s: Seq<AllowanceEntry>, i: int)
    requires
        unique_allowances(s),
        0 <= i < s.len(),
    ensures
        alw_of(s, s[i].owner, s[i].spender) == s[i].amount.val(),
    decreases s.len(),
{
    if i == s.len() - 1 {
    } else {
        assert(s.drop_last()[i] == s[i]);
        lemma_alw_of_match(s.drop_last(), i);
    }
}

/// A pair with no entry has allowance 0.
pub proof fn lemma_alw_of_absent(s: Seq<AllowanceEntry>, owner: AccountId, spender: AccountId)
    requires
        forall|k: int|
            0 <= k < s.len() ==> !(s[k].owner == owner && s[k].spender == spender),
    ensures
        alw_of(s, owner, spender) == 0,
    decreases s.len(),
{
    if s.len() > 0 {
        lemma_alw_of_absent(s.drop_last(), owner, spender);
    }
}

/// Replacing the entry at `i` by one for the same pair moves that pair's
/// allowance and keeps every other allowance.
pub proof fn lemma_alw_set_at(s: Seq<AllowanceEntry>, i: int, e: AllowanceEntry)
    requires
        unique_allowances(s),
        0 <= i < s.len(),
        e.owner == s[i].owner,
        e.spender == s[i].spender,
    ensures
        unique_allowances(s.update(i, e)),
        alw_of(s.update(i, e), e.owner, e.spender) == e.amount.val(),
        forall|o: AccountId, p: AccountId|
            !(o == e.owner && p == e.spender) ==> alw_of(s.update(i, e), o, p) == alw_of(s, o, p),
    decreases s.len(),
{
    let s2 = s.update(i, e);
    assert(unique_allowances(s2));
    if i == s.len() - 1 {
        assert(s2.drop_last() =~= s.drop_last());
        assert(s2.last() == e);
        assert forall|o: AccountId, p: AccountId|
            !(o == e.owner && p == e.spender) implies alw_of(s2, o, p) == alw_of(s, o, p) by {
            assert(alw_of(s2, o, p) == alw_of(s2.drop_last(), o, p));
            assert(alw_of(s, o, p) == alw_of(s.drop_last(), o, p));
        }
    } else {
        assert(s2.last() == s.last());
        assert(s2.drop_last() =~= s.drop_last().update(i, e));
        assert(s.drop_last()[i] == s[i]);
        lemma_alw_set_at(s.drop_last(), i, e);
        lemma_alw_of_match(s, i);
        lemma_alw_of_match(s2, i);
        assert forall|o: AccountId, p: AccountId|
            !(o == e.owner && p == e.spender) implies alw_of(s2, o, p) == alw_of(s, o, p) by {
            if !(s.last().owner == o && s.last().spender == p) {
                assert(alw_of(s2, o, p) == alw_of(s2.drop_last(), o, p));
                assert(alw_of(s, o, p) == alw_of(s.drop_last(), o, p));
                assert(alw_of(s.drop_last().update(i, e), o, p) == alw_of(s.drop_last(), o, p));
            }
        }
    }
}

/// Appending an entry for a fresh pair gives it that allowance and keeps
/// every other allowance.
pub proof fn lemma_alw_push_fresh(s: Seq<AllowanceEntry>, e: AllowanceEntry)
    requires
        unique_allowances(s),
        forall|k: int|
            0 <= k < s.len() ==> !(s[k].owner == e.owner && s[k].spender == e.spender),
    ensures
        unique_allowances(s.push(e)),
        alw_of(s.push(e), e.owner, e.spender) == e.amount.val(),
        forall|o: AccountId, p: AccountId|
            !(o == e.owner && p == e.spender) ==> alw_of(s.push(e), o, p) == alw_of(s, o, p),
{
    let s2 = s.push(e);
    assert(s2.drop_last() =~= s);
    assert(forall|i: int| 0 <= i < s.len() ==> s2[i] == s[i]);
}

/// Finds the index of the entry holding `(owner, spender)`, if any.
pub fn find_allowance(v: &Vec<AllowanceEntry>, owner: AccountId, spender: AccountId) -> (r: Option<
    usize,
>)
    ensures
        r matches Some(i) ==> i < v@.len() && v@[i as int].owner == owner && v@[
            i as int
        ].spender == spender,
        r is None ==> forall|k: int|
            0 <= k < v@.len() ==> !(v@[k].owner == owner && v@[k].spender == spender),
{
    let mut k: usize = 0;
    while k < v.len()
        invariant
            k <= v@.len(),
            forall|j: int| 0 <= j < k ==> !(v@[j].owner == owner && v@[j].spender == spender),
        decreases v@.len() - k,
    {
        if v[k].owner == owner && v[k].spender == spender {
            return Some(k);
        }
        k = k + 1;
    }
    None
}

/// Reads the allowance of `(owner, spender)` (0 when no entry holds it).
pub fn get_allowance(v: &Vec<AllowanceEntry>, owner: AccountId, spender: AccountId) -> (r: U256)
    requires
        unique_allowances(v@),
    ensures
        r.val() == alw_of(v@, owner, spender),
{
    match find_allowance(v, owner, spender) {
        Some(i) => {
            proof {
                lemma_alw_of_match(v@, i as int);
            }
            v[i].amount
        },
        None => {
            proof {
                lemma_alw_of_absent(v@, owner, spender);
            }
            U256::zero()
        },
    }
}

/// Sets the allowance of `(owner, spender)` to `amount`, keeping every other
/// allowance.
pub fn set_allowance(v: &mut Vec<AllowanceEntry>, owner: AccountId, spender: AccountId, amount: U256)
    requires
        unique_allowances(old(v)@),
    ensures
        unique_allowances(final(v)@),
        alw_of(final(v)@, owner, spender) == amount.val(),
        forall|o: AccountId, p: AccountId|
            !(o == owner && p == spender) ==> alw_of(final(v)@, o, p) == alw_of(old(v)@, o, p),
{
    let ghost s = v@;
    let e = AllowanceEntry { owner, spender, amount };
    match find_allowance(v, owner, spender) {
        Some(i) => {
            v.remove(i);
            v.insert(i, e);
            proof {
                assert(v@ =~= s.update(i as int, e));
                lemma_alw_set_at(s, i as int, e);
            }
        },
        None => {
            v.push(e);
            proof {
                lemma_alw_push_fresh(s, e);
            }
        },
    }
}

/// A fungible operation touched only token `id` of the fungible registry
/// and kept its metadata.
pub open spec fn fungible_frame(pre: TokenEngine, post: TokenEngine, id: u32) -> bool {
    &&& pre.fungible_exists(id)
    &&& post.fungible@.len() == pre.fungible@.len()
    &&& forall|j: int|
        0 <= j < pre.fungible@.len() && j != id - 1 ==> post.fungible@[j] == pre.fungible@[j]
    &&& post.nonfungible == pre.nonfungible
    &&& post.multi == pre.multi
    &&& post.fungible_at(id).name == pre.fungible_at(id).name
    &&& post.fungible_at(id).symbol == pre.fungible_at(id).symbol
    &&& post.fungible_at(id).decimals == pre.fungible_at(id).decimals
}

/// `amount` moved from `from` to `to` in token `id`; every other balance is
/// unchanged. A self-transfer changes no balance.
pub open spec fn fungible_balances_moved(
    pre: TokenEngine,
    post: TokenEngine,
    id: u32,
    from: AccountId,
    to: AccountId,
    amount: int,
) -> bool {
    if from == to {
        forall|a: AccountId| post.fun_balance(id, a) == pre.fun_balance(id, a)
    } else {
        &&& post.fun_balance(id, from) == pre.fun_balance(id, from) - amount
        &&& post.fun_balance(id, to) == pre.fun_balance(id, to) + amount
        &&& forall|a: AccountId|
            a != from && a != to ==> post.fun_balance(id, a) == pre.fun_balance(id, a)
    }
}

/// No balance of token `id` changed.
pub open spec fn fungible_balances_unchanged(pre: TokenEngine, post: TokenEngine, id: u32) -> bool {
    forall|a: AccountId| post.fun_balance(id, a) == pre.fun_balance(id, a)
}

/// No allowance of token `id` changed.
pub open spec fn fungible_allowances_unchanged(pre: TokenEngine, post: TokenEngine, id: u32) -> bool {
    forall|o: AccountId, p: AccountId| post.fun_allowance(id, o, p) == pre.fun_allowance(id, o, p)
}

/// The state after a successful fungible `create_token`.
pub open spec fn fungible_create_post(
    pre: TokenEngine,
    post: TokenEngine,
    id: u32,
    name: Seq<u8>,
    symbol: Seq<u8>,
    decimals: u8,
) -> bool {
    &&& id == pre.fungible@.len() + 1
    &&& post.fungible@.len() == pre.fungible@.len() + 1
    &&& forall|j: int| 0 <= j < pre.fungible@.len() ==> post.fungible@[j] == pre.fungible@[j]
    &&& post.fungible_at(id).name@ == name
    &&& post.fungible_at(id).symbol@ == symbol
    &&& post.fungible_at(id).decimals == decimals
    &&& post.fungible_at(id).total_supply.val() == 0
    &&& post.fungible_at(id).balances@.len() == 0
    &&& post.fungible_at(id).allowances@.len() == 0
    &&& post.nonfungible == pre.nonfungible
    &&& post.multi == pre.multi
    &&& post.events@ == pre.events@.push(Event::FungibleTokenCreated { id })
}

/// The error of a failed fungible `transfer`.
pub open spec fn fungible_transfer_err(pre: TokenEngine, id: u32) -> TokenError {
    if !pre.fungible_exists(id) {
        TokenError::UnknownToken
    } else {
        TokenError::InsufficientBalance
    }
}

/// The error of a failed fungible `transfer_from`.
pub open spec fn fungible_transfer_from_err(
    pre: TokenEngine,
    id: u32,
    caller: AccountId,
    sender: AccountId,
    amount: U256,
) -> TokenError {
    if !pre.fungible_exists(id) {
        TokenError::UnknownToken
    } else if caller != sender && pre.fun_allowance(id, sender, caller) < amount.val() {
        TokenError::InsufficientAllowance
    } else {
        TokenError::InsufficientBalance
    }
}

impl TokenEngine {
    /// Registers a new fungible token and allocates the next identifier.
    /// Fails only when the identifier space is exhausted.
    pub fn fungible_create(
        &mut self,
        name: Vec<u8>,
        symbol: Vec<u8>,
        decimals: u8,
    ) -> (r: Result<u32, TokenError>)
        requires
            old(self).wf(),
        ensures
            final(self).wf(),
            (r is Ok) <==> old(self).fungible_count() < u32::MAX,
            r matches Err(e) ==> *final(self) == *old(self) && e == TokenError::FailCreateToken,
            r matches Ok(id) ==> fungible_create_post(
                *old(self),
                *final(self),
                id,
                name@,
                symbol@,
                decimals,
            ),
    {
        if self.fungible.len() >= u32::MAX as usize {
            return Err(TokenError::FailCreateToken);
        }
        let id: u32 = (self.fungible.len() + 1) as u32;
        let t = FungibleToken {
            name,
            symbol,
            decimals,
            total_supply: U256::zero(),
            balances: Vec::new(),
            allowances: Vec::new(),
        };
        self.fungible.push(t);
        self.events.push(Event::FungibleTokenCreated { id });
        proof {
            assert forall|i: int|
                0 <= i < self.fungible@.len() implies fungible_token_wf(
                #[trigger] self.fungible@[i],
            ) by {
                if i < self.fungible@.len() - 1 {
                    assert(fungible_token_wf(old(self).fungible@[i]));
                }
            }
        }
        Ok(id)
    }

    /// Sets the allowance of `(caller, spender)` in token `id` to `amount`.
    pub fn fungible_approve(
        &mut self,
        caller: AccountId,
        id: u32,
        spender: AccountId,
        amount: U256,
    ) -> (r: Result<(), TokenError>)
        requires
            old(self).wf(),
        ensures
            final(self).wf(),
            (r is Ok) <==> old(self).fungible_exists(id),
            r matches Err(e) ==> *final(self) == *old(self) && e == TokenError::UnknownToken,
            r is Ok ==> {
                &&& fungible_frame(*old(self), *final(self), id)
                &&& fungible_balances_unchanged(*old(self), *final(self), id)
                &&& final(self).fun_supply(id) == old(self).fun_supply(id)
                &&& final(self).fun_allowance(id, caller, spender) == amount.val()
                &&& forall|o: AccountId, p: AccountId|
                    !(o == caller && p == spender) ==> final(self).fun_allowance(id, o, p) == old(
                        self,
                    ).fun_allowance(id, o, p)
                &&& final(self).events@ == old(self).events@.push(
                    Event::FungibleApproval { id, owner: caller, spender, amount },
                )
            },
    {
        if id == 0 || (id as usize) > self.fungible.len() {
            return Err(TokenError::UnknownToken);
        }
        let idx = (id - 1) as usize;
        proof {
            assert(fungible_token_wf(old(self).fungible@[idx as int]));
        }
        let mut t = self.fungible.remove(idx);
        set_allowance(&mut t.allowances, caller, spender, amount);
        self.fungible.insert(idx, t);
        self.events.push(Event::FungibleApproval { id, owner: caller, spender, amount });
        proof {
            assert(self.fungible@ =~= old(self).fungible@.update(
                idx as int,
                self.fungible@[idx as int],
            ));
            assert forall|i: int|
                0 <= i < self.fungible@.len() implies fungible_token_wf(
                #[trigger] self.fungible@[i],
            ) by {
                if i != idx {
                    assert(fungible_token_wf(old(self).fungible@[i]));
                }
            }
        }
        Ok(())
    }

    /// Moves `amount` of token `id` from the caller to `recipient`.
    pub fn fungible_transfer(
        &mut self,
        caller: AccountId,
        id: u32,
        recipient: AccountId,
        amount: U256,
    ) -> (r: Result<(), TokenError>)
        requires
            old(self).wf(),
        ensures
            final(self).wf(),
            (r is Ok) <==> old(self).fungible_exists(id) && old(self).fun_balance(id, caller)
                >= amount.val(),
            r matches Err(e) ==> *final(self) == *old(self) && e == fungible_transfer_err(
                *old(self),
                id,
            ),
            r is Ok ==> {
                &&& fungible_frame(*old(self), *final(self), id)
                &&& fungible_balances_moved(
                    *old(self),
                    *final(self),
                    id,
                    caller,
                    recipient,
                    amount.val(),
                )
                &&& final(self).fun_supply(id) == old(self).fun_supply(id)
                &&& fungible_allowances_unchanged(*old(self), *final(self), id)
                &&& final(self).events@ == old(self).events@.push(
                    Event::FungibleTransfer {
                        id,
                        from: Some(caller),
                        to: Some(recipient),
                        amount,
                    },
                )
            },
    {
        if id == 0 || (id as usize) > self.fungible.len() {
            return Err(TokenError::UnknownToken);
        }
        let idx = (id - 1) as usize;
        proof {
            assert(fungible_token_wf(old(self).fungible@[idx as int]));
        }
        let from_bal = get_balance(&self.fungible[idx].balances, caller);
        if !from_bal.ge(amount) {
            return Err(TokenError::InsufficientBalance);
        }
        let mut t = self.fungible.remove(idx);
        if caller == recipient {
            self.fungible.insert(idx, t);
            proof {
                assert(self.fungible@ =~= old(self).fungible@);
            }
            self.events.push(
                Event::FungibleTransfer { id, from: Some(caller), to: Some(recipient), amount },
            );
            return Ok(());
        }
        let to_bal = get_balance(&t.balances, recipient);
        proof {
            lemma_sum_ge_pair(t.balances@, caller, recipient);
            t.total_supply.lemma_val_range();
        }
        let new_from = from_bal.checked_sub(amount).unwrap();
        let new_to = to_bal.checked_add(amount).unwrap();
        set_balance(&mut t.balances, caller, new_from);
        set_balance(&mut t.balances, recipient, new_to);
        self.fungible.insert(idx, t);
        self.events.push(
            Event::FungibleTransfer { id, from: Some(caller), to: Some(recipient), amount },
        );
        proof {
            assert(self.fungible@ =~= old(self).fungible@.update(
                idx as int,
                self.fungible@[idx as int],
            ));
            assert forall|i: int|
                0 <= i < self.fungible@.len() implies fungible_token_wf(
                #[trigger] self.fungible@[i],
            ) by {
                if i != idx {
                    assert(fungible_token_wf(old(self).fungible@[i]));
                }
            }
        }
        Ok(())
    }

    /// Moves `amount` of token `id` from `sender` to `recipient`, on the
    /// authority of the caller: the owner moves freely; any other caller
    /// spends allowance, which a success decrements.
    pub fn fungible_transfer_from(
        &mut self,
        caller: AccountId,
        id: u32,
        sender: AccountId,
        recipient: AccountId,
        amount: U256,
    ) -> (r: Result<(), TokenError>)
        requires
            old(self).wf(),
        ensures
            final(self).wf(),
            (r is Ok) <==> old(self).fungible_exists(id) && (caller == sender || old(
                self,
            ).fun_allowance(id, sender, caller) >= amount.val()) && old(self).fun_balance(
                id,
                sender,
            ) >= amount.val(),
            caller == sender ==> ((r is Ok) <==> old(self).fungible_exists(id) && old(
                self,
            ).fun_balance(id, sender) >= amount.val()),
            r matches Err(e) ==> *final(self) == *old(self) && e == fungible_transfer_from_err(
                *old(self),
                id,
                caller,
                sender,
                amount,
            ),
            r is Ok ==> {
                &&& fungible_frame(*old(self), *final(self), id)
                &&& fungible_balances_moved(
                    *old(self),
                    *final(self),
                    id,
                    sender,
                    recipient,
                    amount.val(),
                )
                &&& final(self).fun_supply(id) == old(self).fun_supply(id)
                &&& (if caller == sender {
                    fungible_allowances_unchanged(*old(self), *final(self), id)
                } else {
                    &&& final(self).fun_allowance(id, sender, caller) == old(self).fun_allowance(
                        id,
                        sender,
                        caller,
                    ) - amount.val()
                    &&& forall|o: AccountId, p: AccountId|
                        !(o == sender && p == caller) ==> final(self).fun_allowance(id, o, p)
                            == old(self).fun_allowance(id, o, p)
                })
                &&& final(self).events@ == old(self).events@.push(
                    Event::FungibleTransfer {
                        id,
                        from: Some(sender),
                        to: Some(recipient),
                        amount,
                    },
                )
            },
    {
        if id == 0 || (id as usize) > self.fungible.len() {
            return Err(TokenError::UnknownToken);
        }
        let idx = (id - 1) as usize;
        proof {
            assert(fungible_token_wf(old(self).fungible@[idx as int]));
        }
        if caller != sender {
            let alw = get_allowance(&self.fungible[idx].allowances, sender, caller);
            if !alw.ge(amount) {
                return Err(TokenError::InsufficientAllowance);
            }
        }
        let from_bal = get_balance(&self.fungible[idx].balances, sender);
        if !from_bal.ge(amount) {
            return Err(TokenError::InsufficientBalance);
        }
        let mut t = self.fungible.remove(idx);
        if caller != sender {
            let alw = get_allowance(&t.allowances, sender, caller);
            let new_alw = alw.checked_sub(amount).unwrap();
            set_allowance(&mut t.allowances, sender, caller, new_alw);
        }
        if sender != recipient {
            let to_bal = get_balance(&t.balances, recipient);
            proof {
                lemma_sum_ge_pair(t.balances@, sender, recipient);
                t.total_supply.lemma_val_range();
            }
            let new_from = from_bal.checked_sub(amount).unwrap();
            let new_to = to_bal.checked_add(amount).unwrap();
            set_balance(&mut t.balances, sender, new_from);
            set_balance(&mut t.balances, recipient, new_to);
        }
        self.fungible.insert(idx, t);
        self.events.push(
            Event::FungibleTransfer { id, from: Some(sender), to: Some(recipient), amount },
        );
        proof {
            assert(self.fungible@ =~= old(self).fungible@.update(
                idx as int,
                self.fungible@[idx as int],
            ));
            assert forall|i: int|
                0 <= i < self.fungible@.len() implies fungible_token_wf(
                #[trigger] self.fungible@[i],
            ) by {
                if i != idx {
                    assert(fungible_token_wf(old(self).fungible@[i]));
                }
            }
        }
        Ok(())
    }

    /// Creates `amount` new units of token `id` in `account`'s balance.
    pub fn fungible_mint(
        &mut self,
        id: u32,
        account: AccountId,
        amount: U256,
    ) -> (r: Result<(), TokenError>)
        requires
            old(self).wf(),
        ensures
            final(self).wf(),
            (r is Ok) <==> old(self).fungible_exists(id) && old(self).fun_supply(id) + amount.val()
                < u256_limit(),
            r matches Err(e) ==> *final(self) == *old(self) && e == (
            if !old(self).fungible_exists(id) {
                TokenError::UnknownToken
            } else {
                TokenError::ArithmeticError
            }),
            r is Ok ==> {
                &&& fungible_frame(*old(self), *final(self), id)
                &&& final(self).fun_balance(id, account) == old(self).fun_balance(id, account)
                    + amount.val()
                &&& forall|a: AccountId|
                    a != account ==> final(self).fun_balance(id, a) == old(self).fun_balance(id, a)
                &&& final(self).fun_supply(id) == old(self).fun_supply(id) + amount.val()
                &&& fungible_allowances_unchanged(*old(self), *final(self), id)
                &&& final(self).events@ == old(self).events@.push(
                    Event::FungibleTransfer { id, from: None, to: Some(account), amount },
                )
            },
    {
        if id == 0 || (id as usize) > self.fungible.len() {
            return Err(TokenError::UnknownToken);
        }
        let idx = (id - 1) as usize;
        proof {
            assert(fungible_token_wf(old(self).fungible@[idx as int]));
        }
        let new_supply = match self.fungible[idx].total_supply.checked_add(amount) {
            Some(s) => s,
            None => {
                return Err(TokenError::ArithmeticError);
            },
        };
        let mut t = self.fungible.remove(idx);
        let bal = get_balance(&t.balances, account);
        proof {
            lemma_sum_ge_bal(t.balances@, account);
        }
        let new_bal = bal.checked_add(amount).unwrap();
        set_balance(&mut t.balances, account, new_bal);
        t.total_supply = new_supply;
        self.fungible.insert(idx, t);
        self.events.push(Event::FungibleTransfer { id, from: None, to: Some(account), amount });
        proof {
            assert(self.fungible@ =~= old(self).fungible@.update(
                idx as int,
                self.fungible@[idx as int],
            ));
            assert forall|i: int|
                0 <= i < self.fungible@.len() implies fungible_token_wf(
                #[trigger] self.fungible@[i],
            ) by {
                if i != idx {
                    assert(fungible_token_wf(old(self).fungible@[i]));
                }
            }
        }
        Ok(())
    }

    /// Destroys `amount` units of token `id` from `account`'s balance.
    pub fn fungible_burn(
        &mut self,
        id: u32,
        account: AccountId,
        amount: U256,
    ) -> (r: Result<(), TokenError>)
        requires
            old(self).wf(),
        ensures
            final(self).wf(),
            (r is Ok) <==> old(self).fungible_exists(id) && old(self).fun_balance(id, account)
                >= amount.val(),
            r matches Err(e) ==> *final(self) == *old(self) && e == (
            if !old(self).fungible_exists(id) {
                TokenError::UnknownToken
            } else {
                TokenError::InsufficientBalance
            }),
            r is Ok ==> {
                &&& fungible_frame(*old(self), *final(self), id)
                &&& final(self).fun_balance(id, account) == old(self).fun_balance(id, account)
                    - amount.val()
                &&& forall|a: AccountId|
                    a != account ==> final(self).fun_balance(id, a) == old(self).fun_balance(id, a)
                &&& final(self).fun_supply(id) == old(self).fun_supply(id) - amount.val()
                &&& fungible_allowances_unchanged(*old(self), *final(self), id)
                &&& final(self).events@ == old(self).events@.push(
                    Event::FungibleTransfer { id, from: Some(account), to: None, amount },
                )
            },
    {
        if id == 0 || (id as usize) > self.fungible.len() {
            return Err(TokenError::UnknownToken);
        }
        let idx = (id - 1) as usize;
        proof {
            assert(fungible_token_wf(old(self).fungible@[idx as int]));
        }
        let bal = get_balance(&self.fungible[idx].balances, account);
        if !bal.ge(amount) {
            return Err(TokenError::InsufficientBalance);
        }
        let mut t = self.fungible.remove(idx);
        proof {
            lemma_sum_ge_bal(t.balances@, account);
        }
        let new_bal = bal.checked_sub(amount).unwrap();
        let new_supply = t.total_supply.checked_sub(amount).unwrap();
        set_balance(&mut t.balances, account, new_bal);
        t.total_supply = new_supply;
        self.fungible.insert(idx, t);
        self.events.push(Event::FungibleTransfer { id, from: Some(account), to: None, amount });
        proof {
            assert(self.fungible@ =~= old(self).fungible@.update(
                idx as int,
                self.fungible@[idx as int],
            ));
            assert forall|i: int|
                0 <= i < self.fungible@.len() implies fungible_token_wf(
                #[trigger] self.fungible@[i],
            ) by {
                if i != idx {
                    assert(fungible_token_wf(old(self).fungible@[i]));
                }
            }
        }
        Ok(())
    }
}

} // verus!
