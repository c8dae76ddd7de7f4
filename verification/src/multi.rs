//! The multi-token registry's data: per-(item, account) balances and
//! operator approvals for each registered multi-token.

use vstd::prelude::*;
use crate::account::AccountId;
use crate::balance::{U256, u256_limit};
use crate::engine::TokenEngine;
use crate::errors::TokenError;
use crate::events::Event;
use crate::operators::{OperatorEntry, unique_operators, set_operator, has_operator};

verus! {

/// One (item, account) balance cell in one multi-token.
#[derive(Clone, Copy, PartialEq, Eq, Structural, Debug)]
pub struct MultiBalanceEntry {
    pub item: u32,
    pub account: AccountId,
    pub amount: U256,
}

/// One registered multi-token.
#[derive(Debug)]
pub struct MultiToken {
    pub uri: Vec<u8>,
    pub balances: Vec<MultiBalanceEntry>,
    pub operators: Vec<OperatorEntry>,
}

/// The balance of `(item, account)`, or 0 when no cell holds the pair.
pub open spec fn cell_of(s: Seq<MultiBalanceEntry>, item: u32, account: AccountId) -> int
    decreases s.len(),
{
    if s.len() == 0 {
        0
    } else if s.last().item == item && s.last().account == account {
        s.last().amount.val()
    } else {
        cell_of(s.drop_last(), item, account)
    }
}

/// No (item, account) pair owns two cells.
pub open spec fn unique_cells(s: Seq<MultiBalanceEntry>) -> bool {
    forall|i: int, j: int|
        0 <= i < j < s.len() ==> !(s[i].item == s[j].item && s[i].account == s[j].account)
}

/// A token's internal invariant: unique keys in both tables.
pub open spec fn multi_token_wf(t: MultiToken) -> bool {
    &&& unique_cells(t.balances@)
    &&& unique_operators(t.operators@)
}

/// Under unique cells, the cell at `i` gives the balance of its pair.
pub proof fn lemma_cell_match(s: Seq<MultiBalanceEntry>, i: int)
    requires
        unique_cells(s),
        0 <= i < s.len(),
    ensures
        cell_of(s, s[i].item, s[i].account) == s[i].amount.val(),
    decreases s.len(),
{
    if i < s.len() - 1 {
        assert(s.drop_last()[i] == s[i]);
        lemma_cell_match(s.drop_last(), i);
    }
}

/// A pair with no cell has balance 0.
pub proof fn lemma_cell_absent(s: Seq<MultiBalanceEntry>, item: u32, account: AccountId)
    requires
        forall|k: int| 0 <= k < s.len() ==> !(s[k].item == item && s[k].account == account),
    ensures
        cell_of(s, item, account) == 0,
    decreases s.len(),
{
    if s.len() > 0 {
        lemma_cell_absent(s.drop_last(), item, account);
    }
}

/// Replacing the cell at `i` by one for the same pair moves that pair's
/// balance and keeps every other cell.
pub proof fn lemma_cell_set_at(s: Seq<MultiBalanceEntry>, i: int, e: MultiBalanceEntry)
    requires
        unique_cells(s),
        0 <= i < s.len(),
        e.item == s[i].item,
        e.account == s[i].account,
    ensures
        unique_cells(s.update(i, e)),
        cell_of(s.update(i, e), e.item, e.account) == e.amount.val(),
        forall|it: u32, a: AccountId|
            !(it == e.item && a == e.account) ==> cell_of(s.update(i, e), it, a) == cell_of(
                s,
                it,
                a,
            ),
    decreases s.len(),
{
    let s2 = s.update(i, e);
    assert(unique_cells(s2));
    if i == s.len() - 1 {
        assert(s2.drop_last() =~= s.drop_last());
        assert(s2.last() == e);
        assert forall|it: u32, a: AccountId|
            !(it == e.item && a == e.account) implies cell_of(s2, it, a) == cell_of(s, it, a) by {
            assert(cell_of(s2, it, a) == cell_of(s2.drop_last(), it, a));
            assert(cell_of(s, it, a) == cell_of(s.drop_last(), it, a));
        }
    } else {
        assert(s2.last() == s.last());
        assert(s2.drop_last() =~= s.drop_last().update(i, e));
        assert(s.drop_last()[i] == s[i]);
        lemma_cell_set_at(s.drop_last(), i, e);
        lemma_cell_match(s, i);
        lemma_cell_match(s2, i);
        assert forall|it: u32, a: AccountId|
            !(it == e.item && a == e.account) implies cell_of(s2, it, a) == cell_of(s, it, a) by {
            if !(s.last().item == it && s.last().account == a) {
                assert(cell_of(s2, it, a) == cell_of(s2.drop_last(), it, a));
                assert(cell_of(s, it, a) == cell_of(s.drop_last(), it, a));
                assert(cell_of(s.drop_last().update(i, e), it, a) == cell_of(
                    s.drop_last(),
                    it,
                    a,
                ));
            }
        }
    }
}

/// Appending a cell for a fresh pair gives it that balance and keeps every
/// other cell.
pub proof fn lemma_cell_push_fresh(s: Seq<MultiBalanceEntry>, e: MultiBalanceEntry)
    requires
        unique_cells(s),
        forall|k: int| 0 <= k < s.len() ==> !(s[k].item == e.item && s[k].account == e.account),
    ensures
        unique_cells(s.push(e)),
        cell_of(s.push(e), e.item, e.account) == e.amount.val(),
        forall|it: u32, a: AccountId|
            !(it == e.item && a == e.account) ==> cell_of(s.push(e), it, a) == cell_of(s, it, a),
{
    let s2 = s.push(e);
    assert(s2.drop_last() =~= s);
    assert(forall|k: int| 0 <= k < s.len() ==> s2[k] == s[k]);
}

/// Finds the index of the cell holding `(item, account)`, if any.
pub fn find_cell(v: &Vec<MultiBalanceEntry>, item: u32, account: AccountId) -> (r: Option<usize>)
    ensures
        r matches Some(i) ==> i < v@.len() && v@[i as int].item == item && v@[
            i as int
        ].account == account,
        r is None ==> forall|k: int|
            0 <= k < v@.len() ==> !(v@[k].item == item && v@[k].account == account),
{
    let mut k: usize = 0;
    while k < v.len()
        invariant
            k <= v@.len(),
            forall|j: int| 0 <= j < k ==> !(v@[j].item == item && v@[j].account == account),
        decreases v@.len() - k,
    {
        if v[k].item == item && v[k].account == account {
            return Some(k);
        }
        k = k + 1;
    }
    None
}

/// Reads the balance of `(item, account)` (0 when no cell holds it).
pub fn get_cell(v: &Vec<MultiBalanceEntry>, item: u32, account: AccountId) -> (r: U256)
    requires
        unique_cells(v@),
    ensures
        r.val() == cell_of(v@, item, account),
{
    match find_cell(v, item, account) {
        Some(i) => {
            proof {
                lemma_cell_match(v@, i as int);
            }
            v[i].amount
        },
        None => {
            proof {
                lemma_cell_absent(v@, item, account);
            }
            U256::zero()
        },
    }
}

/// Sets the balance of `(item, account)` to `amount`, keeping every other
/// cell.
pub fn set_cell(v: &mut Vec<MultiBalanceEntry>, item: u32, account: AccountId, amount: U256)
    requires
        unique_cells(old(v)@),
    ensures
        unique_cells(final(v)@),
        cell_of(final(v)@, item, account) == amount.val(),
        forall|it: u32, a: AccountId|
            !(it == item && a == account) ==> cell_of(final(v)@, it, a) == cell_of(old(v)@, it, a),
{
    let ghost s = v@;
    let e = MultiBalanceEntry { item, account, amount };
    match find_cell(v, item, account) {
        Some(i) => {
            v.remove(i);
            v.insert(i, e);
            proof {
                assert(v@ =~= s.update(i as int, e));
                lemma_cell_set_at(s, i as int, e);
            }
        },
        None => {
            v.push(e);
            proof {
                lemma_cell_push_fresh(s, e);
            }
        },
    }
}

/// The whole balance table of a multi-token as a total map: every
/// (item, account) pair to its balance (0 where no cell exists).
pub open spec fn mt_map(s: Seq<MultiBalanceEntry>) -> Map<(u32, AccountId), int> {
    Map::new(|p: (u32, AccountId)| true, |p: (u32, AccountId)| cell_of(s, p.0, p.1))
}

/// One transfer step on the balance map: succeeds iff the source holds the
/// amount and the destination does not overflow. A self-transfer leaves the
/// map unchanged.
pub open spec fn mt_single_xfer(
    m: Map<(u32, AccountId), int>,
    from: AccountId,
    to: AccountId,
    item: u32,
    amount: U256,
) -> Option<Map<(u32, AccountId), int>> {
    if m[(item, from)] >= amount.val() && (from == to || m[(item, to)] + amount.val()
        < u256_limit()) {
        if from == to {
            Some(m)
        } else {
            Some(
                m.insert((item, from), m[(item, from)] - amount.val()).insert(
                    (item, to),
                    m[(item, to)] + amount.val(),
                ),
            )
        }
    } else {
        None
    }
}

/// The error of a failed transfer step.
pub open spec fn mt_single_xfer_err(
    m: Map<(u32, AccountId), int>,
    from: AccountId,
    item: u32,
    amount: U256,
) -> TokenError {
    if m[(item, from)] < amount.val() {
        TokenError::InsufficientBalance
    } else {
        TokenError::ArithmeticError
    }
}

/// A batch of transfer steps applied in order; `None` as soon as one step
/// fails.
pub open spec fn mt_batch_xfer(
    m: Map<(u32, AccountId), int>,
    from: AccountId,
    to: AccountId,
    items: Seq<u32>,
    amounts: Seq<U256>,
) -> Option<Map<(u32, AccountId), int>>
    recommends
        items.len() == amounts.len(),
    decreases items.len(),
{
    if items.len() == 0 {
        Some(m)
    } else {
        match mt_single_xfer(m, from, to, items[0], amounts[0]) {
            Some(m2) => mt_batch_xfer(m2, from, to, items.drop_first(), amounts.drop_first()),
            None => None,
        }
    }
}

/// The error of the first failing step of a batch of transfers.
pub open spec fn mt_batch_xfer_err(
    m: Map<(u32, AccountId), int>,
    from: AccountId,
    to: AccountId,
    items: Seq<u32>,
    amounts: Seq<U256>,
) -> TokenError
    decreases items.len(),
{
    if items.len() == 0 {
        TokenError::BadArgument
    } else {
        match mt_single_xfer(m, from, to, items[0], amounts[0]) {
            Some(m2) => mt_batch_xfer_err(m2, from, to, items.drop_first(), amounts.drop_first()),
            None => mt_single_xfer_err(m, from, items[0], amounts[0]),
        }
    }
}

/// One mint step on the balance map: succeeds iff the cell does not
/// overflow.
pub open spec fn mt_single_mint(
    m: Map<(u32, AccountId), int>,
    to: AccountId,
    item: u32,
    amount: U256,
) -> Option<Map<(u32, AccountId), int>> {
    if m[(item, to)] + amount.val() < u256_limit() {
        Some(m.insert((item, to), m[(item, to)] + amount.val()))
    } else {
        None
    }
}

/// A batch of mint steps applied in order.
pub open spec fn mt_batch_mint(
    m: Map<(u32, AccountId), int>,
    to: AccountId,
    items: Seq<u32>,
    amounts: Seq<U256>,
) -> Option<Map<(u32, AccountId), int>>
    recommends
        items.len() == amounts.len(),
    decreases items.len(),
{
    if items.len() == 0 {
        Some(m)
    } else {
        match mt_single_mint(m, to, items[0], amounts[0]) {
            Some(m2) => mt_batch_mint(m2, to, items.drop_first(), amounts.drop_first()),
            None => None,
        }
    }
}

/// One burn step on the balance map: succeeds iff the cell holds the
/// amount.
pub open spec fn mt_single_burn(
    m: Map<(u32, AccountId), int>,
    from: AccountId,
    item: u32,
    amount: U256,
) -> Option<Map<(u32, AccountId), int>> {
    if m[(item, from)] >= amount.val() {
        Some(m.insert((item, from), m[(item, from)] - amount.val()))
    } else {
        None
    }
}

/// A batch of burn steps applied in order.
pub open spec fn mt_batch_burn(
    m: Map<(u32, AccountId), int>,
    from: AccountId,
    items: Seq<u32>,
    amounts: Seq<U256>,
) -> Option<Map<(u32, AccountId), int>>
    recommends
        items.len() == amounts.len(),
    decreases items.len(),
{
    if items.len() == 0 {
        Some(m)
    } else {
        match mt_single_burn(m, from, items[0], amounts[0]) {
            Some(m2) => mt_batch_burn(m2, from, items.drop_first(), amounts.drop_first()),
            None => None,
        }
    }
}

/// Copies a vector of plain values.
pub fn copy_vec<T: Copy>(v: &Vec<T>) -> (r: Vec<T>)
    ensures
        r@ == v@,
{
    let mut r: Vec<T> = Vec::new();
    let mut k: usize = 0;
    while k < v.len()
        invariant
            k <= v@.len(),
            r@ == v@.subrange(0, k as int),
        decreases v@.len() - k,
    {
        r.push(v[k]);
        k = k + 1;
        proof {
            assert(r@ =~= v@.subrange(0, k as int));
        }
    }
    proof {
        assert(r@ =~= v@);
    }
    r
}

/// Applies one transfer step to the cell table.
pub fn apply_cell_xfer(
    v: &mut Vec<MultiBalanceEntry>,
    from: AccountId,
    to: AccountId,
    item: u32,
    amount: U256,
) -> (r: Result<(), TokenError>)
    requires
        unique_cells(old(v)@),
    ensures
        unique_cells(final(v)@),
        (r is Ok) <==> mt_single_xfer(mt_map(old(v)@), from, to, item, amount) is Some,
        r is Ok ==> (mt_single_xfer(mt_map(old(v)@), from, to, item, amount) matches Some(m2)
            && mt_map(final(v)@) == m2),
        r matches Err(e) ==> final(v)@ == old(v)@ && e == mt_single_xfer_err(
            mt_map(old(v)@),
            from,
            item,
            amount,
        ),
{
    let ghost m0 = mt_map(v@);
    let from_bal = get_cell(v, item, from);
    if !from_bal.ge(amount) {
        return Err(TokenError::InsufficientBalance);
    }
    if from == to {
        return Ok(());
    }
    let to_bal = get_cell(v, item, to);
    let new_to = match to_bal.checked_add(amount) {
        Some(x) => x,
        None => {
            proof {
                to_bal.lemma_val_range();
                amount.lemma_val_range();
            }
            return Err(TokenError::ArithmeticError);
        },
    };
    let new_from = from_bal.checked_sub(amount).unwrap();
    set_cell(v, item, from, new_from);
    set_cell(v, item, to, new_to);
    proof {
        let m2 = mt_single_xfer(m0, from, to, item, amount).unwrap();
        assert(m2.dom() =~= mt_map(v@).dom());
        assert forall|p: (u32, AccountId)| mt_map(v@).dom().contains(p) implies mt_map(v@)[p]
            == m2[p] by {
            if p == (item, from) {
            } else if p == (item, to) {
            }
        }
        assert(mt_map(v@) =~= m2);
    }
    Ok(())
}

/// Applies one mint step to the cell table.
pub fn apply_cell_mint(
    v: &mut Vec<MultiBalanceEntry>,
    to: AccountId,
    item: u32,
    amount: U256,
) -> (r: Result<(), TokenError>)
    requires
        unique_cells(old(v)@),
    ensures
        unique_cells(final(v)@),
        (r is Ok) <==> mt_single_mint(mt_map(old(v)@), to, item, amount) is Some,
        r is Ok ==> (mt_single_mint(mt_map(old(v)@), to, item, amount) matches Some(m2)
            && mt_map(final(v)@) == m2),
        r matches Err(e) ==> final(v)@ == old(v)@ && e == TokenError::ArithmeticError,
{
    let ghost m0 = mt_map(v@);
    let to_bal = get_cell(v, item, to);
    let new_to = match to_bal.checked_add(amount) {
        Some(x) => x,
        None => {
            proof {
                to_bal.lemma_val_range();
                amount.lemma_val_range();
            }
            return Err(TokenError::ArithmeticError);
        },
    };
    set_cell(v, item, to, new_to);
    proof {
        let m2 = mt_single_mint(m0, to, item, amount).unwrap();
        assert(m2.dom() =~= mt_map(v@).dom());
        assert forall|p: (u32, AccountId)| mt_map(v@).dom().contains(p) implies mt_map(v@)[p]
            == m2[p] by {
            if p == (item, to) {
            }
        }
        assert(mt_map(v@) =~= m2);
    }
    Ok(())
}

/// Applies one burn step to the cell table.
pub fn apply_cell_burn(
    v: &mut Vec<MultiBalanceEntry>,
    from: AccountId,
    item: u32,
    amount: U256,
) -> (r: Result<(), TokenError>)
    requires
        unique_cells(old(v)@),
    ensures
        unique_cells(final(v)@),
        (r is Ok) <==> mt_single_burn(mt_map(old(v)@), from, item, amount) is Some,
        r is Ok ==> (mt_single_burn(mt_map(old(v)@), from, item, amount) matches Some(m2)
            && mt_map(final(v)@) == m2),
        r matches Err(e) ==> final(v)@ == old(v)@ && e == TokenError::InsufficientBalance,
{
    let ghost m0 = mt_map(v@);
    let from_bal = get_cell(v, item, from);
    if !from_bal.ge(amount) {
        return Err(TokenError::InsufficientBalance);
    }
    let new_from = from_bal.checked_sub(amount).unwrap();
    set_cell(v, item, from, new_from);
    proof {
        let m2 = mt_single_burn(m0, from, item, amount).unwrap();
        assert(m2.dom() =~= mt_map(v@).dom());
        assert forall|p: (u32, AccountId)| mt_map(v@).dom().contains(p) implies mt_map(v@)[p]
            == m2[p] by {
            if p == (item, from) {
            }
        }
        assert(mt_map(v@) =~= m2);
    }
    Ok(())
}

/// A multi-token operation touched only token `id` of its registry and kept
/// its uri.
pub open spec fn multi_frame(pre: TokenEngine, post: TokenEngine, id: u32) -> bool {
    &&& pre.multi_exists(id)
    &&& post.multi@.len() == pre.multi@.len()
    &&& forall|j: int| 0 <= j < pre.multi@.len() && j != id - 1 ==> post.multi@[j] == pre.multi@[j]
    &&& post.fungible == pre.fungible
    &&& post.nonfungible == pre.nonfungible
    &&& post.multi_at(id).uri == pre.multi_at(id).uri
}

/// No balance cell of token `id` changed.
pub open spec fn mt_balances_unchanged(pre: TokenEngine, post: TokenEngine, id: u32) -> bool {
    forall|it: u32, a: AccountId| post.mt_balance(id, it, a) == pre.mt_balance(id, it, a)
}

/// No operator approval of token `id` changed.
pub open spec fn mt_operators_unchanged(pre: TokenEngine, post: TokenEngine, id: u32) -> bool {
    forall|o: AccountId, p: AccountId| post.mt_operator(id, o, p) == pre.mt_operator(id, o, p)
}

/// Whether `caller` may move `from`'s holdings: the owner, or an operator
/// approved for all of them.
pub open spec fn mt_may_move(pre: TokenEngine, id: u32, from: AccountId, caller: AccountId) -> bool {
    caller == from || pre.mt_operator(id, from, caller)
}

/// The state after a successful multi-token `create_token`: the new token,
/// and two events, the creation record then the uri record.
pub open spec fn multi_create_post(pre: TokenEngine, post: TokenEngine, id: u32, uri: Seq<u8>) -> bool {
    &&& id == pre.multi@.len() + 1
    &&& post.multi@.len() == pre.multi@.len() + 1
    &&& forall|j: int| 0 <= j < pre.multi@.len() ==> post.multi@[j] == pre.multi@[j]
    &&& post.multi_at(id).uri@ == uri
    &&& post.multi_at(id).balances@.len() == 0
    &&& post.multi_at(id).operators@.len() == 0
    &&& post.fungible == pre.fungible
    &&& post.nonfungible == pre.nonfungible
    &&& post.events@.len() == pre.events@.len() + 2
    &&& pre.events@.is_prefix_of(post.events@)
    &&& post.events@[pre.events@.len() as int] == Event::MultiTokenCreated { id }
    &&& (post.events@.last() matches Event::MultiUri { id: eid, uri: euri } && eid == id && euri@
        == uri)
}

/// The error of a failed multi-token `transfer_from`.
pub open spec fn multi_transfer_from_err(
    pre: TokenEngine,
    caller: AccountId,
    id: u32,
    from: AccountId,
    to: AccountId,
    item: u32,
    amount: U256,
) -> TokenError {
    if !pre.multi_exists(id) {
        TokenError::UnknownToken
    } else if !mt_may_move(pre, id, from, caller) {
        TokenError::Unauthorized
    } else {
        mt_single_xfer_err(mt_map(pre.multi_at(id).balances@), from, item, amount)
    }
}

/// The error of a failed multi-token `batch_transfer_from`.
pub open spec fn multi_batch_xfer_op_err(
    pre: TokenEngine,
    caller: AccountId,
    id: u32,
    from: AccountId,
    to: AccountId,
    items: Seq<u32>,
    amounts: Seq<U256>,
) -> TokenError {
    if !pre.multi_exists(id) {
        TokenError::UnknownToken
    } else if items.len() != amounts.len() {
        TokenError::BadArgument
    } else if !mt_may_move(pre, id, from, caller) {
        TokenError::Unauthorized
    } else {
        mt_batch_xfer_err(mt_map(pre.multi_at(id).balances@), from, to, items, amounts)
    }
}

impl TokenEngine {
    /// Registers a new multi-token and allocates the next identifier.
    pub fn multi_create(&mut self, uri: Vec<u8>) -> (r: Result<u32, TokenError>)
        requires
            old(self).wf(),
        ensures
            final(self).wf(),
            (r is Ok) <==> old(self).multi_count() < u32::MAX,
            r matches Err(e) ==> *final(self) == *old(self) && e == TokenError::FailCreateToken,
            r matches Ok(id) ==> multi_create_post(*old(self), *final(self), id, uri@),
    {
        if self.multi.len() >= u32::MAX as usize {
            return Err(TokenError::FailCreateToken);
        }
        let id: u32 = (self.multi.len() + 1) as u32;
        let uri_copy = copy_vec(&uri);
        let t = MultiToken { uri, balances: Vec::new(), operators: Vec::new() };
        self.multi.push(t);
        self.events.push(Event::MultiTokenCreated { id });
        self.events.push(Event::MultiUri { id, uri: uri_copy });
        proof {
            assert forall|i: int|
                0 <= i < self.multi@.len() implies multi_token_wf(#[trigger] self.multi@[i]) by {
                if i < self.multi@.len() - 1 {
                    assert(multi_token_wf(old(self).multi@[i]));
                }
            }
        }
        Ok(id)
    }

    /// Grants or revokes `operator` for all of the caller's holdings.
    pub fn multi_set_approval_for_all(
        &mut self,
        caller: AccountId,
        id: u32,
        operator: AccountId,
        approved: bool,
    ) -> (r: Result<(), TokenError>)
        requires
            old(self).wf(),
        ensures
            final(self).wf(),
            (r is Ok) <==> old(self).multi_exists(id),
            r matches Err(e) ==> *final(self) == *old(self) && e == TokenError::UnknownToken,
            r is Ok ==> {
                &&& multi_frame(*old(self), *final(self), id)
                &&& mt_balances_unchanged(*old(self), *final(self), id)
                &&& final(self).mt_operator(id, caller, operator) == approved
                &&& forall|o: AccountId, p: AccountId|
                    !(o == caller && p == operator) ==> final(self).mt_operator(id, o, p) == old(
                        self,
                    ).mt_operator(id, o, p)
                &&& final(self).events@ == old(self).events@.push(
                    Event::MultiApprovalForAll { id, owner: caller, operator, approved },
                )
            },
    {
        if id == 0 || (id as usize) > self.multi.len() {
            return Err(TokenError::UnknownToken);
        }
        let idx = (id - 1) as usize;
        proof {
            assert(multi_token_wf(old(self).multi@[idx as int]));
        }
        let mut t = self.multi.remove(idx);
        set_operator(&mut t.operators, caller, operator, approved);
        self.multi.insert(idx, t);
        self.events.push(Event::MultiApprovalForAll { id, owner: caller, operator, approved });
        proof {
            assert(self.multi@ =~= old(self).multi@.update(idx as int, self.multi@[idx as int]));
            assert forall|i: int|
                0 <= i < self.multi@.len() implies multi_token_wf(#[trigger] self.multi@[i]) by {
                if i != idx {
                    assert(multi_token_wf(old(self).multi@[i]));
                }
            }
        }
        Ok(())
    }

    /// Moves `amount` of `item` from `from` to `to` on the caller's
    /// authority.
    pub fn multi_transfer_from(
        &mut self,
        caller: AccountId,
        id: u32,
        from: AccountId,
        to: AccountId,
        item: u32,
        amount: U256,
    ) -> (r: Result<(), TokenError>)
        requires
            old(self).wf(),
        ensures
            final(self).wf(),
            (r is Ok) <==> old(self).multi_exists(id) && mt_may_move(*old(self), id, from, caller)
                && mt_single_xfer(
                mt_map(old(self).multi_at(id).balances@),
                from,
                to,
                item,
                amount,
            ) is Some,
            r matches Err(e) ==> *final(self) == *old(self) && e == multi_transfer_from_err(
                *old(self),
                caller,
                id,
                from,
                to,
                item,
                amount,
            ),
            r is Ok ==> {
                &&& multi_frame(*old(self), *final(self), id)
                &&& (if from == to {
                    mt_balances_unchanged(*old(self), *final(self), id)
                } else {
                    &&& final(self).mt_balance(id, item, from) == old(self).mt_balance(
                        id,
                        item,
                        from,
                    ) - amount.val()
                    &&& final(self).mt_balance(id, item, to) == old(self).mt_balance(id, item, to)
                        + amount.val()
                    &&& forall|it: u32, a: AccountId|
                        !(it == item && a == from) && !(it == item && a == to)
                            ==> final(self).mt_balance(id, it, a) == old(self).mt_balance(id, it, a)
                })
                &&& mt_operators_unchanged(*old(self), *final(self), id)
                &&& final(self).events@ == old(self).events@.push(
                    Event::MultiTransferSingle {
                        id,
                        operator: caller,
                        from: Some(from),
                        to: Some(to),
                        item,
                        amount,
                    },
                )
            },
    {
        if id == 0 || (id as usize) > self.multi.len() {
            return Err(TokenError::UnknownToken);
        }
        let idx = (id - 1) as usize;
        proof {
            assert(multi_token_wf(old(self).multi@[idx as int]));
        }
        if !(caller == from || has_operator(&self.multi[idx].operators, from, caller)) {
            return Err(TokenError::Unauthorized);
        }
        let mut scratch = copy_vec(&self.multi[idx].balances);
        let step = apply_cell_xfer(&mut scratch, from, to, item, amount);
        match step {
            Ok(()) => {},
            Err(e) => {
                return Err(e);
            },
        }
        let mut t = self.multi.remove(idx);
        t.balances = scratch;
        self.multi.insert(idx, t);
        self.events.push(
            Event::MultiTransferSingle {
                id,
                operator: caller,
                from: Some(from),
                to: Some(to),
                item,
                amount,
            },
        );
        proof {
            assert(self.multi@ =~= old(self).multi@.update(idx as int, self.multi@[idx as int]));
            assert forall|i: int|
                0 <= i < self.multi@.len() implies multi_token_wf(#[trigger] self.multi@[i]) by {
                if i != idx {
                    assert(multi_token_wf(old(self).multi@[i]));
                }
            }
            let m0 = mt_map(old(self).multi_at(id).balances@);
            let m2 = mt_single_xfer(m0, from, to, item, amount).unwrap();
            assert(mt_map(self.multi_at(id).balances@) == m2);
            if from != to {
                assert(self.mt_balance(id, item, from) == m2[(item, from)]);
                assert(self.mt_balance(id, item, to) == m2[(item, to)]);
                assert forall|it: u32, a: AccountId|
                    !(it == item && a == from) && !(it == item && a == to) implies self.mt_balance(
                    id,
                    it,
                    a,
                ) == old(self).mt_balance(id, it, a) by {
                    assert(mt_map(self.multi_at(id).balances@)[(it, a)] == m2[(it, a)]);
                }
            } else {
                assert forall|it: u32, a: AccountId| self.mt_balance(id, it, a) == old(
                    self,
                ).mt_balance(id, it, a) by {
                    assert(mt_map(self.multi_at(id).balances@)[(it, a)] == m2[(it, a)]);
                }
            }
        }
        Ok(())
    }

    /// Creates `amount` units of `item` in `to`'s balance.
    pub fn multi_mint(
        &mut self,
        id: u32,
        to: AccountId,
        item: u32,
        amount: U256,
    ) -> (r: Result<(), TokenError>)
        requires
            old(self).wf(),
        ensures
            final(self).wf(),
            (r is Ok) <==> old(self).multi_exists(id) && old(self).mt_balance(id, item, to)
                + amount.val() < u256_limit(),
            r matches Err(e) ==> *final(self) == *old(self) && e == (
            if !old(self).multi_exists(id) {
                TokenError::UnknownToken
            } else {
                TokenError::ArithmeticError
            }),
            r is Ok ==> {
                &&& multi_frame(*old(self), *final(self), id)
                &&& final(self).mt_balance(id, item, to) == old(self).mt_balance(id, item, to)
                    + amount.val()
                &&& forall|it: u32, a: AccountId|
                    !(it == item && a == to) ==> final(self).mt_balance(id, it, a) == old(
                        self,
                    ).mt_balance(id, it, a)
                &&& mt_operators_unchanged(*old(self), *final(self), id)
                &&& final(self).events@ == old(self).events@.push(
                    Event::MultiTransferSingle {
                        id,
                        operator: to,
                        from: None,
                        to: Some(to),
                        item,
                        amount,
                    },
                )
            },
    {
        if id == 0 || (id as usize) > self.multi.len() {
            return Err(TokenError::UnknownToken);
        }
        let idx = (id - 1) as usize;
        proof {
            assert(multi_token_wf(old(self).multi@[idx as int]));
        }
        let mut scratch = copy_vec(&self.multi[idx].balances);
        match apply_cell_mint(&mut scratch, to, item, amount) {
            Ok(()) => {},
            Err(e) => {
                return Err(e);
            },
        }
        let mut t = self.multi.remove(idx);
        t.balances = scratch;
        self.multi.insert(idx, t);
        self.events.push(
            Event::MultiTransferSingle { id, operator: to, from: None, to: Some(to), item, amount },
        );
        proof {
            assert(self.multi@ =~= old(self).multi@.update(idx as int, self.multi@[idx as int]));
            assert forall|i: int|
                0 <= i < self.multi@.len() implies multi_token_wf(#[trigger] self.multi@[i]) by {
                if i != idx {
                    assert(multi_token_wf(old(self).multi@[i]));
                }
            }
            let m0 = mt_map(old(self).multi_at(id).balances@);
            let m2 = mt_single_mint(m0, to, item, amount).unwrap();
            assert(mt_map(self.multi_at(id).balances@) == m2);
            assert(self.mt_balance(id, item, to) == m2[(item, to)]);
            assert forall|it: u32, a: AccountId|
                !(it == item && a == to) implies self.mt_balance(id, it, a) == old(self).mt_balance(
                id,
                it,
                a,
            ) by {
                assert(mt_map(self.multi_at(id).balances@)[(it, a)] == m2[(it, a)]);
            }
        }
        Ok(())
    }

    /// Destroys `amount` units of `item` from the caller's balance.
    pub fn multi_burn(
        &mut self,
        caller: AccountId,
        id: u32,
        item: u32,
        amount: U256,
    ) -> (r: Result<(), TokenError>)
        requires
            old(self).wf(),
        ensures
            final(self).wf(),
            (r is Ok) <==> old(self).multi_exists(id) && old(self).mt_balance(id, item, caller)
                >= amount.val(),
            r matches Err(e) ==> *final(self) == *old(self) && e == (
            if !old(self).multi_exists(id) {
                TokenError::UnknownToken
            } else {
                TokenError::InsufficientBalance
            }),
            r is Ok ==> {
                &&& multi_frame(*old(self), *final(self), id)
                &&& final(self).mt_balance(id, item, caller) == old(self).mt_balance(
                    id,
                    item,
                    caller,
                ) - amount.val()
                &&& forall|it: u32, a: AccountId|
                    !(it == item && a == caller) ==> final(self).mt_balance(id, it, a) == old(
                        self,
                    ).mt_balance(id, it, a)
                &&& mt_operators_unchanged(*old(self), *final(self), id)
                &&& final(self).events@ == old(self).events@.push(
                    Event::MultiTransferSingle {
                        id,
                        operator: caller,
                        from: Some(caller),
                        to: None,
                        item,
                        amount,
                    },
                )
            },
    {
        if id == 0 || (id as usize) > self.multi.len() {
            return Err(TokenError::UnknownToken);
        }
        let idx = (id - 1) as usize;
        proof {
            assert(multi_token_wf(old(self).multi@[idx as int]));
        }
        let mut scratch = copy_vec(&self.multi[idx].balances);
        match apply_cell_burn(&mut scratch, caller, item, amount) {
            Ok(()) => {},
            Err(e) => {
                return Err(e);
            },
        }
        let mut t = self.multi.remove(idx);
        t.balances = scratch;
        self.multi.insert(idx, t);
        self.events.push(
            Event::MultiTransferSingle {
                id,
                operator: caller,
                from: Some(caller),
                to: None,
                item,
                amount,
            },
        );
        proof {
            assert(self.multi@ =~= old(self).multi@.update(idx as int, self.multi@[idx as int]));
            assert forall|i: int|
                0 <= i < self.multi@.len() implies multi_token_wf(#[trigger] self.multi@[i]) by {
                if i != idx {
                    assert(multi_token_wf(old(self).multi@[i]));
                }
            }
            let m0 = mt_map(old(self).multi_at(id).balances@);
            let m2 = mt_single_burn(m0, caller, item, amount).unwrap();
            assert(mt_map(self.multi_at(id).balances@) == m2);
            assert(self.mt_balance(id, item, caller) == m2[(item, caller)]);
            assert forall|it: u32, a: AccountId|
                !(it == item && a == caller) implies self.mt_balance(id, it, a) == old(
                self,
            ).mt_balance(id, it, a) by {
                assert(mt_map(self.multi_at(id).balances@)[(it, a)] == m2[(it, a)]);
            }
        }
        Ok(())
    }
}

impl TokenEngine {
    /// Moves several (item, amount) pairs from `from` to `to` in one atomic
    /// step: if any sub-transfer fails, no balance changes and no event is
    /// emitted. Sub-transfers apply in order, so amounts accumulate.
    #[verifier::loop_isolation(false)]
    pub fn multi_batch_transfer_from(
        &mut self,
        caller: AccountId,
        id: u32,
        from: AccountId,
        to: AccountId,
        token_ids: Vec<u32>,
        amounts: Vec<U256>,
    ) -> (r: Result<(), TokenError>)
        requires
            old(self).wf(),
        ensures
            final(self).wf(),
            (r is Ok) <==> old(self).multi_exists(id) && token_ids@.len() == amounts@.len()
                && mt_may_move(*old(self), id, from, caller) && mt_batch_xfer(
                mt_map(old(self).multi_at(id).balances@),
                from,
                to,
                token_ids@,
                amounts@,
            ) is Some,
            r matches Err(e) ==> *final(self) == *old(self) && e == multi_batch_xfer_op_err(
                *old(self),
                caller,
                id,
                from,
                to,
                token_ids@,
                amounts@,
            ),
            r is Ok ==> {
                &&& multi_frame(*old(self), *final(self), id)
                &&& (mt_batch_xfer(
                    mt_map(old(self).multi_at(id).balances@),
                    from,
                    to,
                    token_ids@,
                    amounts@,
                ) matches Some(m2) && mt_map(final(self).multi_at(id).balances@) == m2)
                &&& mt_operators_unchanged(*old(self), *final(self), id)
                &&& final(self).events@.len() == old(self).events@.len() + 1
                &&& old(self).events@.is_prefix_of(final(self).events@)
                &&& (final(self).events@.last() matches Event::MultiTransferBatch {
                    id: eid,
                    operator: eop,
                    from: ef,
                    to: et,
                    items: eitems,
                    amounts: eamounts,
                } && eid == id && eop == caller && ef == Some(from) && et == Some(to) && eitems@
                    == token_ids@ && eamounts@ == amounts@)
            },
    {
        if id == 0 || (id as usize) > self.multi.len() {
            return Err(TokenError::UnknownToken);
        }
        let idx = (id - 1) as usize;
        proof {
            assert(multi_token_wf(old(self).multi@[idx as int]));
        }
        if token_ids.len() != amounts.len() {
            return Err(TokenError::BadArgument);
        }
        if !(caller == from || has_operator(&self.multi[idx].operators, from, caller)) {
            return Err(TokenError::Unauthorized);
        }
        let mut scratch = copy_vec(&self.multi[idx].balances);
        let ghost m0 = mt_map(scratch@);
        let n = token_ids.len();
        let mut k: usize = 0;
        proof {
            assert(token_ids@.skip(0) =~= token_ids@);
            assert(amounts@.skip(0) =~= amounts@);
        }
        while k < n
            invariant
                *self == *old(self),
                n == token_ids@.len(),
                amounts@.len() == n,
                k <= n,
                unique_cells(scratch@),
                mt_batch_xfer(m0, from, to, token_ids@, amounts@) == mt_batch_xfer(
                    mt_map(scratch@),
                    from,
                    to,
                    token_ids@.skip(k as int),
                    amounts@.skip(k as int),
                ),
                (mt_batch_xfer(m0, from, to, token_ids@, amounts@) is None)
                    ==> mt_batch_xfer_err(m0, from, to, token_ids@, amounts@)
                    == mt_batch_xfer_err(
                    mt_map(scratch@),
                    from,
                    to,
                    token_ids@.skip(k as int),
                    amounts@.skip(k as int),
                ),
            decreases n - k,
        {
            let ghost mcur = mt_map(scratch@);
            let ghost its = token_ids@.skip(k as int);
            let ghost ams = amounts@.skip(k as int);
            proof {
                assert(its[0] == token_ids@[k as int]);
                assert(ams[0] == amounts@[k as int]);
                assert(its.drop_first() =~= token_ids@.skip(k as int + 1));
                assert(ams.drop_first() =~= amounts@.skip(k as int + 1));
            }
            match apply_cell_xfer(&mut scratch, from, to, token_ids[k], amounts[k]) {
                Ok(()) => {
                    k = k + 1;
                },
                Err(e) => {
                    proof {
                        assert(mt_batch_xfer(mcur, from, to, its, ams) is None);
                        assert(mt_batch_xfer_err(mcur, from, to, its, ams) == mt_single_xfer_err(
                            mcur,
                            from,
                            its[0],
                            ams[0],
                        ));
                    }
                    return Err(e);
                },
            }
        }
        proof {
            assert(token_ids@.skip(n as int).len() == 0);
            assert(mt_batch_xfer(
                mt_map(scratch@),
                from,
                to,
                token_ids@.skip(n as int),
                amounts@.skip(n as int),
            ) == Some(mt_map(scratch@)));
        }
        let mut t = self.multi.remove(idx);
        t.balances = scratch;
        self.multi.insert(idx, t);
        self.events.push(
            Event::MultiTransferBatch {
                id,
                operator: caller,
                from: Some(from),
                to: Some(to),
                items: token_ids,
                amounts,
            },
        );
        proof {
            assert(self.multi@ =~= old(self).multi@.update(idx as int, self.multi@[idx as int]));
            assert forall|i: int|
                0 <= i < self.multi@.len() implies multi_token_wf(#[trigger] self.multi@[i]) by {
                if i != idx {
                    assert(multi_token_wf(old(self).multi@[i]));
                }
            }
        }
        Ok(())
    }

    /// Mints several (item, amount) pairs to `to` in one atomic step: if any
    /// sub-mint overflows, no balance changes and no event is emitted.
    #[verifier::loop_isolation(false)]
    pub fn multi_mint_batch(
        &mut self,
        id: u32,
        to: AccountId,
        token_ids: Vec<u32>,
        amounts: Vec<U256>,
    ) -> (r: Result<(), TokenError>)
        requires
            old(self).wf(),
        ensures
            final(self).wf(),
            (r is Ok) <==> old(self).multi_exists(id) && token_ids@.len() == amounts@.len()
                && mt_batch_mint(
                mt_map(old(self).multi_at(id).balances@),
                to,
                token_ids@,
                amounts@,
            ) is Some,
            r matches Err(e) ==> *final(self) == *old(self) && e == (
            if !old(self).multi_exists(id) {
                TokenError::UnknownToken
            } else if token_ids@.len() != amounts@.len() {
                TokenError::BadArgument
            } else {
                TokenError::ArithmeticError
            }),
            r is Ok ==> {
                &&& multi_frame(*old(self), *final(self), id)
                &&& (mt_batch_mint(
                    mt_map(old(self).multi_at(id).balances@),
                    to,
                    token_ids@,
                    amounts@,
                ) matches Some(m2) && mt_map(final(self).multi_at(id).balances@) == m2)
                &&& mt_operators_unchanged(*old(self), *final(self), id)
                &&& final(self).events@.len() == old(self).events@.len() + 1
                &&& old(self).events@.is_prefix_of(final(self).events@)
                &&& (final(self).events@.last() matches Event::MultiTransferBatch {
                    id: eid,
                    operator: eop,
                    from: ef,
                    to: et,
                    items: eitems,
                    amounts: eamounts,
                } && eid == id && eop == to && ef == None::<AccountId> && et == Some(to) && eitems@
                    == token_ids@ && eamounts@ == amounts@)
            },
    {
        if id == 0 || (id as usize) > self.multi.len() {
            return Err(TokenError::UnknownToken);
        }
        let idx = (id - 1) as usize;
        proof {
            assert(multi_token_wf(old(self).multi@[idx as int]));
        }
        if token_ids.len() != amounts.len() {
            return Err(TokenError::BadArgument);
        }
        let mut scratch = copy_vec(&self.multi[idx].balances);
        let ghost m0 = mt_map(scratch@);
        let n = token_ids.len();
        let mut k: usize = 0;
        proof {
            assert(token_ids@.skip(0) =~= token_ids@);
            assert(amounts@.skip(0) =~= amounts@);
        }
        while k < n
            invariant
                *self == *old(self),
                n == token_ids@.len(),
                amounts@.len() == n,
                k <= n,
                unique_cells(scratch@),
                mt_batch_mint(m0, to, token_ids@, amounts@) == mt_batch_mint(
                    mt_map(scratch@),
                    to,
                    token_ids@.skip(k as int),
                    amounts@.skip(k as int),
                ),
            decreases n - k,
        {
            let ghost mcur = mt_map(scratch@);
            let ghost its = token_ids@.skip(k as int);
            let ghost ams = amounts@.skip(k as int);
            proof {
                assert(its[0] == token_ids@[k as int]);
                assert(ams[0] == amounts@[k as int]);
                assert(its.drop_first() =~= token_ids@.skip(k as int + 1));
                assert(ams.drop_first() =~= amounts@.skip(k as int + 1));
            }
            match apply_cell_mint(&mut scratch, to, token_ids[k], amounts[k]) {
                Ok(()) => {
                    k = k + 1;
                },
                Err(e) => {
                    proof {
                        assert(mt_batch_mint(mcur, to, its, ams) is None);
                    }
                    return Err(e);
                },
            }
        }
        proof {
            assert(token_ids@.skip(n as int).len() == 0);
            assert(mt_batch_mint(
                mt_map(scratch@),
                to,
                token_ids@.skip(n as int),
                amounts@.skip(n as int),
            ) == Some(mt_map(scratch@)));
        }
        let mut t = self.multi.remove(idx);
        t.balances = scratch;
        self.multi.insert(idx, t);
        self.events.push(
            Event::MultiTransferBatch {
                id,
                operator: to,
                from: None,
                to: Some(to),
                items: token_ids,
                amounts,
            },
        );
        proof {
            assert(self.multi@ =~= old(self).multi@.update(idx as int, self.multi@[idx as int]));
            assert forall|i: int|
                0 <= i < self.multi@.len() implies multi_token_wf(#[trigger] self.multi@[i]) by {
                if i != idx {
                    assert(multi_token_wf(old(self).multi@[i]));
                }
            }
        }
        Ok(())
    }

    /// Burns several (item, amount) pairs from the caller's balances in one
    /// atomic step: if any sub-burn lacks balance, no balance changes and no
    /// event is emitted.
    #[verifier::loop_isolation(false)]
    pub fn multi_burn_batch(
        &mut self,
        caller: AccountId,
        id: u32,
        token_ids: Vec<u32>,
        amounts: Vec<U256>,
    ) -> (r: Result<(), TokenError>)
        requires
            old(self).wf(),
        ensures
            final(self).wf(),
            (r is Ok) <==> old(self).multi_exists(id) && token_ids@.len() == amounts@.len()
                && mt_batch_burn(
                mt_map(old(self).multi_at(id).balances@),
                caller,
                token_ids@,
                amounts@,
            ) is Some,
            r matches Err(e) ==> *final(self) == *old(self) && e == (
            if !old(self).multi_exists(id) {
                TokenError::UnknownToken
            } else if token_ids@.len() != amounts@.len() {
                TokenError::BadArgument
            } else {
                TokenError::InsufficientBalance
            }),
            r is Ok ==> {
                &&& multi_frame(*old(self), *final(self), id)
                &&& (mt_batch_burn(
                    mt_map(old(self).multi_at(id).balances@),
                    caller,
                    token_ids@,
                    amounts@,
                ) matches Some(m2) && mt_map(final(self).multi_at(id).balances@) == m2)
                &&& mt_operators_unchanged(*old(self), *final(self), id)
                &&& final(self).events@.len() == old(self).events@.len() + 1
                &&& old(self).events@.is_prefix_of(final(self).events@)
                &&& (final(self).events@.last() matches Event::MultiTransferBatch {
                    id: eid,
                    operator: eop,
                    from: ef,
                    to: et,
                    items: eitems,
                    amounts: eamounts,
                } && eid == id && eop == caller && ef == Some(caller) && et == None::<AccountId>
                    && eitems@ == token_ids@ && eamounts@ == amounts@)
            },
    {
        if id == 0 || (id as usize) > self.multi.len() {
            return Err(TokenError::UnknownToken);
        }
        let idx = (id - 1) as usize;
        proof {
            assert(multi_token_wf(old(self).multi@[idx as int]));
        }
        if token_ids.len() != amounts.len() {
            return Err(TokenError::BadArgument);
        }
        let mut scratch = copy_vec(&self.multi[idx].balances);
        let ghost m0 = mt_map(scratch@);
        let n = token_ids.len();
        let mut k: usize = 0;
        proof {
            assert(token_ids@.skip(0) =~= token_ids@);
            assert(amounts@.skip(0) =~= amounts@);
        }
        while k < n
            invariant
                *self == *old(self),
                n == token_ids@.len(),
                amounts@.len() == n,
                k <= n,
                unique_cells(scratch@),
                mt_batch_burn(m0, caller, token_ids@, amounts@) == mt_batch_burn(
                    mt_map(scratch@),
                    caller,
                    token_ids@.skip(k as int),
                    amounts@.skip(k as int),
                ),
            decreases n - k,
        {
            let ghost mcur = mt_map(scratch@);
            let ghost its = token_ids@.skip(k as int);
            let ghost ams = amounts@.skip(k as int);
            proof {
                assert(its[0] == token_ids@[k as int]);
                assert(ams[0] == amounts@[k as int]);
                assert(its.drop_first() =~= token_ids@.skip(k as int + 1));
                assert(ams.drop_first() =~= amounts@.skip(k as int + 1));
            }
            match apply_cell_burn(&mut scratch, caller, token_ids[k], amounts[k]) {
                Ok(()) => {
                    k = k + 1;
                },
                Err(e) => {
                    proof {
                        assert(mt_batch_burn(mcur, caller, its, ams) is None);
                    }
                    return Err(e);
                },
            }
        }
        proof {
            assert(token_ids@.skip(n as int).len() == 0);
            assert(mt_batch_burn(
                mt_map(scratch@),
                caller,
                token_ids@.skip(n as int),
                amounts@.skip(n as int),
            ) == Some(mt_map(scratch@)));
        }
        let mut t = self.multi.remove(idx);
        t.balances = scratch;
        self.multi.insert(idx, t);
        self.events.push(
            Event::MultiTransferBatch {
                id,
                operator: caller,
                from: Some(caller),
                to: None,
                items: token_ids,
                amounts,
            },
        );
        proof {
            assert(self.multi@ =~= old(self).multi@.update(idx as int, self.multi@[idx as int]));
            assert forall|i: int|
                0 <= i < self.multi@.len() implies multi_token_wf(#[trigger] self.multi@[i]) by {
                if i != idx {
                    assert(multi_token_wf(old(self).multi@[i]));
                }
            }
        }
        Ok(())
    }
}

} // verus!
