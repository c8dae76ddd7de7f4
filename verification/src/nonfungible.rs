//! The non-fungible registry: per-token item owners, per-item approvals and
//! operator approvals. Each item is owned by at most one account.

use vstd::prelude::*;
use crate::account::AccountId;
use crate::engine::TokenEngine;
use crate::errors::TokenError;
use crate::events::Event;
use crate::operators::{OperatorEntry, unique_operators, set_operator, has_operator};

verus! {

/// One owned item in one non-fungible token.
#[derive(Clone, Copy, PartialEq, Eq, Structural, Debug)]
pub struct NftItemEntry {
    pub item: u32,
    pub owner: AccountId,
}

/// One per-item approval in one non-fungible token.
#[derive(Clone, Copy, PartialEq, Eq, Structural, Debug)]
pub struct NftApprovalEntry {
    pub item: u32,
    pub approved: AccountId,
}

/// One registered non-fungible token.
#[derive(Debug)]
pub struct NonFungibleToken {
    pub name: Vec<u8>,
    pub symbol: Vec<u8>,
    pub base_uri: Vec<u8>,
    pub items: Vec<NftItemEntry>,
    pub approvals: Vec<NftApprovalEntry>,
    pub operators: Vec<OperatorEntry>,
}

/// The owner of `item`, or `None` when the item is not minted.
pub open spec fn owner_of(s: Seq<NftItemEntry>, item: u32) -> Option<AccountId>
    decreases s.len(),
{
    if s.len() == 0 {
        None
    } else if s.last().item == item {
        Some(s.last().owner)
    } else {
        owner_of(s.drop_last(), item)
    }
}

/// The approved account of `item`, or `None`.
pub open spec fn approval_of(s: Seq<NftApprovalEntry>, item: u32) -> Option<AccountId>
    decreases s.len(),
{
    if s.len() == 0 {
        None
    } else if s.last().item == item {
        Some(s.last().approved)
    } else {
        approval_of(s.drop_last(), item)
    }
}

/// No item owns two entries: ownership is a partial function.
pub open spec fn unique_items(s: Seq<NftItemEntry>) -> bool {
    forall|i: int, j: int| 0 <= i < j < s.len() ==> s[i].item != s[j].item
}

/// No item owns two approval entries.
pub open spec fn unique_approvals(s: Seq<NftApprovalEntry>) -> bool {
    forall|i: int, j: int| 0 <= i < j < s.len() ==> s[i].item != s[j].item
}

/// A token's internal invariant: unique keys in every table.
pub open spec fn nft_token_wf(t: NonFungibleToken) -> bool {
    &&& unique_items(t.items@)
    &&& unique_approvals(t.approvals@)
    &&& unique_operators(t.operators@)
}

/// Under unique items, the entry at `i` gives the owner of its item.
pub proof fn lemma_owner_match(s: Seq<NftItemEntry>, i: int)
    requires
        unique_items(s),
        0 <= i < s.len(),
    ensures
        owner_of(s, s[i].item) == Some(s[i].owner),
    decreases s.len(),
{
    if i < s.len() - 1 {
        assert(s.drop_last()[i] == s[i]);
        lemma_owner_match(s.drop_last(), i);
    }
}

/// An item with no entry has no owner.
pub proof fn lemma_owner_absent(s: Seq<NftItemEntry>, item: u32)
    requires
        forall|k: int| 0 <= k < s.len() ==> s[k].item != item,
    ensures
        owner_of(s, item) is None,
    decreases s.len(),
{
    if s.len() > 0 {
        lemma_owner_absent(s.drop_last(), item);
    }
}

/// Replacing the entry at `i` by one for the same item moves that item's
/// owner and keeps every other item's owner.
pub proof fn lemma_owner_set_at(s: Seq<NftItemEntry>, i: int, e: NftItemEntry)
    requires
        unique_items(s),
        0 <= i < s.len(),
        e.item == s[i].item,
    ensures
        unique_items(s.update(i, e)),
        owner_of(s.update(i, e), e.item) == Some(e.owner),
        forall|it: u32| it != e.item ==> owner_of(s.update(i, e), it) == owner_of(s, it),
    decreases s.len(),
{
    let s2 = s.update(i, e);
    assert(unique_items(s2));
    if i == s.len() - 1 {
        assert(s2.drop_last() =~= s.drop_last());
        assert(s2.last() == e);
        assert forall|it: u32| it != e.item implies owner_of(s2, it) == owner_of(s, it) by {
            assert(owner_of(s2, it) == owner_of(s2.drop_last(), it));
            assert(owner_of(s, it) == owner_of(s.drop_last(), it));
        }
    } else {
        assert(s2.last() == s.last());
        assert(s2.drop_last() =~= s.drop_last().update(i, e));
        assert(s.drop_last()[i] == s[i]);
        lemma_owner_set_at(s.drop_last(), i, e);
        lemma_owner_match(s, i);
        lemma_owner_match(s2, i);
        assert forall|it: u32| it != e.item implies owner_of(s2, it) == owner_of(s, it) by {
            if s.last().item != it {
                assert(owner_of(s2, it) == owner_of(s2.drop_last(), it));
                assert(owner_of(s, it) == owner_of(s.drop_last(), it));
                assert(owner_of(s.drop_last().update(i, e), it) == owner_of(s.drop_last(), it));
            }
        }
    }
}

/// Appending an entry for a fresh item gives it that owner and keeps every
/// other item's owner.
pub proof fn lemma_owner_push_fresh(s: Seq<NftItemEntry>, e: NftItemEntry)
    requires
        unique_items(s),
        forall|k: int| 0 <= k < s.len() ==> s[k].item != e.item,
    ensures
        unique_items(s.push(e)),
        owner_of(s.push(e), e.item) == Some(e.owner),
        forall|it: u32| it != e.item ==> owner_of(s.push(e), it) == owner_of(s, it),
{
    let s2 = s.push(e);
    assert(s2.drop_last() =~= s);
    assert(forall|k: int| 0 <= k < s.len() ==> s2[k] == s[k]);
}

/// Removing the entry at `i` unmints its item and keeps every other item's
/// owner.
pub proof fn lemma_owner_remove_at(s: Seq<NftItemEntry>, i: int)
    requires
        unique_items(s),
        0 <= i < s.len(),
    ensures
        unique_items(s.remove(i)),
        owner_of(s.remove(i), s[i].item) is None,
        forall|it: u32| it != s[i].item ==> owner_of(s.remove(i), it) == owner_of(s, it),
    decreases s.len(),
{
    let s2 = s.remove(i);
    assert forall|i2: int, j2: int| 0 <= i2 < j2 < s2.len() implies s2[i2].item != s2[j2].item by {
        let oi = if i2 < i { i2 } else { i2 + 1 };
        let oj = if j2 < i { j2 } else { j2 + 1 };
        assert(s2[i2] == s[oi] && s2[j2] == s[oj]);
    }
    assert(owner_of(s2, s[i].item) is None) by {
        assert(forall|k: int| 0 <= k < s2.len() ==> s2[k].item != s[i].item) by {
            assert forall|k: int| 0 <= k < s2.len() implies s2[k].item != s[i].item by {
                let ok = if k < i { k } else { k + 1 };
                assert(s2[k] == s[ok]);
            }
        }
        lemma_owner_absent(s2, s[i].item);
    }
    if i == s.len() - 1 {
        assert(s2 =~= s.drop_last());
        assert forall|it: u32| it != s[i].item implies owner_of(s2, it) == owner_of(s, it) by {
            assert(owner_of(s, it) == owner_of(s.drop_last(), it));
        }
    } else {
        assert(s2.last() == s.last());
        assert(s2.drop_last() =~= s.drop_last().remove(i));
        assert(s.drop_last()[i] == s[i]);
        lemma_owner_remove_at(s.drop_last(), i);
        assert forall|it: u32| it != s[i].item implies owner_of(s2, it) == owner_of(s, it) by {
            if s.last().item != it {
                assert(owner_of(s2, it) == owner_of(s2.drop_last(), it));
                assert(owner_of(s, it) == owner_of(s.drop_last(), it));
                assert(owner_of(s.drop_last().remove(i), it) == owner_of(s.drop_last(), it));
            }
        }
    }
}

/// Under unique approvals, the entry at `i` gives the approval of its item.
pub proof fn lemma_approval_match(s: Seq<NftApprovalEntry>, i: int)
    requires
        unique_approvals(s),
        0 <= i < s.len(),
    ensures
        approval_of(s, s[i].item) == Some(s[i].approved),
    decreases s.len(),
{
    if i < s.len() - 1 {
        assert(s.drop_last()[i] == s[i]);
        lemma_approval_match(s.drop_last(), i);
    }
}

/// An item with no approval entry has no approval.
pub proof fn lemma_approval_absent(s: Seq<NftApprovalEntry>, item: u32)
    requires
        forall|k: int| 0 <= k < s.len() ==> s[k].item != item,
    ensures
        approval_of(s, item) is None,
    decreases s.len(),
{
    if s.len() > 0 {
        lemma_approval_absent(s.drop_last(), item);
    }
}

/// Replacing the approval entry at `i` by one for the same item moves that
/// item's approval and keeps every other approval.
pub proof fn lemma_approval_set_at(s: Seq<NftApprovalEntry>, i: int, e: NftApprovalEntry)
    requires
        unique_approvals(s),
        0 <= i < s.len(),
        e.item == s[i].item,
    ensures
        unique_approvals(s.update(i, e)),
        approval_of(s.update(i, e), e.item) == Some(e.approved),
        forall|it: u32| it != e.item ==> approval_of(s.update(i, e), it) == approval_of(s, it),
    decreases s.len(),
{
    let s2 = s.update(i, e);
    assert(unique_approvals(s2));
    if i == s.len() - 1 {
        assert(s2.drop_last() =~= s.drop_last());
        assert(s2.last() == e);
        assert forall|it: u32| it != e.item implies approval_of(s2, it) == approval_of(s, it) by {
            assert(approval_of(s2, it) == approval_of(s2.drop_last(), it));
            assert(approval_of(s, it) == approval_of(s.drop_last(), it));
        }
    } else {
        assert(s2.last() == s.last());
        assert(s2.drop_last() =~= s.drop_last().update(i, e));
        assert(s.drop_last()[i] == s[i]);
        lemma_approval_set_at(s.drop_last(), i, e);
        lemma_approval_match(s, i);
        lemma_approval_match(s2, i);
        assert forall|it: u32| it != e.item implies approval_of(s2, it) == approval_of(s, it) by {
            if s.last().item != it {
                assert(approval_of(s2, it) == approval_of(s2.drop_last(), it));
                assert(approval_of(s, it) == approval_of(s.drop_last(), it));
                assert(approval_of(s.drop_last().update(i, e), it) == approval_of(
                    s.drop_last(),
                    it,
                ));
            }
        }
    }
}

/// Appending an approval entry for a fresh item gives it that approval and
/// keeps every other approval.
pub proof fn lemma_approval_push_fresh(s: Seq<NftApprovalEntry>, e: NftApprovalEntry)
    requires
        unique_approvals(s),
        forall|k: int| 0 <= k < s.len() ==> s[k].item != e.item,
    ensures
        unique_approvals(s.push(e)),
        approval_of(s.push(e), e.item) == Some(e.approved),
        forall|it: u32| it != e.item ==> approval_of(s.push(e), it) == approval_of(s, it),
{
    let s2 = s.push(e);
    assert(s2.drop_last() =~= s);
    assert(forall|k: int| 0 <= k < s.len() ==> s2[k] == s[k]);
}

/// Removing the approval entry at `i` clears its item's approval and keeps
/// every other approval.
pub proof fn lemma_approval_remove_at(s: Seq<NftApprovalEntry>, i: int)
    requires
        unique_approvals(s),
        0 <= i < s.len(),
    ensures
        unique_approvals(s.remove(i)),
        approval_of(s.remove(i), s[i].item) is None,
        forall|it: u32| it != s[i].item ==> approval_of(s.remove(i), it) == approval_of(s, it),
    decreases s.len(),
{
    let s2 = s.remove(i);
    assert forall|i2: int, j2: int| 0 <= i2 < j2 < s2.len() implies s2[i2].item != s2[j2].item by {
        let oi = if i2 < i { i2 } else { i2 + 1 };
        let oj = if j2 < i { j2 } else { j2 + 1 };
        assert(s2[i2] == s[oi] && s2[j2] == s[oj]);
    }
    assert(approval_of(s2, s[i].item) is None) by {
        assert forall|k: int| 0 <= k < s2.len() implies s2[k].item != s[i].item by {
            let ok = if k < i { k } else { k + 1 };
            assert(s2[k] == s[ok]);
        }
        lemma_approval_absent(s2, s[i].item);
    }
    if i == s.len() - 1 {
        assert(s2 =~= s.drop_last());
        assert forall|it: u32| it != s[i].item implies approval_of(s2, it) == approval_of(s, it) by {
            assert(approval_of(s, it) == approval_of(s.drop_last(), it));
        }
    } else {
        assert(s2.last() == s.last());
        assert(s2.drop_last() =~= s.drop_last().remove(i));
        assert(s.drop_last()[i] == s[i]);
        lemma_approval_remove_at(s.drop_last(), i);
        assert forall|it: u32| it != s[i].item implies approval_of(s2, it) == approval_of(s, it) by {
            if s.last().item != it {
                assert(approval_of(s2, it) == approval_of(s2.drop_last(), it));
                assert(approval_of(s, it) == approval_of(s.drop_last(), it));
                assert(approval_of(s.drop_last().remove(i), it) == approval_of(s.drop_last(), it));
            }
        }
    }
}

/// Finds the index of the item's owner entry, if any.
pub fn find_item(v: &Vec<NftItemEntry>, item: u32) -> (r: Option<usize>)
    ensures
        r matches Some(i) ==> i < v@.len() && v@[i as int].item == item,
        r is None ==> forall|k: int| 0 <= k < v@.len() ==> v@[k].item != item,
{
    let mut k: usize = 0;
    while k < v.len()
        invariant
            k <= v@.len(),
            forall|j: int| 0 <= j < k ==> v@[j].item != item,
        decreases v@.len() - k,
    {
        if v[k].item == item {
            return Some(k);
        }
        k = k + 1;
    }
    None
}

/// Finds the index of the item's approval entry, if any.
pub fn find_approval(v: &Vec<NftApprovalEntry>, item: u32) -> (r: Option<usize>)
    ensures
        r matches Some(i) ==> i < v@.len() && v@[i as int].item == item,
        r is None ==> forall|k: int| 0 <= k < v@.len() ==> v@[k].item != item,
{
    let mut k: usize = 0;
    while k < v.len()
        invariant
            k <= v@.len(),
            forall|j: int| 0 <= j < k ==> v@[j].item != item,
        decreases v@.len() - k,
    {
        if v[k].item == item {
            return Some(k);
        }
        k = k + 1;
    }
    None
}

/// Reads the owner of `item`.
pub fn get_owner(v: &Vec<NftItemEntry>, item: u32) -> (r: Option<AccountId>)
    requires
        unique_items(v@),
    ensures
        r == owner_of(v@, item),
{
    match find_item(v, item) {
        Some(i) => {
            proof {
                lemma_owner_match(v@, i as int);
            }
            Some(v[i].owner)
        },
        None => {
            proof {
                lemma_owner_absent(v@, item);
            }
            None
        },
    }
}

/// Reads the approval of `item`.
pub fn get_approval(v: &Vec<NftApprovalEntry>, item: u32) -> (r: Option<AccountId>)
    requires
        unique_approvals(v@),
    ensures
        r == approval_of(v@, item),
{
    match find_approval(v, item) {
        Some(i) => {
            proof {
                lemma_approval_match(v@, i as int);
            }
            Some(v[i].approved)
        },
        None => {
            proof {
                lemma_approval_absent(v@, item);
            }
            None
        },
    }
}

/// Sets the approval of `item` to `to`, keeping every other approval.
pub fn set_approval(v: &mut Vec<NftApprovalEntry>, item: u32, to: AccountId)
    requires
        unique_approvals(old(v)@),
    ensures
        unique_approvals(final(v)@),
        approval_of(final(v)@, item) == Some(to),
        forall|it: u32| it != item ==> approval_of(final(v)@, it) == approval_of(old(v)@, it),
{
    let ghost s = v@;
    let e = NftApprovalEntry { item, approved: to };
    match find_approval(v, item) {
        Some(i) => {
            v.remove(i);
            v.insert(i, e);
            proof {
                assert(v@ =~= s.update(i as int, e));
                lemma_approval_set_at(s, i as int, e);
            }
        },
        None => {
            v.push(e);
            proof {
                lemma_approval_push_fresh(s, e);
            }
        },
    }
}

/// Clears the approval of `item`, keeping every other approval.
pub fn clear_approval(v: &mut Vec<NftApprovalEntry>, item: u32)
    requires
        unique_approvals(old(v)@),
    ensures
        unique_approvals(final(v)@),
        approval_of(final(v)@, item) is None,
        forall|it: u32| it != item ==> approval_of(final(v)@, it) == approval_of(old(v)@, it),
{
    let ghost s = v@;
    match find_approval(v, item) {
        Some(i) => {
            v.remove(i);
            proof {
                lemma_approval_remove_at(s, i as int);
            }
        },
        None => {
            proof {
                lemma_approval_absent(s, item);
            }
        },
    }
}

/// Sets the owner of an already-minted `item` to `owner`, keeping every
/// other item's owner.
pub fn set_owner(v: &mut Vec<NftItemEntry>, item: u32, owner: AccountId)
    requires
        unique_items(old(v)@),
        owner_of(old(v)@, item) is Some,
    ensures
        unique_items(final(v)@),
        owner_of(final(v)@, item) == Some(owner),
        forall|it: u32| it != item ==> owner_of(final(v)@, it) == owner_of(old(v)@, it),
{
    let ghost s = v@;
    let e = NftItemEntry { item, owner };
    match find_item(v, item) {
        Some(i) => {
            v.remove(i);
            v.insert(i, e);
            proof {
                assert(v@ =~= s.update(i as int, e));
                lemma_owner_set_at(s, i as int, e);
            }
        },
        None => {
            proof {
                lemma_owner_absent(s, item);
            }
            vstd::pervasive::unreached()
        },
    }
}

/// Mints `item` to `owner`; the item must not yet exist.
pub fn insert_item(v: &mut Vec<NftItemEntry>, item: u32, owner: AccountId)
    requires
        unique_items(old(v)@),
        owner_of(old(v)@, item) is None,
    ensures
        unique_items(final(v)@),
        owner_of(final(v)@, item) == Some(owner),
        forall|it: u32| it != item ==> owner_of(final(v)@, it) == owner_of(old(v)@, it),
{
    let ghost s = v@;
    let e = NftItemEntry { item, owner };
    proof {
        assert forall|k: int| 0 <= k < s.len() implies s[k].item != item by {
            if s[k].item == item {
                lemma_owner_match(s, k);
            }
        }
    }
    v.push(e);
    proof {
        lemma_owner_push_fresh(s, e);
    }
}

/// Burns an already-minted `item`, keeping every other item's owner.
pub fn remove_item(v: &mut Vec<NftItemEntry>, item: u32)
    requires
        unique_items(old(v)@),
        owner_of(old(v)@, item) is Some,
    ensures
        unique_items(final(v)@),
        owner_of(final(v)@, item) is None,
        forall|it: u32| it != item ==> owner_of(final(v)@, it) == owner_of(old(v)@, it),
{
    let ghost s = v@;
    match find_item(v, item) {
        Some(i) => {
            v.remove(i);
            proof {
                lemma_owner_remove_at(s, i as int);
            }
        },
        None => {
            proof {
                lemma_owner_absent(s, item);
            }
            vstd::pervasive::unreached()
        },
    }
}

/// A non-fungible operation touched only token `id` of its registry and
/// kept its metadata.
pub open spec fn nft_frame(pre: TokenEngine, post: TokenEngine, id: u32) -> bool {
    &&& pre.nft_exists(id)
    &&& post.nonfungible@.len() == pre.nonfungible@.len()
    &&& forall|j: int|
        0 <= j < pre.nonfungible@.len() && j != id - 1 ==> post.nonfungible@[j]
            == pre.nonfungible@[j]
    &&& post.fungible == pre.fungible
    &&& post.multi == pre.multi
    &&& post.nft_at(id).name == pre.nft_at(id).name
    &&& post.nft_at(id).symbol == pre.nft_at(id).symbol
    &&& post.nft_at(id).base_uri == pre.nft_at(id).base_uri
}

/// No item owner of token `id` changed.
pub open spec fn nft_owners_unchanged(pre: TokenEngine, post: TokenEngine, id: u32) -> bool {
    forall|it: u32| post.nft_owner(id, it) == pre.nft_owner(id, it)
}

/// No per-item approval of token `id` changed.
pub open spec fn nft_approvals_unchanged(pre: TokenEngine, post: TokenEngine, id: u32) -> bool {
    forall|it: u32| post.nft_approval(id, it) == pre.nft_approval(id, it)
}

/// No operator approval of token `id` changed.
pub open spec fn nft_operators_unchanged(pre: TokenEngine, post: TokenEngine, id: u32) -> bool {
    forall|o: AccountId, p: AccountId| post.nft_operator(id, o, p) == pre.nft_operator(id, o, p)
}

/// Whether `caller` may move `item` out of `from`'s ownership: the owner,
/// an operator approved for all of the owner's items, or the account
/// approved for this item.
pub open spec fn nft_may_move(
    pre: TokenEngine,
    id: u32,
    from: AccountId,
    caller: AccountId,
    item: u32,
) -> bool {
    ||| caller == from
    ||| pre.nft_operator(id, from, caller)
    ||| pre.nft_approval(id, item) == Some(caller)
}

/// The state after a successful non-fungible `create_token`.
pub open spec fn nft_create_post(
    pre: TokenEngine,
    post: TokenEngine,
    id: u32,
    name: Seq<u8>,
    symbol: Seq<u8>,
    base_uri: Seq<u8>,
) -> bool {
    &&& id == pre.nonfungible@.len() + 1
    &&& post.nonfungible@.len() == pre.nonfungible@.len() + 1
    &&& forall|j: int| 0 <= j < pre.nonfungible@.len() ==> post.nonfungible@[j] == pre.nonfungible@[j]
    &&& post.nft_at(id).name@ == name
    &&& post.nft_at(id).symbol@ == symbol
    &&& post.nft_at(id).base_uri@ == base_uri
    &&& post.nft_at(id).items@.len() == 0
    &&& post.nft_at(id).approvals@.len() == 0
    &&& post.nft_at(id).operators@.len() == 0
    &&& post.fungible == pre.fungible
    &&& post.multi == pre.multi
    &&& post.events@ == pre.events@.push(Event::NonFungibleTokenCreated { id })
}

impl TokenEngine {
    /// Registers a new non-fungible token and allocates the next identifier.
    pub fn nft_create(
        &mut self,
        name: Vec<u8>,
        symbol: Vec<u8>,
        base_uri: Vec<u8>,
    ) -> (r: Result<u32, TokenError>)
        requires
            old(self).wf(),
        ensures
            final(self).wf(),
            (r is Ok) <==> old(self).nft_count() < u32::MAX,
            r matches Err(e) ==> *final(self) == *old(self) && e == TokenError::FailCreateToken,
            r matches Ok(id) ==> nft_create_post(
                *old(self),
                *final(self),
                id,
                name@,
                symbol@,
                base_uri@,
            ),
    {
        if self.nonfungible.len() >= u32::MAX as usize {
            return Err(TokenError::FailCreateToken);
        }
        let id: u32 = (self.nonfungible.len() + 1) as u32;
        let t = NonFungibleToken {
            name,
            symbol,
            base_uri,
            items: Vec::new(),
            approvals: Vec::new(),
            operators: Vec::new(),
        };
        self.nonfungible.push(t);
        self.events.push(Event::NonFungibleTokenCreated { id });
        proof {
            assert forall|i: int|
                0 <= i < self.nonfungible@.len() implies nft_token_wf(
                #[trigger] self.nonfungible@[i],
            ) by {
                if i < self.nonfungible@.len() - 1 {
                    assert(nft_token_wf(old(self).nonfungible@[i]));
                }
            }
        }
        Ok(id)
    }

    /// Approves `to` for the single `item`, which the caller must own.
    pub fn nft_approve(
        &mut self,
        caller: AccountId,
        id: u32,
        to: AccountId,
        item: u32,
    ) -> (r: Result<(), TokenError>)
        requires
            old(self).wf(),
        ensures
            final(self).wf(),
            (r is Ok) <==> old(self).nft_exists(id) && old(self).nft_owner(id, item) == Some(
                caller,
            ),
            r matches Err(e) ==> *final(self) == *old(self) && e == (
            if !old(self).nft_exists(id) {
                TokenError::UnknownToken
            } else {
                TokenError::Unauthorized
            }),
            r is Ok ==> {
                &&& nft_frame(*old(self), *final(self), id)
                &&& nft_owners_unchanged(*old(self), *final(self), id)
                &&& final(self).nft_approval(id, item) == Some(to)
                &&& forall|it: u32|
                    it != item ==> final(self).nft_approval(id, it) == old(self).nft_approval(
                        id,
                        it,
                    )
                &&& nft_operators_unchanged(*old(self), *final(self), id)
                &&& final(self).events@ == old(self).events@.push(
                    Event::NonFungibleApproval { id, owner: caller, approved: to, item },
                )
            },
    {
        if id == 0 || (id as usize) > self.nonfungible.len() {
            return Err(TokenError::UnknownToken);
        }
        let idx = (id - 1) as usize;
        proof {
            assert(nft_token_wf(old(self).nonfungible@[idx as int]));
        }
        let owner = get_owner(&self.nonfungible[idx].items, item);
        let owned_by_caller = match owner {
            Some(a) => a == caller,
            None => false,
        };
        if !owned_by_caller {
            return Err(TokenError::Unauthorized);
        }
        let mut t = self.nonfungible.remove(idx);
        set_approval(&mut t.approvals, item, to);
        self.nonfungible.insert(idx, t);
        self.events.push(Event::NonFungibleApproval { id, owner: caller, approved: to, item });
        proof {
            assert(self.nonfungible@ =~= old(self).nonfungible@.update(
                idx as int,
                self.nonfungible@[idx as int],
            ));
            assert forall|i: int|
                0 <= i < self.nonfungible@.len() implies nft_token_wf(
                #[trigger] self.nonfungible@[i],
            ) by {
                if i != idx {
                    assert(nft_token_wf(old(self).nonfungible@[i]));
                }
            }
        }
        Ok(())
    }

    /// Grants or revokes `operator` for all of the caller's items.
    pub fn nft_set_approval_for_all(
        &mut self,
        caller: AccountId,
        id: u32,
        operator: AccountId,
        approved: bool,
    ) -> (r: Result<(), TokenError>)
        requires
            old(self).wf(),
        ensures
            final(self).wf(),
            (r is Ok) <==> old(self).nft_exists(id),
            r matches Err(e) ==> *final(self) == *old(self) && e == TokenError::UnknownToken,
            r is Ok ==> {
                &&& nft_frame(*old(self), *final(self), id)
                &&& nft_owners_unchanged(*old(self), *final(self), id)
                &&& nft_approvals_unchanged(*old(self), *final(self), id)
                &&& final(self).nft_operator(id, caller, operator) == approved
                &&& forall|o: AccountId, p: AccountId|
                    !(o == caller && p == operator) ==> final(self).nft_operator(id, o, p) == old(
                        self,
                    ).nft_operator(id, o, p)
                &&& final(self).events@ == old(self).events@.push(
                    Event::NonFungibleApprovalForAll { id, owner: caller, operator, approved },
                )
            },
    {
        if id == 0 || (id as usize) > self.nonfungible.len() {
            return Err(TokenError::UnknownToken);
        }
        let idx = (id - 1) as usize;
        proof {
            assert(nft_token_wf(old(self).nonfungible@[idx as int]));
        }
        let mut t = self.nonfungible.remove(idx);
        set_operator(&mut t.operators, caller, operator, approved);
        self.nonfungible.insert(idx, t);
        self.events.push(Event::NonFungibleApprovalForAll { id, owner: caller, operator, approved });
        proof {
            assert(self.nonfungible@ =~= old(self).nonfungible@.update(
                idx as int,
                self.nonfungible@[idx as int],
            ));
            assert forall|i: int|
                0 <= i < self.nonfungible@.len() implies nft_token_wf(
                #[trigger] self.nonfungible@[i],
            ) by {
                if i != idx {
                    assert(nft_token_wf(old(self).nonfungible@[i]));
                }
            }
        }
        Ok(())
    }

    /// Moves `item` from `from` to `to` on the caller's authority, and
    /// clears the item's single-account approval.
    pub fn nft_transfer_from(
        &mut self,
        caller: AccountId,
        id: u32,
        from: AccountId,
        to: AccountId,
        item: u32,
    ) -> (r: Result<(), TokenError>)
        requires
            old(self).wf(),
        ensures
            final(self).wf(),
            (r is Ok) <==> old(self).nft_exists(id) && old(self).nft_owner(id, item) == Some(from)
                && nft_may_move(*old(self), id, from, caller, item),
            r matches Err(e) ==> *final(self) == *old(self) && e == (
            if !old(self).nft_exists(id) {
                TokenError::UnknownToken
            } else {
                TokenError::Unauthorized
            }),
            r is Ok ==> {
                &&& nft_frame(*old(self), *final(self), id)
                &&& final(self).nft_owner(id, item) == Some(to)
                &&& forall|it: u32|
                    it != item ==> final(self).nft_owner(id, it) == old(self).nft_owner(id, it)
                &&& final(self).nft_approval(id, item) is None
                &&& forall|it: u32|
                    it != item ==> final(self).nft_approval(id, it) == old(self).nft_approval(
                        id,
                        it,
                    )
                &&& nft_operators_unchanged(*old(self), *final(self), id)
                &&& final(self).events@ == old(self).events@.push(
                    Event::NonFungibleTransfer { id, from: Some(from), to: Some(to), item },
                )
            },
    {
        if id == 0 || (id as usize) > self.nonfungible.len() {
            return Err(TokenError::UnknownToken);
        }
        let idx = (id - 1) as usize;
        proof {
            assert(nft_token_wf(old(self).nonfungible@[idx as int]));
        }
        let owner = get_owner(&self.nonfungible[idx].items, item);
        let owned_by_from = match owner {
            Some(a) => a == from,
            None => false,
        };
        if !owned_by_from {
            return Err(TokenError::Unauthorized);
        }
        let approved = get_approval(&self.nonfungible[idx].approvals, item);
        let approved_caller = match approved {
            Some(a) => a == caller,
            None => false,
        };
        if !(caller == from || has_operator(&self.nonfungible[idx].operators, from, caller)
            || approved_caller) {
            return Err(TokenError::Unauthorized);
        }
        let mut t = self.nonfungible.remove(idx);
        set_owner(&mut t.items, item, to);
        clear_approval(&mut t.approvals, item);
        self.nonfungible.insert(idx, t);
        self.events.push(Event::NonFungibleTransfer { id, from: Some(from), to: Some(to), item });
        proof {
            assert(self.nonfungible@ =~= old(self).nonfungible@.update(
                idx as int,
                self.nonfungible@[idx as int],
            ));
            assert forall|i: int|
                0 <= i < self.nonfungible@.len() implies nft_token_wf(
                #[trigger] self.nonfungible@[i],
            ) by {
                if i != idx {
                    assert(nft_token_wf(old(self).nonfungible@[i]));
                }
            }
        }
        Ok(())
    }

    /// Mints `item` to `to`; the item must not yet exist in token `id`.
    pub fn nft_mint(&mut self, id: u32, to: AccountId, item: u32) -> (r: Result<(), TokenError>)
        requires
            old(self).wf(),
        ensures
            final(self).wf(),
            (r is Ok) <==> old(self).nft_exists(id) && old(self).nft_owner(id, item) is None,
            r matches Err(e) ==> *final(self) == *old(self) && e == (
            if !old(self).nft_exists(id) {
                TokenError::UnknownToken
            } else {
                TokenError::BadArgument
            }),
            r is Ok ==> {
                &&& nft_frame(*old(self), *final(self), id)
                &&& final(self).nft_owner(id, item) == Some(to)
                &&& forall|it: u32|
                    it != item ==> final(self).nft_owner(id, it) == old(self).nft_owner(id, it)
                &&& nft_approvals_unchanged(*old(self), *final(self), id)
                &&& nft_operators_unchanged(*old(self), *final(self), id)
                &&& final(self).events@ == old(self).events@.push(
                    Event::NonFungibleTransfer { id, from: None, to: Some(to), item },
                )
            },
    {
        if id == 0 || (id as usize) > self.nonfungible.len() {
            return Err(TokenError::UnknownToken);
        }
        let idx = (id - 1) as usize;
        proof {
            assert(nft_token_wf(old(self).nonfungible@[idx as int]));
        }
        let owner = get_owner(&self.nonfungible[idx].items, item);
        if owner.is_some() {
            return Err(TokenError::BadArgument);
        }
        let mut t = self.nonfungible.remove(idx);
        insert_item(&mut t.items, item, to);
        self.nonfungible.insert(idx, t);
        self.events.push(Event::NonFungibleTransfer { id, from: None, to: Some(to), item });
        proof {
            assert(self.nonfungible@ =~= old(self).nonfungible@.update(
                idx as int,
                self.nonfungible@[idx as int],
            ));
            assert forall|i: int|
                0 <= i < self.nonfungible@.len() implies nft_token_wf(
                #[trigger] self.nonfungible@[i],
            ) by {
                if i != idx {
                    assert(nft_token_wf(old(self).nonfungible@[i]));
                }
            }
        }
        Ok(())
    }

    /// Burns `item`: removes its owner entry and clears its approval.
    pub fn nft_burn(&mut self, id: u32, item: u32) -> (r: Result<(), TokenError>)
        requires
            old(self).wf(),
        ensures
            final(self).wf(),
            (r is Ok) <==> old(self).nft_exists(id) && old(self).nft_owner(id, item) is Some,
            r matches Err(e) ==> *final(self) == *old(self) && e == TokenError::UnknownToken,
            r is Ok ==> {
                &&& nft_frame(*old(self), *final(self), id)
                &&& final(self).nft_owner(id, item) is None
                &&& forall|it: u32|
                    it != item ==> final(self).nft_owner(id, it) == old(self).nft_owner(id, it)
                &&& final(self).nft_approval(id, item) is None
                &&& forall|it: u32|
                    it != item ==> final(self).nft_approval(id, it) == old(self).nft_approval(
                        id,
                        it,
                    )
                &&& nft_operators_unchanged(*old(self), *final(self), id)
                &&& final(self).events@ == old(self).events@.push(
                    Event::NonFungibleTransfer {
                        id,
                        from: old(self).nft_owner(id, item),
                        to: None,
                        item,
                    },
                )
            },
    {
        if id == 0 || (id as usize) > self.nonfungible.len() {
            return Err(TokenError::UnknownToken);
        }
        let idx = (id - 1) as usize;
        proof {
            assert(nft_token_wf(old(self).nonfungible@[idx as int]));
        }
        let owner = match get_owner(&self.nonfungible[idx].items, item) {
            Some(a) => a,
            None => {
                return Err(TokenError::UnknownToken);
            },
        };
        let mut t = self.nonfungible.remove(idx);
        remove_item(&mut t.items, item);
        clear_approval(&mut t.approvals, item);
        self.nonfungible.insert(idx, t);
        self.events.push(
            Event::NonFungibleTransfer { id, from: Some(owner), to: None, item },
        );
        proof {
            assert(self.nonfungible@ =~= old(self).nonfungible@.update(
                idx as int,
                self.nonfungible@[idx as int],
            ));
            assert forall|i: int|
                0 <= i < self.nonfungible@.len() implies nft_token_wf(
                #[trigger] self.nonfungible@[i],
            ) by {
                if i != idx {
                    assert(nft_token_wf(old(self).nonfungible@[i]));
                }
            }
        }
        Ok(())
    }
}

} // verus!
