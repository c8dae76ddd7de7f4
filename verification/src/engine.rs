//! The token engine: the three registries, the event sink, and the engine's
//! global well-formedness invariant. Registry operations live with their
//! registry's data module; this module holds the state, its accessors, and
//! the engine-wide laws.

use vstd::prelude::*;
use crate::account::AccountId;
use crate::events::Event;
use crate::fungible::{FungibleToken, fungible_token_wf, bal_of, alw_of, sum_balances};
use crate::nonfungible::{NonFungibleToken, nft_token_wf, owner_of, approval_of};
use crate::multi::{MultiToken, multi_token_wf, cell_of};
use crate::operators::operator_set;

verus! {

/// The engine's whole state. Token identifiers are allocated densely from 1
/// in each registry: the token with identifier `id` is the vector element
/// `id - 1`, so allocation is monotonic and gapless and identifiers are
/// never reused.
pub struct TokenEngine {
    pub fungible: Vec<FungibleToken>,
    pub nonfungible: Vec<NonFungibleToken>,
    pub multi: Vec<MultiToken>,
    pub events: Vec<Event>,
}

impl TokenEngine {
    /// Every registered token of every registry satisfies its invariant.
    pub open spec fn wf(self) -> bool {
        &&& forall|i: int|
            0 <= i < self.fungible@.len() ==> fungible_token_wf(#[trigger] self.fungible@[i])
        &&& forall|i: int|
            0 <= i < self.nonfungible@.len() ==> nft_token_wf(#[trigger] self.nonfungible@[i])
        &&& forall|i: int| 0 <= i < self.multi@.len() ==> multi_token_wf(#[trigger] self.multi@[i])
    }

    /// How many fungible tokens have been created.
    pub open spec fn fungible_count(self) -> int {
        self.fungible@.len() as int
    }

    /// Whether `id` names a registered fungible token.
    pub open spec fn fungible_exists(self, id: u32) -> bool {
        1 <= id && id <= self.fungible@.len()
    }

    /// The fungible token registered under `id`.
    pub open spec fn fungible_at(self, id: u32) -> FungibleToken
        recommends
            self.fungible_exists(id),
    {
        self.fungible@[id - 1]
    }

    /// The total supply of fungible token `id` (0 for an unknown token).
    pub open spec fn fun_supply(self, id: u32) -> int {
        if self.fungible_exists(id) {
            self.fungible_at(id).total_supply.val()
        } else {
            0
        }
    }

    /// The balance of `a` in fungible token `id` (0 for an unknown token).
    pub open spec fn fun_balance(self, id: u32, a: AccountId) -> int {
        if self.fungible_exists(id) {
            bal_of(self.fungible_at(id).balances@, a)
        } else {
            0
        }
    }

    /// The allowance of `(owner, spender)` in fungible token `id`.
    pub open spec fn fun_allowance(self, id: u32, owner: AccountId, spender: AccountId) -> int {
        if self.fungible_exists(id) {
            alw_of(self.fungible_at(id).allowances@, owner, spender)
        } else {
            0
        }
    }

    /// How many non-fungible tokens have been created.
    pub open spec fn nft_count(self) -> int {
        self.nonfungible@.len() as int
    }

    /// Whether `id` names a registered non-fungible token.
    pub open spec fn nft_exists(self, id: u32) -> bool {
        1 <= id && id <= self.nonfungible@.len()
    }

    /// The non-fungible token registered under `id`.
    pub open spec fn nft_at(self, id: u32) -> NonFungibleToken
        recommends
            self.nft_exists(id),
    {
        self.nonfungible@[id - 1]
    }

    /// The owner of `item` in non-fungible token `id`.
    pub open spec fn nft_owner(self, id: u32, item: u32) -> Option<AccountId> {
        if self.nft_exists(id) {
            owner_of(self.nft_at(id).items@, item)
        } else {
            None
        }
    }

    /// The approved account of `item` in non-fungible token `id`.
    pub open spec fn nft_approval(self, id: u32, item: u32) -> Option<AccountId> {
        if self.nft_exists(id) {
            approval_of(self.nft_at(id).approvals@, item)
        } else {
            None
        }
    }

    /// Whether `operator` is approved for all of `owner`'s items in
    /// non-fungible token `id`.
    pub open spec fn nft_operator(self, id: u32, owner: AccountId, operator: AccountId) -> bool {
        self.nft_exists(id) && operator_set(self.nft_at(id).operators@, owner, operator)
    }

    /// How many multi-tokens have been created.
    pub open spec fn multi_count(self) -> int {
        self.multi@.len() as int
    }

    /// Whether `id` names a registered multi-token.
    pub open spec fn multi_exists(self, id: u32) -> bool {
        1 <= id && id <= self.multi@.len()
    }

    /// The multi-token registered under `id`.
    pub open spec fn multi_at(self, id: u32) -> MultiToken
        recommends
            self.multi_exists(id),
    {
        self.multi@[id - 1]
    }

    /// The balance of `(item, account)` in multi-token `id`.
    pub open spec fn mt_balance(self, id: u32, item: u32, account: AccountId) -> int {
        if self.multi_exists(id) {
            cell_of(self.multi_at(id).balances@, item, account)
        } else {
            0
        }
    }

    /// Whether `operator` is approved for all of `owner`'s holdings in
    /// multi-token `id`.
    pub open spec fn mt_operator(self, id: u32, owner: AccountId, operator: AccountId) -> bool {
        self.multi_exists(id) && operator_set(self.multi_at(id).operators@, owner, operator)
    }

    /// A fresh engine: no tokens, no events.
    pub fn new() -> (r: TokenEngine)
        ensures
            r.wf(),
            r.fungible_count() == 0,
            r.nft_count() == 0,
            r.multi_count() == 0,
            r.events@ =~= Seq::<Event>::empty(),
    {
        TokenEngine { fungible: Vec::new(), nonfungible: Vec::new(), multi: Vec::new(), events: Vec::new() }
    }

    /// In every well-formed state, a fungible token's recorded total supply
    /// equals the sum of its balances.
    pub proof fn lemma_fungible_supply_is_sum(self, id: u32)
        requires
            self.wf(),
            self.fungible_exists(id),
        ensures
            self.fun_supply(id) == sum_balances(self.fungible_at(id).balances@),
    {
        assert(fungible_token_wf(self.fungible@[id - 1]));
    }

    /// In every well-formed state, ownership in a non-fungible token is a
    /// partial function: no item identifier occurs in two owner entries.
    pub proof fn lemma_nft_owners_partial_function(self, id: u32)
        requires
            self.wf(),
            self.nft_exists(id),
        ensures
            forall|i: int, j: int|
                0 <= i < j < self.nft_at(id).items@.len() ==> self.nft_at(id).items@[i].item
                    != self.nft_at(id).items@[j].item,
    {
        assert(nft_token_wf(self.nonfungible@[id - 1]));
    }

    /// Identifier allocation is gapless from the first allocation: exactly
    /// the identifiers `1 ..= count` name tokens, in each registry.
    pub proof fn lemma_ids_gapless(self)
        ensures
            forall|id: u32| self.fungible_exists(id) <==> 1 <= id <= self.fungible_count(),
            forall|id: u32| self.nft_exists(id) <==> 1 <= id <= self.nft_count(),
            forall|id: u32| self.multi_exists(id) <==> 1 <= id <= self.multi_count(),
    {
    }
}

} // verus!
