//! Guest contract shells: thin adapters that forward one message each to
//! the engine, remember the last created token identifier, and record their
//! own guest-side event structs. The host engine and the transaction signer
//! are handed in by the surrounding runtime. Statuses above 1 are outside
//! the shells' one-variant error protocol, so each forwarding method
//! requires the condition under which its operation succeeds.

use vstd::prelude::*;
use crate::account::AccountId;
use crate::balance::{U256, u256_limit};
use crate::engine::TokenEngine;
use crate::errors::{TokenFungibleErr, TokenMultiErr, NonFungibleErr};
use crate::events::Event;
use crate::fungible::{
    fungible_frame, fungible_balances_moved, fungible_balances_unchanged,
    fungible_allowances_unchanged, fungible_create_post,
};
use crate::nonfungible::{
    nft_frame, nft_owners_unchanged, nft_approvals_unchanged, nft_operators_unchanged,
    nft_may_move, nft_create_post,
};
use crate::multi::{
    multi_frame, mt_balances_unchanged, mt_operators_unchanged, mt_may_move, multi_create_post,
    mt_map, mt_single_xfer, mt_batch_xfer, mt_batch_mint, mt_batch_burn,
};

verus! {

/// The identifier type of a fungible token.
pub type FungibleTokenId = u32;

/// The identifier type of a non-fungible token.
pub type NonFungibleTokenId = u32;

/// The identifier type of a multi-token.
pub type MultiTokenId = u32;

/// The identifier type of an item within a token.
pub type TokenId = u32;

/// Marker for the host environment configuration the shells run under; it
/// carries no data.
#[derive(Debug, Clone, Copy, PartialEq, Eq, Structural)]
pub enum CustomEnvironment {
    Host,
}

/// Guest-side event: a fungible token was created.
#[derive(Clone, Copy, PartialEq, Eq, Structural, Debug)]
pub struct FungibleTokenCreate {
    pub fungible_token_id: FungibleTokenId,
}

/// Guest-side event: a fungible token was minted.
#[derive(Clone, Copy, PartialEq, Eq, Structural, Debug)]
pub struct FungibleTokenMint {
    pub fungible_token_id: FungibleTokenId,
}

/// Guest-side event: a non-fungible token was created.
#[derive(Clone, Copy, PartialEq, Eq, Structural, Debug)]
pub struct NonFungibleTokenCreate {
    pub non_fungible_token_id: NonFungibleTokenId,
}

/// Guest-side event: a non-fungible token was minted. The shell declares it
/// for its users; no shell message emits it.
#[derive(Clone, Copy, PartialEq, Eq, Structural, Debug)]
pub struct NonFungibleTokenMint {
    pub non_fungible_token_id: NonFungibleTokenId,
}

/// Guest-side event: a multi-token was created.
#[derive(Clone, Copy, PartialEq, Eq, Structural, Debug)]
pub struct MultiTokenCreate {
    pub multi_token_id: MultiTokenId,
}

/// The fungible guest shell: remembers the last created token identifier.
pub struct FungibleTokenExtension {
    pub value: FungibleTokenId,
    pub created: Vec<FungibleTokenCreate>,
    pub minted: Vec<FungibleTokenMint>,
}

impl FungibleTokenExtension {
    /// A fresh shell.
    pub fn new() -> (r: FungibleTokenExtension)
        ensures
            r.value == 0,
            r.created@.len() == 0,
            r.minted@.len() == 0,
    {
        FungibleTokenExtension { value: 0, created: Vec::new(), minted: Vec::new() }
    }

    /// Creates a fungible token, stores its identifier and records the
    /// guest creation event.
    pub fn create_fungible_token(
        &mut self,
        engine: &mut TokenEngine,
        name: Vec<u8>,
        symbol: Vec<u8>,
        decimals: u8,
    ) -> (r: Result<(), TokenFungibleErr>)
        requires
            old(engine).wf(),
        ensures
            final(engine).wf(),
            old(engine).fungible_count() < u32::MAX ==> {
                &&& r == Ok::<(), TokenFungibleErr>(())
                &&& fungible_create_post(
                    *old(engine),
                    *final(engine),
                    (old(engine).fungible_count() + 1) as u32,
                    name@,
                    symbol@,
                    decimals,
                )
                &&& final(self).value == old(engine).fungible_count() + 1
                &&& final(self).created@ == old(self).created@.push(
                    FungibleTokenCreate { fungible_token_id: final(self).value },
                )
                &&& final(self).minted == old(self).minted
            },
            old(engine).fungible_count() >= u32::MAX ==> r == Err::<(), TokenFungibleErr>(
                TokenFungibleErr::FailCreateToken,
            ) && *final(engine) == *old(engine) && *final(self) == *old(self),
    {
        match engine.fungible_create(name, symbol, decimals) {
            Ok(id) => {
                self.value = id;
                self.created.push(FungibleTokenCreate { fungible_token_id: id });
                Ok(())
            },
            Err(_) => Err(TokenFungibleErr::FailCreateToken),
        }
    }

    /// Forwards an approve message.
    pub fn approve_fungible_token(
        &mut self,
        engine: &mut TokenEngine,
        caller: AccountId,
        id: FungibleTokenId,
        spender: AccountId,
        amount: U256,
    ) -> (r: Result<(), TokenFungibleErr>)
        requires
            old(engine).wf(),
            old(engine).fungible_exists(id),
        ensures
            final(engine).wf(),
            r == Ok::<(), TokenFungibleErr>(()),
            *final(self) == *old(self),
            fungible_frame(*old(engine), *final(engine), id),
            fungible_balances_unchanged(*old(engine), *final(engine), id),
            final(engine).fun_allowance(id, caller, spender) == amount.val(),
            forall|o: AccountId, p: AccountId|
                !(o == caller && p == spender) ==> final(engine).fun_allowance(id, o, p) == old(
                    engine,
                ).fun_allowance(id, o, p),
            final(engine).events@ == old(engine).events@.push(
                Event::FungibleApproval { id, owner: caller, spender, amount },
            ),
    {
        match engine.fungible_approve(caller, id, spender, amount) {
            Ok(()) => Ok(()),
            Err(_) => vstd::pervasive::unreached(),
        }
    }

    /// Forwards a transfer message.
    pub fn transfer_fungible_token(
        &mut self,
        engine: &mut TokenEngine,
        caller: AccountId,
        id: FungibleTokenId,
        recipient: AccountId,
        amount: U256,
    ) -> (r: Result<(), TokenFungibleErr>)
        requires
            old(engine).wf(),
            old(engine).fungible_exists(id),
            old(engine).fun_balance(id, caller) >= amount.val(),
        ensures
            final(engine).wf(),
            r == Ok::<(), TokenFungibleErr>(()),
            *final(self) == *old(self),
            fungible_frame(*old(engine), *final(engine), id),
            fungible_balances_moved(*old(engine), *final(engine), id, caller, recipient, amount.val()),
            final(engine).fun_supply(id) == old(engine).fun_supply(id),
            fungible_allowances_unchanged(*old(engine), *final(engine), id),
            final(engine).events@ == old(engine).events@.push(
                Event::FungibleTransfer { id, from: Some(caller), to: Some(recipient), amount },
            ),
    {
        match engine.fungible_transfer(caller, id, recipient, amount) {
            Ok(()) => Ok(()),
            Err(_) => vstd::pervasive::unreached(),
        }
    }

    /// Forwards a transfer_from message.
    pub fn transfer_from_fungible_token(
        &mut self,
        engine: &mut TokenEngine,
        caller: AccountId,
        id: FungibleTokenId,
        sender: AccountId,
        recipient: AccountId,
        amount: U256,
    ) -> (r: Result<(), TokenFungibleErr>)
        requires
            old(engine).wf(),
            old(engine).fungible_exists(id),
            caller == sender || old(engine).fun_allowance(id, sender, caller) >= amount.val(),
            old(engine).fun_balance(id, sender) >= amount.val(),
        ensures
            final(engine).wf(),
            r == Ok::<(), TokenFungibleErr>(()),
            *final(self) == *old(self),
            fungible_frame(*old(engine), *final(engine), id),
            fungible_balances_moved(*old(engine), *final(engine), id, sender, recipient, amount.val()),
            final(engine).fun_supply(id) == old(engine).fun_supply(id),
            caller != sender ==> final(engine).fun_allowance(id, sender, caller) == old(
                engine,
            ).fun_allowance(id, sender, caller) - amount.val(),
            final(engine).events@ == old(engine).events@.push(
                Event::FungibleTransfer { id, from: Some(sender), to: Some(recipient), amount },
            ),
    {
        match engine.fungible_transfer_from(caller, id, sender, recipient, amount) {
            Ok(()) => Ok(()),
            Err(_) => vstd::pervasive::unreached(),
        }
    }

    /// Forwards a mint message and records the guest mint event, which
    /// carries the shell's stored identifier.
    pub fn mint_fungible_token(
        &mut self,
        engine: &mut TokenEngine,
        id: FungibleTokenId,
        account: AccountId,
        amount: U256,
    ) -> (r: Result<(), TokenFungibleErr>)
        requires
            old(engine).wf(),
            old(engine).fungible_exists(id),
            old(engine).fun_supply(id) + amount.val() < u256_limit(),
        ensures
            final(engine).wf(),
            r == Ok::<(), TokenFungibleErr>(()),
            fungible_frame(*old(engine), *final(engine), id),
            final(engine).fun_balance(id, account) == old(engine).fun_balance(id, account)
                + amount.val(),
            final(engine).fun_supply(id) == old(engine).fun_supply(id) + amount.val(),
            final(engine).events@ == old(engine).events@.push(
                Event::FungibleTransfer { id, from: None, to: Some(account), amount },
            ),
            final(self).value == old(self).value,
            final(self).created == old(self).created,
            final(self).minted@ == old(self).minted@.push(
                FungibleTokenMint { fungible_token_id: old(self).value },
            ),
    {
        match engine.fungible_mint(id, account, amount) {
            Ok(()) => {
                self.minted.push(FungibleTokenMint { fungible_token_id: self.value });
                Ok(())
            },
            Err(_) => vstd::pervasive::unreached(),
        }
    }

    /// Forwards a burn message.
    pub fn burn_fungible_token(
        &mut self,
        engine: &mut TokenEngine,
        id: FungibleTokenId,
        account: AccountId,
        amount: U256,
    ) -> (r: Result<(), TokenFungibleErr>)
        requires
            old(engine).wf(),
            old(engine).fungible_exists(id),
            old(engine).fun_balance(id, account) >= amount.val(),
        ensures
            final(engine).wf(),
            r == Ok::<(), TokenFungibleErr>(()),
            *final(self) == *old(self),
            fungible_frame(*old(engine), *final(engine), id),
            final(engine).fun_balance(id, account) == old(engine).fun_balance(id, account)
                - amount.val(),
            final(engine).fun_supply(id) == old(engine).fun_supply(id) - amount.val(),
            final(engine).events@ == old(engine).events@.push(
                Event::FungibleTransfer { id, from: Some(account), to: None, amount },
            ),
    {
        match engine.fungible_burn(id, account, amount) {
            Ok(()) => Ok(()),
            Err(_) => vstd::pervasive::unreached(),
        }
    }

    /// The last created token identifier.
    pub fn get(&self) -> (r: FungibleTokenId)
        ensures
            r == self.value,
    {
        self.value
    }
}

/// The non-fungible guest shell.
pub struct NonFungibleTokenExtension {
    pub value: NonFungibleTokenId,
    pub created: Vec<NonFungibleTokenCreate>,
}

impl NonFungibleTokenExtension {
    /// A fresh shell.
    pub fn new() -> (r: NonFungibleTokenExtension)
        ensures
            r.value == 0,
            r.created@.len() == 0,
    {
        NonFungibleTokenExtension { value: 0, created: Vec::new() }
    }

    /// Creates a non-fungible token, stores its identifier and records the
    /// guest creation event.
    pub fn create_non_fungible_token(
        &mut self,
        engine: &mut TokenEngine,
        name: Vec<u8>,
        symbol: Vec<u8>,
        base_uri: Vec<u8>,
    ) -> (r: Result<(), NonFungibleErr>)
        requires
            old(engine).wf(),
        ensures
            final(engine).wf(),
            old(engine).nft_count() < u32::MAX ==> {
                &&& r == Ok::<(), NonFungibleErr>(())
                &&& nft_create_post(
                    *old(engine),
                    *final(engine),
                    (old(engine).nft_count() + 1) as u32,
                    name@,
                    symbol@,
                    base_uri@,
                )
                &&& final(self).value == old(engine).nft_count() + 1
                &&& final(self).created@ == old(self).created@.push(
                    NonFungibleTokenCreate { non_fungible_token_id: final(self).value },
                )
            },
            old(engine).nft_count() >= u32::MAX ==> r == Err::<(), NonFungibleErr>(
                NonFungibleErr::FailCreateToken,
            ) && *final(engine) == *old(engine) && *final(self) == *old(self),
    {
        match engine.nft_create(name, symbol, base_uri) {
            Ok(id) => {
                self.value = id;
                self.created.push(NonFungibleTokenCreate { non_fungible_token_id: id });
                Ok(())
            },
            Err(_) => Err(NonFungibleErr::FailCreateToken),
        }
    }

    /// Forwards a single-item approve message; the caller must own the item.
    pub fn approve_non_fungible_token(
        &mut self,
        engine: &mut TokenEngine,
        caller: AccountId,
        id: NonFungibleTokenId,
        to: AccountId,
        token_id: TokenId,
    ) -> (r: Result<(), NonFungibleErr>)
        requires
            old(engine).wf(),
            old(engine).nft_exists(id),
            old(engine).nft_owner(id, token_id) == Some(caller),
        ensures
            final(engine).wf(),
            r == Ok::<(), NonFungibleErr>(()),
            *final(self) == *old(self),
            nft_frame(*old(engine), *final(engine), id),
            nft_owners_unchanged(*old(engine), *final(engine), id),
            final(engine).nft_approval(id, token_id) == Some(to),
            final(engine).events@ == old(engine).events@.push(
                Event::NonFungibleApproval { id, owner: caller, approved: to, item: token_id },
            ),
    {
        match engine.nft_approve(caller, id, to, token_id) {
            Ok(()) => Ok(()),
            Err(_) => vstd::pervasive::unreached(),
        }
    }

    /// Forwards an approve-all message.
    pub fn approve_all_non_fungible_token(
        &mut self,
        engine: &mut TokenEngine,
        caller: AccountId,
        id: NonFungibleTokenId,
        operator: AccountId,
        approved: bool,
    ) -> (r: Result<(), NonFungibleErr>)
        requires
            old(engine).wf(),
            old(engine).nft_exists(id),
        ensures
            final(engine).wf(),
            r == Ok::<(), NonFungibleErr>(()),
            *final(self) == *old(self),
            nft_frame(*old(engine), *final(engine), id),
            nft_owners_unchanged(*old(engine), *final(engine), id),
            nft_approvals_unchanged(*old(engine), *final(engine), id),
            final(engine).nft_operator(id, caller, operator) == approved,
            final(engine).events@ == old(engine).events@.push(
                Event::NonFungibleApprovalForAll { id, owner: caller, operator, approved },
            ),
    {
        match engine.nft_set_approval_for_all(caller, id, operator, approved) {
            Ok(()) => Ok(()),
            Err(_) => vstd::pervasive::unreached(),
        }
    }

    /// Forwards a transfer_from message.
    pub fn transfer_from_non_fungible_token(
        &mut self,
        engine: &mut TokenEngine,
        caller: AccountId,
        id: NonFungibleTokenId,
        from: AccountId,
        to: AccountId,
        token_id: TokenId,
    ) -> (r: Result<(), NonFungibleErr>)
        requires
            old(engine).wf(),
            old(engine).nft_exists(id),
            old(engine).nft_owner(id, token_id) == Some(from),
            nft_may_move(*old(engine), id, from, caller, token_id),
        ensures
            final(engine).wf(),
            r == Ok::<(), NonFungibleErr>(()),
            *final(self) == *old(self),
            nft_frame(*old(engine), *final(engine), id),
            final(engine).nft_owner(id, token_id) == Some(to),
            final(engine).nft_approval(id, token_id) is None,
            nft_operators_unchanged(*old(engine), *final(engine), id),
            final(engine).events@ == old(engine).events@.push(
                Event::NonFungibleTransfer { id, from: Some(from), to: Some(to), item: token_id },
            ),
    {
        match engine.nft_transfer_from(caller, id, from, to, token_id) {
            Ok(()) => Ok(()),
            Err(_) => vstd::pervasive::unreached(),
        }
    }

    /// Forwards a mint message; the item must not yet exist.
    pub fn mint_non_fungible_token(
        &mut self,
        engine: &mut TokenEngine,
        id: NonFungibleTokenId,
        to: AccountId,
        token_id: TokenId,
    ) -> (r: Result<(), NonFungibleErr>)
        requires
            old(engine).wf(),
            old(engine).nft_exists(id),
            old(engine).nft_owner(id, token_id) is None,
        ensures
            final(engine).wf(),
            r == Ok::<(), NonFungibleErr>(()),
            *final(self) == *old(self),
            nft_frame(*old(engine), *final(engine), id),
            final(engine).nft_owner(id, token_id) == Some(to),
            final(engine).events@ == old(engine).events@.push(
                Event::NonFungibleTransfer { id, from: None, to: Some(to), item: token_id },
            ),
    {
        match engine.nft_mint(id, to, token_id) {
            Ok(()) => Ok(()),
            Err(_) => vstd::pervasive::unreached(),
        }
    }

    /// Forwards a burn message; the item must exist.
    pub fn burn_non_fungible_token(
        &mut self,
        engine: &mut TokenEngine,
        id: NonFungibleTokenId,
        token_id: TokenId,
    ) -> (r: Result<(), NonFungibleErr>)
        requires
            old(engine).wf(),
            old(engine).nft_exists(id),
            old(engine).nft_owner(id, token_id) is Some,
        ensures
            final(engine).wf(),
            r == Ok::<(), NonFungibleErr>(()),
            *final(self) == *old(self),
            nft_frame(*old(engine), *final(engine), id),
            final(engine).nft_owner(id, token_id) is None,
            final(engine).nft_approval(id, token_id) is None,
            final(engine).events@ == old(engine).events@.push(
                Event::NonFungibleTransfer {
                    id,
                    from: old(engine).nft_owner(id, token_id),
                    to: None,
                    item: token_id,
                },
            ),
    {
        match engine.nft_burn(id, token_id) {
            Ok(()) => Ok(()),
            Err(_) => vstd::pervasive::unreached(),
        }
    }

    /// The last created token identifier.
    pub fn get(&self) -> (r: NonFungibleTokenId)
        ensures
            r == self.value,
    {
        self.value
    }
}

/// The multi-token guest shell.
pub struct MultiTokenExtension {
    pub value: MultiTokenId,
    pub created: Vec<MultiTokenCreate>,
}

impl MultiTokenExtension {
    /// A fresh shell.
    pub fn new() -> (r: MultiTokenExtension)
        ensures
            r.value == 0,
            r.created@.len() == 0,
    {
        MultiTokenExtension { value: 0, created: Vec::new() }
    }

    /// Creates a multi-token, stores its identifier and records the guest
    /// creation event.
    pub fn create_multi_token(&mut self, engine: &mut TokenEngine, uri: Vec<u8>) -> (r: Result<
        (),
        TokenMultiErr,
    >)
        requires
            old(engine).wf(),
        ensures
            final(engine).wf(),
            old(engine).multi_count() < u32::MAX ==> {
                &&& r == Ok::<(), TokenMultiErr>(())
                &&& multi_create_post(
                    *old(engine),
                    *final(engine),
                    (old(engine).multi_count() + 1) as u32,
                    uri@,
                )
                &&& final(self).value == old(engine).multi_count() + 1
                &&& final(self).created@ == old(self).created@.push(
                    MultiTokenCreate { multi_token_id: final(self).value },
                )
            },
            old(engine).multi_count() >= u32::MAX ==> r == Err::<(), TokenMultiErr>(
                TokenMultiErr::FailCreateToken,
            ) && *final(engine) == *old(engine) && *final(self) == *old(self),
    {
        match engine.multi_create(uri) {
            Ok(id) => {
                self.value = id;
                self.created.push(MultiTokenCreate { multi_token_id: id });
                Ok(())
            },
            Err(_) => Err(TokenMultiErr::FailCreateToken),
        }
    }

    /// Forwards an approve-all message.
    pub fn approve_multi_token(
        &mut self,
        engine: &mut TokenEngine,
        caller: AccountId,
        id: MultiTokenId,
        operator: AccountId,
        approved: bool,
    ) -> (r: Result<(), TokenMultiErr>)
        requires
            old(engine).wf(),
            old(engine).multi_exists(id),
        ensures
            final(engine).wf(),
            r == Ok::<(), TokenMultiErr>(()),
            *final(self) == *old(self),
            multi_frame(*old(engine), *final(engine), id),
            mt_balances_unchanged(*old(engine), *final(engine), id),
            final(engine).mt_operator(id, caller, operator) == approved,
            final(engine).events@ == old(engine).events@.push(
                Event::MultiApprovalForAll { id, owner: caller, operator, approved },
            ),
    {
        match engine.multi_set_approval_for_all(caller, id, operator, approved) {
            Ok(()) => Ok(()),
            Err(_) => vstd::pervasive::unreached(),
        }
    }

    /// Forwards a transfer_from message.
    pub fn transfer_from_multi_token(
        &mut self,
        engine: &mut TokenEngine,
        caller: AccountId,
        id: MultiTokenId,
        from: AccountId,
        to: AccountId,
        token_id: TokenId,
        amount: U256,
    ) -> (r: Result<(), TokenMultiErr>)
        requires
            old(engine).wf(),
            old(engine).multi_exists(id),
            mt_may_move(*old(engine), id, from, caller),
            mt_single_xfer(
                mt_map(old(engine).multi_at(id).balances@),
                from,
                to,
                token_id,
                amount,
            ) is Some,
        ensures
            final(engine).wf(),
            r == Ok::<(), TokenMultiErr>(()),
            *final(self) == *old(self),
            multi_frame(*old(engine), *final(engine), id),
            from != to ==> final(engine).mt_balance(id, token_id, from) == old(engine).mt_balance(
                id,
                token_id,
                from,
            ) - amount.val(),
            from != to ==> final(engine).mt_balance(id, token_id, to) == old(engine).mt_balance(
                id,
                token_id,
                to,
            ) + amount.val(),
            mt_operators_unchanged(*old(engine), *final(engine), id),
            final(engine).events@ == old(engine).events@.push(
                Event::MultiTransferSingle {
                    id,
                    operator: caller,
                    from: Some(from),
                    to: Some(to),
                    item: token_id,
                    amount,
                },
            ),
    {
        match engine.multi_transfer_from(caller, id, from, to, token_id, amount) {
            Ok(()) => Ok(()),
            Err(_) => vstd::pervasive::unreached(),
        }
    }

    /// Forwards an atomic batch transfer_from message.
    pub fn batch_transfer_from_multi_token(
        &mut self,
        engine: &mut TokenEngine,
        caller: AccountId,
        id: MultiTokenId,
        from: AccountId,
        to: AccountId,
        token_ids: Vec<TokenId>,
        amounts: Vec<U256>,
    ) -> (r: Result<(), TokenMultiErr>)
        requires
            old(engine).wf(),
            old(engine).multi_exists(id),
            token_ids@.len() == amounts@.len(),
            mt_may_move(*old(engine), id, from, caller),
            mt_batch_xfer(
                mt_map(old(engine).multi_at(id).balances@),
                from,
                to,
                token_ids@,
                amounts@,
            ) is Some,
        ensures
            final(engine).wf(),
            r == Ok::<(), TokenMultiErr>(()),
            *final(self) == *old(self),
            multi_frame(*old(engine), *final(engine), id),
            (mt_batch_xfer(
                mt_map(old(engine).multi_at(id).balances@),
                from,
                to,
                token_ids@,
                amounts@,
            ) matches Some(m2) && mt_map(final(engine).multi_at(id).balances@) == m2),
            mt_operators_unchanged(*old(engine), *final(engine), id),
            final(engine).events@.len() == old(engine).events@.len() + 1,
            old(engine).events@.is_prefix_of(final(engine).events@),
    {
        match engine.multi_batch_transfer_from(caller, id, from, to, token_ids, amounts) {
            Ok(()) => Ok(()),
            Err(_) => vstd::pervasive::unreached(),
        }
    }

    /// Forwards a mint message.
    pub fn mint_multi_token(
        &mut self,
        engine: &mut TokenEngine,
        id: MultiTokenId,
        to: AccountId,
        token_id: TokenId,
        amount: U256,
    ) -> (r: Result<(), TokenMultiErr>)
        requires
            old(engine).wf(),
            old(engine).multi_exists(id),
            old(engine).mt_balance(id, token_id, to) + amount.val() < u256_limit(),
        ensures
            final(engine).wf(),
            r == Ok::<(), TokenMultiErr>(()),
            *final(self) == *old(self),
            multi_frame(*old(engine), *final(engine), id),
            final(engine).mt_balance(id, token_id, to) == old(engine).mt_balance(id, token_id, to)
                + amount.val(),
            mt_operators_unchanged(*old(engine), *final(engine), id),
            final(engine).events@ == old(engine).events@.push(
                Event::MultiTransferSingle {
                    id,
                    operator: to,
                    from: None,
                    to: Some(to),
                    item: token_id,
                    amount,
                },
            ),
    {
        match engine.multi_mint(id, to, token_id, amount) {
            Ok(()) => Ok(()),
            Err(_) => vstd::pervasive::unreached(),
        }
    }

    /// Forwards an atomic batch mint message.
    pub fn mint_batch_multi_token(
        &mut self,
        engine: &mut TokenEngine,
        id: MultiTokenId,
        to: AccountId,
        token_ids: Vec<TokenId>,
        amounts: Vec<U256>,
    ) -> (r: Result<(), TokenMultiErr>)
        requires
            old(engine).wf(),
            old(engine).multi_exists(id),
            token_ids@.len() == amounts@.len(),
            mt_batch_mint(
                mt_map(old(engine).multi_at(id).balances@),
                to,
                token_ids@,
                amounts@,
            ) is Some,
        ensures
            final(engine).wf(),
            r == Ok::<(), TokenMultiErr>(()),
            *final(self) == *old(self),
            multi_frame(*old(engine), *final(engine), id),
            (mt_batch_mint(
                mt_map(old(engine).multi_at(id).balances@),
                to,
                token_ids@,
                amounts@,
            ) matches Some(m2) && mt_map(final(engine).multi_at(id).balances@) == m2),
            mt_operators_unchanged(*old(engine), *final(engine), id),
            final(engine).events@.len() == old(engine).events@.len() + 1,
            old(engine).events@.is_prefix_of(final(engine).events@),
    {
        match engine.multi_mint_batch(id, to, token_ids, amounts) {
            Ok(()) => Ok(()),
            Err(_) => vstd::pervasive::unreached(),
        }
    }

    /// Forwards a burn message: burns from the caller's balance.
    pub fn burn_multi_token(
        &mut self,
        engine: &mut TokenEngine,
        caller: AccountId,
        id: MultiTokenId,
        token_id: TokenId,
        amount: U256,
    ) -> (r: Result<(), TokenMultiErr>)
        requires
            old(engine).wf(),
            old(engine).multi_exists(id),
            old(engine).mt_balance(id, token_id, caller) >= amount.val(),
        ensures
            final(engine).wf(),
            r == Ok::<(), TokenMultiErr>(()),
            *final(self) == *old(self),
            multi_frame(*old(engine), *final(engine), id),
            final(engine).mt_balance(id, token_id, caller) == old(engine).mt_balance(
                id,
                token_id,
                caller,
            ) - amount.val(),
            mt_operators_unchanged(*old(engine), *final(engine), id),
            final(engine).events@ == old(engine).events@.push(
                Event::MultiTransferSingle {
                    id,
                    operator: caller,
                    from: Some(caller),
                    to: None,
                    item: token_id,
                    amount,
                },
            ),
    {
        match engine.multi_burn(caller, id, token_id, amount) {
            Ok(()) => Ok(()),
            Err(_) => vstd::pervasive::unreached(),
        }
    }

    /// Forwards an atomic batch burn message.
    pub fn burn_batch_multi_token(
        &mut self,
        engine: &mut TokenEngine,
        caller: AccountId,
        id: MultiTokenId,
        token_ids: Vec<TokenId>,
        amounts: Vec<U256>,
    ) -> (r: Result<(), TokenMultiErr>)
        requires
            old(engine).wf(),
            old(engine).multi_exists(id),
            token_ids@.len() == amounts@.len(),
            mt_batch_burn(
                mt_map(old(engine).multi_at(id).balances@),
                caller,
                token_ids@,
                amounts@,
            ) is Some,
        ensures
            final(engine).wf(),
            r == Ok::<(), TokenMultiErr>(()),
            *final(self) == *old(self),
            multi_frame(*old(engine), *final(engine), id),
            (mt_batch_burn(
                mt_map(old(engine).multi_at(id).balances@),
                caller,
                token_ids@,
                amounts@,
            ) matches Some(m2) && mt_map(final(engine).multi_at(id).balances@) == m2),
            mt_operators_unchanged(*old(engine), *final(engine), id),
            final(engine).events@.len() == old(engine).events@.len() + 1,
            old(engine).events@.is_prefix_of(final(engine).events@),
    {
        match engine.multi_burn_batch(caller, id, token_ids, amounts) {
            Ok(()) => Ok(()),
            Err(_) => vstd::pervasive::unreached(),
        }
    }

    /// The last created token identifier.
    pub fn get(&self) -> (r: MultiTokenId)
        ensures
            r == self.value,
    {
        self.value
    }
}

} // verus!
