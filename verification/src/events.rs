//! Event records. The engine appends these to an ordered, append-only sink;
//! a failed operation appends nothing.

use vstd::prelude::*;
use crate::account::AccountId;
use crate::balance::U256;

verus! {

/// One record in the engine's event sink. `from: None` marks a mint,
/// `to: None` a burn, in every transfer-shaped record.
#[derive(Clone, PartialEq, Debug)]
pub enum Event {
    FungibleTokenCreated { id: u32 },
    FungibleTransfer { id: u32, from: Option<AccountId>, to: Option<AccountId>, amount: U256 },
    FungibleApproval { id: u32, owner: AccountId, spender: AccountId, amount: U256 },
    NonFungibleTokenCreated { id: u32 },
    NonFungibleTransfer { id: u32, from: Option<AccountId>, to: Option<AccountId>, item: u32 },
    NonFungibleApproval { id: u32, owner: AccountId, approved: AccountId, item: u32 },
    NonFungibleApprovalForAll { id: u32, owner: AccountId, operator: AccountId, approved: bool },
    MultiTokenCreated { id: u32 },
    MultiUri { id: u32, uri: Vec<u8> },
    MultiApprovalForAll { id: u32, owner: AccountId, operator: AccountId, approved: bool },
    MultiTransferSingle {
        id: u32,
        operator: AccountId,
        from: Option<AccountId>,
        to: Option<AccountId>,
        item: u32,
        amount: U256,
    },
    MultiTransferBatch {
        id: u32,
        operator: AccountId,
        from: Option<AccountId>,
        to: Option<AccountId>,
        items: Vec<u32>,
        amounts: Vec<U256>,
    },
}

} // verus!
