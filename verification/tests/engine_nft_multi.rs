use token_engine::account::AccountId;
use token_engine::balance::U256;
use token_engine::engine::TokenEngine;
use token_engine::errors::TokenError;
use token_engine::multi::get_cell;
use token_engine::nonfungible::{get_owner, get_approval};
use token_engine::operators::has_operator;

fn acct(x: u64) -> AccountId {
    AccountId::from_words(x, 0, 0, 0)
}

fn u(x: u128) -> U256 {
    U256::from_u128(x)
}

fn owner(e: &TokenEngine, id: u32, item: u32) -> Option<AccountId> {
    get_owner(&e.nonfungible[(id - 1) as usize].items, item)
}

fn approval(e: &TokenEngine, id: u32, item: u32) -> Option<AccountId> {
    get_approval(&e.nonfungible[(id - 1) as usize].approvals, item)
}

fn cell(e: &TokenEngine, id: u32, item: u32, a: AccountId) -> U256 {
    get_cell(&e.multi[(id - 1) as usize].balances, item, a)
}

#[test]
fn nft_approve_and_transfer_scenario() {
    let (a, b, c) = (acct(1), acct(2), acct(3));
    let mut e = TokenEngine::new();
    let id = e.nft_create(b"Art".to_vec(), b"ART".to_vec(), b"ipfs://".to_vec()).unwrap();
    assert_eq!(id, 1);
    e.nft_mint(1, a, 7).unwrap();
    assert_eq!(owner(&e, 1, 7), Some(a));
    e.nft_approve(a, 1, b, 7).unwrap();
    assert_eq!(approval(&e, 1, 7), Some(b));
    let r = e.nft_transfer_from(b, 1, a, c, 7);
    assert_eq!(r, Ok(()));
    assert_eq!(owner(&e, 1, 7), Some(c));
    // the per-item approval is cleared by the transfer
    assert_eq!(approval(&e, 1, 7), None);
}

#[test]
fn nft_mint_existing_item_fails() {
    let mut e = TokenEngine::new();
    let a = acct(1);
    e.nft_create(b"N".to_vec(), b"N".to_vec(), b"".to_vec()).unwrap();
    e.nft_mint(1, a, 3).unwrap();
    assert_eq!(e.nft_mint(1, acct(2), 3), Err(TokenError::BadArgument));
    assert_eq!(owner(&e, 1, 3), Some(a));
}

#[test]
fn nft_unauthorized_transfer_fails() {
    let (a, b, c) = (acct(1), acct(2), acct(3));
    let mut e = TokenEngine::new();
    e.nft_create(b"N".to_vec(), b"N".to_vec(), b"".to_vec()).unwrap();
    e.nft_mint(1, a, 9).unwrap();
    let events_before = e.events.len();
    assert_eq!(e.nft_transfer_from(b, 1, a, c, 9), Err(TokenError::Unauthorized));
    assert_eq!(TokenError::Unauthorized.code(), 3);
    assert_eq!(owner(&e, 1, 9), Some(a));
    assert_eq!(e.events.len(), events_before);
    // an operator approved for all of A's items may move it
    e.nft_set_approval_for_all(a, 1, b, true).unwrap();
    assert!(has_operator(&e.nonfungible[0].operators, a, b));
    assert_eq!(e.nft_transfer_from(b, 1, a, c, 9), Ok(()));
    assert_eq!(owner(&e, 1, 9), Some(c));
}

#[test]
fn nft_burn_removes_owner_and_approval() {
    let (a, b) = (acct(1), acct(2));
    let mut e = TokenEngine::new();
    e.nft_create(b"N".to_vec(), b"N".to_vec(), b"".to_vec()).unwrap();
    e.nft_mint(1, a, 4).unwrap();
    e.nft_approve(a, 1, b, 4).unwrap();
    assert_eq!(e.nft_burn(1, 4), Ok(()));
    assert_eq!(owner(&e, 1, 4), None);
    assert_eq!(approval(&e, 1, 4), None);
    // the item is gone; burning again reports an unknown token
    assert_eq!(e.nft_burn(1, 4), Err(TokenError::UnknownToken));
    // its identifier may be minted anew
    assert_eq!(e.nft_mint(1, b, 4), Ok(()));
    assert_eq!(owner(&e, 1, 4), Some(b));
}

#[test]
fn multi_batch_is_atomic() {
    let (a, b) = (acct(1), acct(2));
    let mut e = TokenEngine::new();
    let id = e.multi_create(b"ipfs://bag".to_vec()).unwrap();
    assert_eq!(id, 1);
    e.multi_mint_batch(1, a, vec![1, 2], vec![u(10), u(20)]).unwrap();
    assert_eq!(cell(&e, 1, 1, a), u(10));
    assert_eq!(cell(&e, 1, 2, a), u(20));
    let events_before = e.events.len();
    let r = e.multi_batch_transfer_from(a, 1, a, b, vec![1, 2], vec![u(5), u(30)]);
    assert_eq!(r, Err(TokenError::InsufficientBalance));
    assert_eq!(TokenError::InsufficientBalance.code(), 4);
    // atomic: the first sub-transfer was rolled back and no event came out
    assert_eq!(cell(&e, 1, 1, a), u(10));
    assert_eq!(cell(&e, 1, 2, a), u(20));
    assert_eq!(cell(&e, 1, 1, b), u(0));
    assert_eq!(e.events.len(), events_before);
}

#[test]
fn multi_batch_success_applies_all_steps() {
    let (a, b) = (acct(1), acct(2));
    let mut e = TokenEngine::new();
    e.multi_create(b"u".to_vec()).unwrap();
    e.multi_mint_batch(1, a, vec![1, 2], vec![u(10), u(20)]).unwrap();
    let r = e.multi_batch_transfer_from(a, 1, a, b, vec![1, 2], vec![u(5), u(20)]);
    assert_eq!(r, Ok(()));
    assert_eq!(cell(&e, 1, 1, a), u(5));
    assert_eq!(cell(&e, 1, 1, b), u(5));
    assert_eq!(cell(&e, 1, 2, a), u(0));
    assert_eq!(cell(&e, 1, 2, b), u(20));
}

#[test]
fn multi_batch_length_mismatch_is_bad_argument() {
    let a = acct(1);
    let mut e = TokenEngine::new();
    e.multi_create(b"u".to_vec()).unwrap();
    let r = e.multi_mint_batch(1, a, vec![1, 2], vec![u(10)]);
    assert_eq!(r, Err(TokenError::BadArgument));
    assert_eq!(TokenError::BadArgument.code(), 7);
}

#[test]
fn multi_operator_required_for_third_party_transfer() {
    let (a, b, c) = (acct(1), acct(2), acct(3));
    let mut e = TokenEngine::new();
    e.multi_create(b"u".to_vec()).unwrap();
    e.multi_mint(1, a, 1, u(10)).unwrap();
    assert_eq!(e.multi_transfer_from(c, 1, a, b, 1, u(1)), Err(TokenError::Unauthorized));
    e.multi_set_approval_for_all(a, 1, c, true).unwrap();
    assert_eq!(e.multi_transfer_from(c, 1, a, b, 1, u(1)), Ok(()));
    assert_eq!(cell(&e, 1, 1, b), u(1));
    // revoking the operator closes the door again
    e.multi_set_approval_for_all(a, 1, c, false).unwrap();
    assert_eq!(e.multi_transfer_from(c, 1, a, b, 1, u(1)), Err(TokenError::Unauthorized));
}

#[test]
fn multi_burn_and_cumulative_batch() {
    let a = acct(1);
    let mut e = TokenEngine::new();
    e.multi_create(b"u".to_vec()).unwrap();
    e.multi_mint(1, a, 5, u(10)).unwrap();
    assert_eq!(e.multi_burn(a, 1, 5, u(4)), Ok(()));
    assert_eq!(cell(&e, 1, 5, a), u(6));
    assert_eq!(e.multi_burn(a, 1, 5, u(7)), Err(TokenError::InsufficientBalance));
    // a batch burn of 3 + 3 drains the same cell cumulatively
    assert_eq!(e.multi_burn_batch(a, 1, vec![5, 5], vec![u(3), u(3)]), Ok(()));
    assert_eq!(cell(&e, 1, 5, a), u(0));
    // and 1 + 6 must fail atomically even though 1 alone would fit
    e.multi_mint(1, a, 5, u(6)).unwrap();
    assert_eq!(
        e.multi_burn_batch(a, 1, vec![5, 5], vec![u(1), u(6)]),
        Err(TokenError::InsufficientBalance)
    );
    assert_eq!(cell(&e, 1, 5, a), u(6));
}
