use token_engine::account::AccountId;
use token_engine::balance::U256;
use token_engine::engine::TokenEngine;
use token_engine::errors::TokenError;
use token_engine::events::Event;
use token_engine::fungible::{get_balance, get_allowance};

fn acct(x: u64) -> AccountId {
    AccountId::from_words(x, 0, 0, 0)
}

fn bal(e: &TokenEngine, id: u32, a: AccountId) -> U256 {
    get_balance(&e.fungible[(id - 1) as usize].balances, a)
}

fn alw(e: &TokenEngine, id: u32, o: AccountId, s: AccountId) -> U256 {
    get_allowance(&e.fungible[(id - 1) as usize].allowances, o, s)
}

fn u(x: u128) -> U256 {
    U256::from_u128(x)
}

/// Builds the state after the first literal scenario: token 1, A holds 60,
/// B holds 40.
fn scenario_one() -> (TokenEngine, AccountId, AccountId) {
    let a = acct(1);
    let b = acct(2);
    let mut e = TokenEngine::new();
    let id = e.fungible_create(b"USD".to_vec(), b"USD".to_vec(), 2).unwrap();
    assert_eq!(id, 1);
    e.fungible_mint(1, a, u(100)).unwrap();
    e.fungible_transfer(a, 1, b, u(40)).unwrap();
    (e, a, b)
}

#[test]
fn create_mint_transfer_scenario() {
    let a = acct(1);
    let b = acct(2);
    let mut e = TokenEngine::new();
    let id = e.fungible_create(b"USD".to_vec(), b"USD".to_vec(), 2).unwrap();
    assert_eq!(id, 1);
    assert_eq!(e.events[0], Event::FungibleTokenCreated { id: 1 });
    e.fungible_mint(1, a, u(100)).unwrap();
    assert_eq!(bal(&e, 1, a), u(100));
    e.fungible_transfer(a, 1, b, u(40)).unwrap();
    assert_eq!(bal(&e, 1, a), u(60));
    assert_eq!(bal(&e, 1, b), u(40));
}

#[test]
fn transfer_from_insufficient_allowance() {
    let (mut e, a, b) = scenario_one();
    let c = acct(3);
    e.fungible_approve(a, 1, c, u(25)).unwrap();
    let r = e.fungible_transfer_from(c, 1, a, b, u(30));
    assert_eq!(r, Err(TokenError::InsufficientAllowance));
    assert_eq!(TokenError::InsufficientAllowance.code(), 5);
    // state unchanged
    assert_eq!(bal(&e, 1, a), u(60));
    assert_eq!(bal(&e, 1, b), u(40));
    assert_eq!(alw(&e, 1, a, c), u(25));
}

#[test]
fn transfer_from_consumes_allowance() {
    let (mut e, a, b) = scenario_one();
    let c = acct(3);
    e.fungible_approve(a, 1, c, u(25)).unwrap();
    let r = e.fungible_transfer_from(c, 1, a, b, u(10));
    assert_eq!(r, Ok(()));
    assert_eq!(bal(&e, 1, a), u(50));
    assert_eq!(bal(&e, 1, b), u(50));
    assert_eq!(alw(&e, 1, a, c), u(15));
}

#[test]
fn owner_transfer_from_ignores_allowance() {
    let (mut e, a, b) = scenario_one();
    // no allowance at all, but the caller is the owner
    let r = e.fungible_transfer_from(a, 1, a, b, u(60));
    assert_eq!(r, Ok(()));
    assert_eq!(bal(&e, 1, a), u(0));
    assert_eq!(bal(&e, 1, b), u(100));
    // and it fails on more than the balance, allowance notwithstanding
    let r2 = e.fungible_transfer_from(b, 1, b, a, u(101));
    assert_eq!(r2, Err(TokenError::InsufficientBalance));
}

#[test]
fn identifier_allocation_is_gapless() {
    let mut e = TokenEngine::new();
    let id1 = e.fungible_create(b"A".to_vec(), b"A".to_vec(), 0).unwrap();
    let id2 = e.fungible_create(b"B".to_vec(), b"B".to_vec(), 0).unwrap();
    let id3 = e.fungible_create(b"C".to_vec(), b"C".to_vec(), 0).unwrap();
    assert_eq!((id1, id2, id3), (1, 2, 3));
    // burning a token's whole supply does not free its identifier
    let a = acct(1);
    e.fungible_mint(1, a, u(5)).unwrap();
    e.fungible_burn(1, a, u(5)).unwrap();
    let id4 = e.fungible_create(b"D".to_vec(), b"D".to_vec(), 0).unwrap();
    assert_eq!(id4, 4);
}

#[test]
fn unknown_token_is_rejected() {
    let mut e = TokenEngine::new();
    let a = acct(1);
    assert_eq!(e.fungible_transfer(a, 1, a, u(1)), Err(TokenError::UnknownToken));
    assert_eq!(e.fungible_approve(a, 7, a, u(1)), Err(TokenError::UnknownToken));
    assert_eq!(e.fungible_mint(0, a, u(1)), Err(TokenError::UnknownToken));
    assert_eq!(TokenError::UnknownToken.code(), 2);
    assert_eq!(e.events.len(), 0);
}

#[test]
fn mint_overflow_is_arithmetic_error() {
    let mut e = TokenEngine::new();
    let a = acct(1);
    e.fungible_create(b"X".to_vec(), b"X".to_vec(), 0).unwrap();
    let max = U256 { lo: u128::MAX, hi: u128::MAX };
    e.fungible_mint(1, a, max).unwrap();
    let events_before = e.events.len();
    assert_eq!(e.fungible_mint(1, a, u(1)), Err(TokenError::ArithmeticError));
    assert_eq!(TokenError::ArithmeticError.code(), 6);
    // nothing changed, no event emitted
    assert_eq!(e.events.len(), events_before);
    assert_eq!(bal(&e, 1, a), max);
}

#[test]
fn burn_more_than_balance_fails() {
    let (mut e, a, _b) = scenario_one();
    let events_before = e.events.len();
    assert_eq!(e.fungible_burn(1, a, u(61)), Err(TokenError::InsufficientBalance));
    assert_eq!(e.events.len(), events_before);
    assert_eq!(bal(&e, 1, a), u(60));
    assert_eq!(e.fungible_burn(1, a, u(60)), Ok(()));
    assert_eq!(bal(&e, 1, a), u(0));
}

#[test]
fn transfer_emits_event_in_order() {
    let (e, a, b) = scenario_one();
    assert_eq!(e.events.len(), 3);
    assert_eq!(
        e.events[2],
        Event::FungibleTransfer { id: 1, from: Some(a), to: Some(b), amount: u(40) }
    );
}

#[test]
fn self_transfer_keeps_balance() {
    let (mut e, a, _b) = scenario_one();
    assert_eq!(e.fungible_transfer(a, 1, a, u(50)), Ok(()));
    assert_eq!(bal(&e, 1, a), u(60));
    assert_eq!(e.fungible_transfer(a, 1, a, u(61)), Err(TokenError::InsufficientBalance));
}

#[test]
fn total_supply_equals_sum_of_balances() {
    let (mut e, a, b) = scenario_one();
    let c = acct(3);
    e.fungible_transfer(b, 1, c, u(15)).unwrap();
    e.fungible_burn(1, a, u(10)).unwrap();
    e.fungible_mint(1, c, u(7)).unwrap();
    let t = &e.fungible[0];
    let mut sum = U256::zero();
    for entry in &t.balances {
        sum = sum.checked_add(entry.amount).unwrap();
    }
    assert_eq!(sum, t.total_supply);
    assert_eq!(sum, u(97));
}
