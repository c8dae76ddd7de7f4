use token_engine::account::AccountId;
use token_engine::balance::U256;
use token_engine::engine::TokenEngine;
use token_engine::errors::{TokenFungibleErr, TokenMultiErr, NonFungibleErr};
use token_engine::extensions::{
    FungibleTokenExtension, NonFungibleTokenExtension, MultiTokenExtension,
};
use token_engine::fungible::get_balance;

fn acct(x: u64) -> AccountId {
    AccountId::from_words(x, 0, 0, 0)
}

fn u(x: u128) -> U256 {
    U256::from_u128(x)
}

#[test]
fn u256_carry_and_overflow() {
    let one = u(1);
    let max_lo = U256 { lo: u128::MAX, hi: 0 };
    // carry into the high limb
    assert_eq!(max_lo.checked_add(one), Some(U256 { lo: 0, hi: 1 }));
    // and back down
    assert_eq!(U256 { lo: 0, hi: 1 }.checked_sub(one), Some(max_lo));
    // full overflow
    let max = U256 { lo: u128::MAX, hi: u128::MAX };
    assert_eq!(max.checked_add(one), None);
    // underflow
    assert_eq!(U256::zero().checked_sub(one), None);
    // plain addition
    assert_eq!(u(2).checked_add(u(3)), Some(u(5)));
    assert_eq!(u(5).checked_sub(u(3)), Some(u(2)));
}

#[test]
fn u256_comparisons() {
    let small = u(7);
    let big = U256 { lo: 0, hi: 1 };
    assert!(big.ge(small));
    assert!(!small.ge(big));
    assert!(small.ge(small));
    assert!(small.eq_val(u(7)));
    assert!(!small.eq_val(u(8)));
}

#[test]
fn from_status_code_protocol() {
    assert_eq!(TokenFungibleErr::from_status_code(0), Ok(()));
    assert_eq!(
        TokenFungibleErr::from_status_code(1),
        Err(TokenFungibleErr::FailCreateToken)
    );
    assert_eq!(TokenMultiErr::from_status_code(0), Ok(()));
    assert_eq!(TokenMultiErr::from_status_code(1), Err(TokenMultiErr::FailCreateToken));
    assert_eq!(NonFungibleErr::from_status_code(0), Ok(()));
    assert_eq!(NonFungibleErr::from_status_code(1), Err(NonFungibleErr::FailCreateToken));
}

#[test]
fn fungible_shell_forwards_and_logs() {
    let (a, b) = (acct(1), acct(2));
    let mut engine = TokenEngine::new();
    let mut shell = FungibleTokenExtension::new();
    assert_eq!(shell.get(), 0);
    shell
        .create_fungible_token(&mut engine, b"USD".to_vec(), b"USD".to_vec(), 2)
        .unwrap();
    assert_eq!(shell.get(), 1);
    assert_eq!(shell.created.len(), 1);
    assert_eq!(shell.created[0].fungible_token_id, 1);
    shell.mint_fungible_token(&mut engine, 1, a, u(100)).unwrap();
    assert_eq!(shell.minted.len(), 1);
    assert_eq!(shell.minted[0].fungible_token_id, 1);
    shell.transfer_fungible_token(&mut engine, a, 1, b, u(40)).unwrap();
    assert_eq!(get_balance(&engine.fungible[0].balances, a), u(60));
    assert_eq!(get_balance(&engine.fungible[0].balances, b), u(40));
    shell.approve_fungible_token(&mut engine, a, 1, b, u(5)).unwrap();
    shell
        .transfer_from_fungible_token(&mut engine, b, 1, a, b, u(5))
        .unwrap();
    shell.burn_fungible_token(&mut engine, 1, b, u(45)).unwrap();
    assert_eq!(get_balance(&engine.fungible[0].balances, b), u(0));
}

#[test]
fn nft_shell_forwards() {
    let (a, b, c) = (acct(1), acct(2), acct(3));
    let mut engine = TokenEngine::new();
    let mut shell = NonFungibleTokenExtension::new();
    shell
        .create_non_fungible_token(&mut engine, b"Art".to_vec(), b"ART".to_vec(), b"ipfs://".to_vec())
        .unwrap();
    assert_eq!(shell.get(), 1);
    shell.mint_non_fungible_token(&mut engine, 1, a, 7).unwrap();
    shell.approve_non_fungible_token(&mut engine, a, 1, b, 7).unwrap();
    shell
        .transfer_from_non_fungible_token(&mut engine, b, 1, a, c, 7)
        .unwrap();
    shell.approve_all_non_fungible_token(&mut engine, c, 1, a, true).unwrap();
    shell.burn_non_fungible_token(&mut engine, 1, 7).unwrap();
}

#[test]
fn multi_shell_forwards() {
    let (a, b) = (acct(1), acct(2));
    let mut engine = TokenEngine::new();
    let mut shell = MultiTokenExtension::new();
    shell.create_multi_token(&mut engine, b"ipfs://bag".to_vec()).unwrap();
    assert_eq!(shell.get(), 1);
    assert_eq!(shell.created[0].multi_token_id, 1);
    shell
        .mint_batch_multi_token(&mut engine, 1, a, vec![1, 2], vec![u(10), u(20)])
        .unwrap();
    shell.mint_multi_token(&mut engine, 1, a, 3, u(5)).unwrap();
    shell.approve_multi_token(&mut engine, a, 1, b, true).unwrap();
    shell
        .transfer_from_multi_token(&mut engine, b, 1, a, b, 1, u(4))
        .unwrap();
    shell
        .batch_transfer_from_multi_token(&mut engine, a, 1, a, b, vec![2], vec![u(20)])
        .unwrap();
    shell.burn_multi_token(&mut engine, b, 1, 2, u(20)).unwrap();
    shell
        .burn_batch_multi_token(&mut engine, a, 1, vec![1, 3], vec![u(6), u(5)])
        .unwrap();
}
