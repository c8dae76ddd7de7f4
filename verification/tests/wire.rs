use token_engine::account::AccountId;
use token_engine::balance::U256;
use token_engine::dispatch::{
    OP_FUN_CREATE, OP_FUN_MINT, OP_FUN_TRANSFER, OP_FUN_APPROVE, OP_FUN_TRANSFER_FROM,
    OP_MT_CREATE, OP_MT_MINT_BATCH, OP_MT_BATCH_TRANSFER_FROM, OP_NFT_CREATE, OP_NFT_MINT,
};
use token_engine::engine::TokenEngine;
use token_engine::fungible::{get_balance, get_allowance};
use token_engine::multi::get_cell;

fn acct(x: u64) -> AccountId {
    AccountId::from_words(x, 0, 0, 0)
}

fn u(x: u128) -> U256 {
    U256::from_u128(x)
}

fn enc_u32(out: &mut Vec<u8>, x: u32) {
    out.extend_from_slice(&x.to_le_bytes());
}

fn enc_u256(out: &mut Vec<u8>, x: U256) {
    out.extend_from_slice(&x.lo.to_le_bytes());
    out.extend_from_slice(&x.hi.to_le_bytes());
}

fn enc_account(out: &mut Vec<u8>, a: AccountId) {
    out.extend_from_slice(&a.w0.to_le_bytes());
    out.extend_from_slice(&a.w1.to_le_bytes());
    out.extend_from_slice(&a.w2.to_le_bytes());
    out.extend_from_slice(&a.w3.to_le_bytes());
}

fn enc_bytes(out: &mut Vec<u8>, b: &[u8]) {
    enc_u32(out, b.len() as u32);
    out.extend_from_slice(b);
}

fn enc_u32_seq(out: &mut Vec<u8>, xs: &[u32]) {
    enc_u32(out, xs.len() as u32);
    for x in xs {
        enc_u32(out, *x);
    }
}

fn enc_u256_seq(out: &mut Vec<u8>, xs: &[U256]) {
    enc_u32(out, xs.len() as u32);
    for x in xs {
        enc_u256(out, *x);
    }
}

fn bal(e: &TokenEngine, id: u32, a: AccountId) -> U256 {
    get_balance(&e.fungible[(id - 1) as usize].balances, a)
}

#[test]
fn dispatch_fungible_scenario_over_the_wire() {
    let (a, b, c) = (acct(1), acct(2), acct(3));
    let mut e = TokenEngine::new();

    let mut args = Vec::new();
    enc_bytes(&mut args, b"USD");
    enc_bytes(&mut args, b"USD");
    args.push(2u8);
    assert_eq!(e.dispatch(OP_FUN_CREATE, a, &args), 0);

    let mut args = Vec::new();
    enc_u32(&mut args, 1);
    enc_account(&mut args, a);
    enc_u256(&mut args, u(100));
    assert_eq!(e.dispatch(OP_FUN_MINT, a, &args), 0);
    assert_eq!(bal(&e, 1, a), u(100));

    let mut args = Vec::new();
    enc_u32(&mut args, 1);
    enc_account(&mut args, b);
    enc_u256(&mut args, u(40));
    assert_eq!(e.dispatch(OP_FUN_TRANSFER, a, &args), 0);
    assert_eq!(bal(&e, 1, a), u(60));
    assert_eq!(bal(&e, 1, b), u(40));

    let mut args = Vec::new();
    enc_u32(&mut args, 1);
    enc_account(&mut args, c);
    enc_u256(&mut args, u(25));
    assert_eq!(e.dispatch(OP_FUN_APPROVE, a, &args), 0);

    // transfer_from over the allowance: status 5, state untouched
    let mut args = Vec::new();
    enc_u32(&mut args, 1);
    enc_account(&mut args, a);
    enc_account(&mut args, b);
    enc_u256(&mut args, u(30));
    let events_before = e.events.len();
    assert_eq!(e.dispatch(OP_FUN_TRANSFER_FROM, c, &args), 5);
    assert_eq!(e.events.len(), events_before);
    assert_eq!(bal(&e, 1, a), u(60));

    // within the allowance: status 0, allowance decremented
    let mut args = Vec::new();
    enc_u32(&mut args, 1);
    enc_account(&mut args, a);
    enc_account(&mut args, b);
    enc_u256(&mut args, u(10));
    assert_eq!(e.dispatch(OP_FUN_TRANSFER_FROM, c, &args), 0);
    assert_eq!(bal(&e, 1, a), u(50));
    assert_eq!(bal(&e, 1, b), u(50));
    assert_eq!(get_allowance(&e.fungible[0].allowances, a, c), u(15));
}

#[test]
fn dispatch_rejects_unknown_opcode_and_bad_arguments() {
    let a = acct(1);
    let mut e = TokenEngine::new();
    // unknown opcode
    assert_eq!(e.dispatch(1, a, &vec![]), 7);
    // truncated argument tuple
    let mut args = Vec::new();
    enc_u32(&mut args, 1);
    assert_eq!(e.dispatch(OP_FUN_TRANSFER, a, &args), 7);
    // trailing garbage after a valid tuple
    let mut args = Vec::new();
    enc_bytes(&mut args, b"N");
    enc_bytes(&mut args, b"N");
    args.push(0u8);
    args.push(9u8);
    assert_eq!(e.dispatch(OP_FUN_CREATE, a, &args), 7);
    // nothing happened at all
    assert_eq!(e.events.len(), 0);
    assert_eq!(e.fungible.len(), 0);
}

#[test]
fn dispatch_unknown_token_status() {
    let a = acct(1);
    let mut e = TokenEngine::new();
    let mut args = Vec::new();
    enc_u32(&mut args, 3);
    enc_account(&mut args, a);
    enc_u256(&mut args, u(5));
    assert_eq!(e.dispatch(OP_FUN_TRANSFER, a, &args), 2);
}

#[test]
fn dispatch_multi_batch_over_the_wire() {
    let (a, b) = (acct(1), acct(2));
    let mut e = TokenEngine::new();

    let mut args = Vec::new();
    enc_bytes(&mut args, b"ipfs://bag");
    assert_eq!(e.dispatch(OP_MT_CREATE, a, &args), 0);

    let mut args = Vec::new();
    enc_u32(&mut args, 1);
    enc_account(&mut args, a);
    enc_u32_seq(&mut args, &[1, 2]);
    enc_u256_seq(&mut args, &[u(10), u(20)]);
    assert_eq!(e.dispatch(OP_MT_MINT_BATCH, a, &args), 0);

    // one failing sub-transfer fails the whole batch with status 4
    let mut args = Vec::new();
    enc_u32(&mut args, 1);
    enc_account(&mut args, a);
    enc_account(&mut args, b);
    enc_u32_seq(&mut args, &[1, 2]);
    enc_u256_seq(&mut args, &[u(5), u(30)]);
    assert_eq!(e.dispatch(OP_MT_BATCH_TRANSFER_FROM, a, &args), 4);
    assert_eq!(get_cell(&e.multi[0].balances, 1, a), u(10));
    assert_eq!(get_cell(&e.multi[0].balances, 2, a), u(20));

    // unequal sequence lengths: status 7
    let mut args = Vec::new();
    enc_u32(&mut args, 1);
    enc_account(&mut args, a);
    enc_account(&mut args, b);
    enc_u32_seq(&mut args, &[1, 2]);
    enc_u256_seq(&mut args, &[u(5)]);
    assert_eq!(e.dispatch(OP_MT_BATCH_TRANSFER_FROM, a, &args), 7);
}

#[test]
fn dispatch_nft_over_the_wire() {
    let a = acct(1);
    let mut e = TokenEngine::new();
    let mut args = Vec::new();
    enc_bytes(&mut args, b"Art");
    enc_bytes(&mut args, b"ART");
    enc_bytes(&mut args, b"ipfs://");
    assert_eq!(e.dispatch(OP_NFT_CREATE, a, &args), 0);

    let mut args = Vec::new();
    enc_u32(&mut args, 1);
    enc_account(&mut args, a);
    enc_u32(&mut args, 7);
    assert_eq!(e.dispatch(OP_NFT_MINT, a, &args), 0);
    // minting the same item again: status 7
    assert_eq!(e.dispatch(OP_NFT_MINT, a, &args), 7);
}

#[test]
fn dispatch_rejects_invalid_bool_byte() {
    let a = acct(1);
    let mut e = TokenEngine::new();
    let mut args = Vec::new();
    enc_bytes(&mut args, b"u");
    assert_eq!(e.dispatch(OP_MT_CREATE, a, &args), 0);
    let mut args = Vec::new();
    enc_u32(&mut args, 1);
    enc_account(&mut args, acct(2));
    args.push(2u8); // not a valid bool encoding
    assert_eq!(
        e.dispatch(token_engine::dispatch::OP_MT_SET_APPROVAL_FOR_ALL, a, &args),
        7
    );
}

#[test]
fn dispatch_decodes_full_width_values() {
    // an account with four distinct words and an amount above 128 bits
    let a = AccountId::from_words(
        0x0102030405060708,
        0x1112131415161718,
        0x2122232425262728,
        0x3132333435363738,
    );
    let big = U256 { lo: 7, hi: 3 };
    let mut e = TokenEngine::new();
    let mut args = Vec::new();
    enc_bytes(&mut args, b"T");
    enc_bytes(&mut args, b"T");
    args.push(0u8);
    assert_eq!(e.dispatch(OP_FUN_CREATE, a, &args), 0);
    let mut args = Vec::new();
    enc_u32(&mut args, 1);
    enc_account(&mut args, a);
    enc_u256(&mut args, big);
    assert_eq!(e.dispatch(OP_FUN_MINT, a, &args), 0);
    assert_eq!(bal(&e, 1, a), big);
    // a different account decodes to a different balance cell
    assert_eq!(bal(&e, 1, acct(9)), u(0));
}
