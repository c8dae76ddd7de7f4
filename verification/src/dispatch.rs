//! The extension dispatch surface: one entry point that decodes an opcode's
//! argument tuple, routes to the registry operation with the runtime-supplied
//! caller, and returns the uniform status code. Any non-zero status leaves
//! the engine, events included, exactly as before the call.

use vstd::prelude::*;
use crate::account::AccountId;
use crate::balance::U256;
use crate::codec::{
    sp_u32, sp_u256, sp_account, sp_u8, sp_bool, sp_bytes, sp_u32_seq, sp_u256_seq, read_u32,
    read_u256, read_account, read_u8, read_bool, read_bytes, read_u32_seq, read_u256_seq,
};
use crate::engine::TokenEngine;
use crate::errors::{TokenError, status_of};
use crate::events::Event;
use crate::fungible::{
    fungible_frame, fungible_balances_moved, fungible_balances_unchanged,
    fungible_allowances_unchanged, fungible_create_post, fungible_transfer_err,
    fungible_transfer_from_err,
};
use crate::nonfungible::{
    nft_frame, nft_owners_unchanged, nft_approvals_unchanged, nft_operators_unchanged,
    nft_may_move, nft_create_post,
};
use crate::multi::{
    multi_frame, mt_balances_unchanged, mt_operators_unchanged, mt_may_move, multi_create_post,
    multi_transfer_from_err, multi_batch_xfer_op_err, mt_map, mt_single_xfer, mt_batch_xfer,
    mt_batch_mint, mt_batch_burn,
};

verus! {

/// Opcodes of the fungible registry.
pub const OP_FUN_CREATE: u32 = 65537;

pub const OP_FUN_APPROVE: u32 = 65538;

pub const OP_FUN_TRANSFER: u32 = 65539;

pub const OP_FUN_TRANSFER_FROM: u32 = 65540;

pub const OP_FUN_MINT: u32 = 65541;

pub const OP_FUN_BURN: u32 = 65542;

/// Opcodes of the non-fungible registry.
pub const OP_NFT_CREATE: u32 = 65601;

pub const OP_NFT_APPROVE: u32 = 65602;

pub const OP_NFT_SET_APPROVAL_FOR_ALL: u32 = 65603;

pub const OP_NFT_TRANSFER_FROM: u32 = 65604;

pub const OP_NFT_MINT: u32 = 65605;

pub const OP_NFT_BURN: u32 = 65606;

/// Opcodes of the multi-token registry, as observed on the wire: the batch,
/// mint and burn block sits below the create block.
pub const OP_MT_CREATE: u32 = 65665;

pub const OP_MT_SET_APPROVAL_FOR_ALL: u32 = 65666;

pub const OP_MT_TRANSFER_FROM: u32 = 65667;

pub const OP_MT_BATCH_TRANSFER_FROM: u32 = 65568;

pub const OP_MT_MINT: u32 = 65569;

pub const OP_MT_MINT_BATCH: u32 = 65570;

pub const OP_MT_BURN: u32 = 65571;

pub const OP_MT_BURN_BATCH: u32 = 65572;

/// Argument tuple: two byte strings and a u8, the whole buffer.
pub open spec fn sp_args_bytes2_u8(s: Seq<u8>) -> Option<(Seq<u8>, Seq<u8>, u8)> {
    match sp_bytes(s, 0) {
        Some((b1, p1)) => match sp_bytes(s, p1) {
            Some((b2, p2)) => match sp_u8(s, p2) {
                Some((x, p3)) => if p3 == s.len() {
                    Some((b1, b2, x))
                } else {
                    None
                },
                None => None,
            },
            None => None,
        },
        None => None,
    }
}

/// Argument tuple: three byte strings.
pub open spec fn sp_args_bytes3(s: Seq<u8>) -> Option<(Seq<u8>, Seq<u8>, Seq<u8>)> {
    match sp_bytes(s, 0) {
        Some((b1, p1)) => match sp_bytes(s, p1) {
            Some((b2, p2)) => match sp_bytes(s, p2) {
                Some((b3, p3)) => if p3 == s.len() {
                    Some((b1, b2, b3))
                } else {
                    None
                },
                None => None,
            },
            None => None,
        },
        None => None,
    }
}

/// Argument tuple: one byte string.
pub open spec fn sp_args_bytes1(s: Seq<u8>) -> Option<Seq<u8>> {
    match sp_bytes(s, 0) {
        Some((b1, p1)) => if p1 == s.len() {
            Some(b1)
        } else {
            None
        },
        None => None,
    }
}

/// Argument tuple: token id, account, balance.
pub open spec fn sp_args_u32_acct_u256(s: Seq<u8>) -> Option<(u32, AccountId, U256)> {
    match sp_u32(s, 0) {
        Some((id, p1)) => match sp_account(s, p1) {
            Some((a, p2)) => match sp_u256(s, p2) {
                Some((x, p3)) => if p3 == s.len() {
                    Some((id, a, x))
                } else {
                    None
                },
                None => None,
            },
            None => None,
        },
        None => None,
    }
}

/// Argument tuple: token id, two accounts, balance.
pub open spec fn sp_args_u32_acct2_u256(s: Seq<u8>) -> Option<(u32, AccountId, AccountId, U256)> {
    match sp_u32(s, 0) {
        Some((id, p1)) => match sp_account(s, p1) {
            Some((a, p2)) => match sp_account(s, p2) {
                Some((b, p3)) => match sp_u256(s, p3) {
                    Some((x, p4)) => if p4 == s.len() {
                        Some((id, a, b, x))
                    } else {
                        None
                    },
                    None => None,
                },
                None => None,
            },
            None => None,
        },
        None => None,
    }
}

/// Argument tuple: token id, account, item id.
pub open spec fn sp_args_u32_acct_u32(s: Seq<u8>) -> Option<(u32, AccountId, u32)> {
    match sp_u32(s, 0) {
        Some((id, p1)) => match sp_account(s, p1) {
            Some((a, p2)) => match sp_u32(s, p2) {
                Some((x, p3)) => if p3 == s.len() {
                    Some((id, a, x))
                } else {
                    None
                },
                None => None,
            },
            None => None,
        },
        None => None,
    }
}

/// Argument tuple: token id, account, bool.
pub open spec fn sp_args_u32_acct_bool(s: Seq<u8>) -> Option<(u32, AccountId, bool)> {
    match sp_u32(s, 0) {
        Some((id, p1)) => match sp_account(s, p1) {
            Some((a, p2)) => match sp_bool(s, p2) {
                Some((x, p3)) => if p3 == s.len() {
                    Some((id, a, x))
                } else {
                    None
                },
                None => None,
            },
            None => None,
        },
        None => None,
    }
}

/// Argument tuple: token id, two accounts, item id.
pub open spec fn sp_args_u32_acct2_u32(s: Seq<u8>) -> Option<(u32, AccountId, AccountId, u32)> {
    match sp_u32(s, 0) {
        Some((id, p1)) => match sp_account(s, p1) {
            Some((a, p2)) => match sp_account(s, p2) {
                Some((b, p3)) => match sp_u32(s, p3) {
                    Some((x, p4)) => if p4 == s.len() {
                        Some((id, a, b, x))
                    } else {
                        None
                    },
                    None => None,
                },
                None => None,
            },
            None => None,
        },
        None => None,
    }
}

/// Argument tuple: token id, item id.
pub open spec fn sp_args_u32_u32(s: Seq<u8>) -> Option<(u32, u32)> {
    match sp_u32(s, 0) {
        Some((id, p1)) => match sp_u32(s, p1) {
            Some((x, p2)) => if p2 == s.len() {
                Some((id, x))
            } else {
                None
            },
            None => None,
        },
        None => None,
    }
}

/// Argument tuple: token id, two accounts, item id, balance.
pub open spec fn sp_args_u32_acct2_u32_u256(s: Seq<u8>) -> Option<
    (u32, AccountId, AccountId, u32, U256),
> {
    match sp_u32(s, 0) {
        Some((id, p1)) => match sp_account(s, p1) {
            Some((a, p2)) => match sp_account(s, p2) {
                Some((b, p3)) => match sp_u32(s, p3) {
                    Some((it, p4)) => match sp_u256(s, p4) {
                        Some((x, p5)) => if p5 == s.len() {
                            Some((id, a, b, it, x))
                        } else {
                            None
                        },
                        None => None,
                    },
                    None => None,
                },
                None => None,
            },
            None => None,
        },
        None => None,
    }
}

/// Argument tuple: token id, account, item id, balance.
pub open spec fn sp_args_u32_acct_u32_u256(s: Seq<u8>) -> Option<(u32, AccountId, u32, U256)> {
    match sp_u32(s, 0) {
        Some((id, p1)) => match sp_account(s, p1) {
            Some((a, p2)) => match sp_u32(s, p2) {
                Some((it, p3)) => match sp_u256(s, p3) {
                    Some((x, p4)) => if p4 == s.len() {
                        Some((id, a, it, x))
                    } else {
                        None
                    },
                    None => None,
                },
                None => None,
            },
            None => None,
        },
        None => None,
    }
}

/// Argument tuple: token id, item id, balance.
pub open spec fn sp_args_u32_u32_u256(s: Seq<u8>) -> Option<(u32, u32, U256)> {
    match sp_u32(s, 0) {
        Some((id, p1)) => match sp_u32(s, p1) {
            Some((it, p2)) => match sp_u256(s, p2) {
                Some((x, p3)) => if p3 == s.len() {
                    Some((id, it, x))
                } else {
                    None
                },
                None => None,
            },
            None => None,
        },
        None => None,
    }
}

/// Argument tuple: token id, two accounts, item ids, amounts.
pub open spec fn sp_args_u32_acct2_seqs(s: Seq<u8>) -> Option<
    (u32, AccountId, AccountId, Seq<u32>, Seq<U256>),
> {
    match sp_u32(s, 0) {
        Some((id, p1)) => match sp_account(s, p1) {
            Some((a, p2)) => match sp_account(s, p2) {
                Some((b, p3)) => match sp_u32_seq(s, p3) {
                    Some((its, p4)) => match sp_u256_seq(s, p4) {
                        Some((xs, p5)) => if p5 == s.len() {
                            Some((id, a, b, its, xs))
                        } else {
                            None
                        },
                        None => None,
                    },
                    None => None,
                },
                None => None,
            },
            None => None,
        },
        None => None,
    }
}

/// Argument tuple: token id, account, item ids, amounts.
pub open spec fn sp_args_u32_acct_seqs(s: Seq<u8>) -> Option<
    (u32, AccountId, Seq<u32>, Seq<U256>),
> {
    match sp_u32(s, 0) {
        Some((id, p1)) => match sp_account(s, p1) {
            Some((a, p2)) => match sp_u32_seq(s, p2) {
                Some((its, p3)) => match sp_u256_seq(s, p3) {
                    Some((xs, p4)) => if p4 == s.len() {
                        Some((id, a, its, xs))
                    } else {
                        None
                    },
                    None => None,
                },
                None => None,
            },
            None => None,
        },
        None => None,
    }
}

/// Argument tuple: token id, item ids, amounts.
pub open spec fn sp_args_u32_seqs(s: Seq<u8>) -> Option<(u32, Seq<u32>, Seq<U256>)> {
    match sp_u32(s, 0) {
        Some((id, p1)) => match sp_u32_seq(s, p1) {
            Some((its, p2)) => match sp_u256_seq(s, p2) {
                Some((xs, p3)) => if p3 == s.len() {
                    Some((id, its, xs))
                } else {
                    None
                },
                None => None,
            },
            None => None,
        },
        None => None,
    }
}

fn dec_bytes2_u8(args: &Vec<u8>) -> (r: Option<(Vec<u8>, Vec<u8>, u8)>)
    ensures
        match r {
            Some(t) => sp_args_bytes2_u8(args@) == Some((t.0@, t.1@, t.2)),
            None => sp_args_bytes2_u8(args@) is None,
        },
{
    let (b1, p1) = match read_bytes(args, 0) {
        Some(t) => t,
        None => {
            return None;
        },
    };
    let (b2, p2) = match read_bytes(args, p1) {
        Some(t) => t,
        None => {
            return None;
        },
    };
    let (x, p3) = match read_u8(args, p2) {
        Some(t) => t,
        None => {
            return None;
        },
    };
    if p3 == args.len() {
        Some((b1, b2, x))
    } else {
        None
    }
}

fn dec_bytes3(args: &Vec<u8>) -> (r: Option<(Vec<u8>, Vec<u8>, Vec<u8>)>)
    ensures
        match r {
            Some(t) => sp_args_bytes3(args@) == Some((t.0@, t.1@, t.2@)),
            None => sp_args_bytes3(args@) is None,
        },
{
    let (b1, p1) = match read_bytes(args, 0) {
        Some(t) => t,
        None => {
            return None;
        },
    };
    let (b2, p2) = match read_bytes(args, p1) {
        Some(t) => t,
        None => {
            return None;
        },
    };
    let (b3, p3) = match read_bytes(args, p2) {
        Some(t) => t,
        None => {
            return None;
        },
    };
    if p3 == args.len() {
        Some((b1, b2, b3))
    } else {
        None
    }
}

fn dec_bytes1(args: &Vec<u8>) -> (r: Option<Vec<u8>>)
    ensures
        match r {
            Some(t) => sp_args_bytes1(args@) == Some(t@),
            None => sp_args_bytes1(args@) is None,
        },
{
    let (b1, p1) = match read_bytes(args, 0) {
        Some(t) => t,
        None => {
            return None;
        },
    };
    if p1 == args.len() {
        Some(b1)
    } else {
        None
    }
}

fn dec_u32_acct_u256(args: &Vec<u8>) -> (r: Option<(u32, AccountId, U256)>)
    ensures
        match r {
            Some(t) => sp_args_u32_acct_u256(args@) == Some(t),
            None => sp_args_u32_acct_u256(args@) is None,
        },
{
    let (id, p1) = match read_u32(args, 0) {
        Some(t) => t,
        None => {
            return None;
        },
    };
    let (a, p2) = match read_account(args, p1) {
        Some(t) => t,
        None => {
            return None;
        },
    };
    let (x, p3) = match read_u256(args, p2) {
        Some(t) => t,
        None => {
            return None;
        },
    };
    if p3 == args.len() {
        Some((id, a, x))
    } else {
        None
    }
}

fn dec_u32_acct2_u256(args: &Vec<u8>) -> (r: Option<(u32, AccountId, AccountId, U256)>)
    ensures
        match r {
            Some(t) => sp_args_u32_acct2_u256(args@) == Some(t),
            None => sp_args_u32_acct2_u256(args@) is None,
        },
{
    let (id, p1) = match read_u32(args, 0) {
        Some(t) => t,
        None => {
            return None;
        },
    };
    let (a, p2) = match read_account(args, p1) {
        Some(t) => t,
        None => {
            return None;
        },
    };
    let (b, p3) = match read_account(args, p2) {
        Some(t) => t,
        None => {
            return None;
        },
    };
    let (x, p4) = match read_u256(args, p3) {
        Some(t) => t,
        None => {
            return None;
        },
    };
    if p4 == args.len() {
        Some((id, a, b, x))
    } else {
        None
    }
}

fn dec_u32_acct_u32(args: &Vec<u8>) -> (r: Option<(u32, AccountId, u32)>)
    ensures
        match r {
            Some(t) => sp_args_u32_acct_u32(args@) == Some(t),
            None => sp_args_u32_acct_u32(args@) is None,
        },
{
    let (id, p1) = match read_u32(args, 0) {
        Some(t) => t,
        None => {
            return None;
        },
    };
    let (a, p2) = match read_account(args, p1) {
        Some(t) => t,
        None => {
            return None;
        },
    };
    let (x, p3) = match read_u32(args, p2) {
        Some(t) => t,
        None => {
            return None;
        },
    };
    if p3 == args.len() {
        Some((id, a, x))
    } else {
        None
    }
}

fn dec_u32_acct_bool(args: &Vec<u8>) -> (r: Option<(u32, AccountId, bool)>)
    ensures
        match r {
            Some(t) => sp_args_u32_acct_bool(args@) == Some(t),
            None => sp_args_u32_acct_bool(args@) is None,
        },
{
    let (id, p1) = match read_u32(args, 0) {
        Some(t) => t,
        None => {
            return None;
        },
    };
    let (a, p2) = match read_account(args, p1) {
        Some(t) => t,
        None => {
            return None;
        },
    };
    let (x, p3) = match read_bool(args, p2) {
        Some(t) => t,
        None => {
            return None;
        },
    };
    if p3 == args.len() {
        Some((id, a, x))
    } else {
        None
    }
}

fn dec_u32_acct2_u32(args: &Vec<u8>) -> (r: Option<(u32, AccountId, AccountId, u32)>)
    ensures
        match r {
            Some(t) => sp_args_u32_acct2_u32(args@) == Some(t),
            None => sp_args_u32_acct2_u32(args@) is None,
        },
{
    let (id, p1) = match read_u32(args, 0) {
        Some(t) => t,
        None => {
            return None;
        },
    };
    let (a, p2) = match read_account(args, p1) {
        Some(t) => t,
        None => {
            return None;
        },
    };
    let (b, p3) = match read_account(args, p2) {
        Some(t) => t,
        None => {
            return None;
        },
    };
    let (x, p4) = match read_u32(args, p3) {
        Some(t) => t,
        None => {
            return None;
        },
    };
    if p4 == args.len() {
        Some((id, a, b, x))
    } else {
        None
    }
}

fn dec_u32_u32(args: &Vec<u8>) -> (r: Option<(u32, u32)>)
    ensures
        match r {
            Some(t) => sp_args_u32_u32(args@) == Some(t),
            None => sp_args_u32_u32(args@) is None,
        },
{
    let (id, p1) = match read_u32(args, 0) {
        Some(t) => t,
        None => {
            return None;
        },
    };
    let (x, p2) = match read_u32(args, p1) {
        Some(t) => t,
        None => {
            return None;
        },
    };
    if p2 == args.len() {
        Some((id, x))
    } else {
        None
    }
}

fn dec_u32_acct2_u32_u256(args: &Vec<u8>) -> (r: Option<(u32, AccountId, AccountId, u32, U256)>)
    ensures
        match r {
            Some(t) => sp_args_u32_acct2_u32_u256(args@) == Some(t),
            None => sp_args_u32_acct2_u32_u256(args@) is None,
        },
{
    let (id, p1) = match read_u32(args, 0) {
        Some(t) => t,
        None => {
            return None;
        },
    };
    let (a, p2) = match read_account(args, p1) {
        Some(t) => t,
        None => {
            return None;
        },
    };
    let (b, p3) = match read_account(args, p2) {
        Some(t) => t,
        None => {
            return None;
        },
    };
    let (it, p4) = match read_u32(args, p3) {
        Some(t) => t,
        None => {
            return None;
        },
    };
    let (x, p5) = match read_u256(args, p4) {
        Some(t) => t,
        None => {
            return None;
        },
    };
    if p5 == args.len() {
        Some((id, a, b, it, x))
    } else {
        None
    }
}

fn dec_u32_acct_u32_u256(args: &Vec<u8>) -> (r: Option<(u32, AccountId, u32, U256)>)
    ensures
        match r {
            Some(t) => sp_args_u32_acct_u32_u256(args@) == Some(t),
            None => sp_args_u32_acct_u32_u256(args@) is None,
        },
{
    let (id, p1) = match read_u32(args, 0) {
        Some(t) => t,
        None => {
            return None;
        },
    };
    let (a, p2) = match read_account(args, p1) {
        Some(t) => t,
        None => {
            return None;
        },
    };
    let (it, p3) = match read_u32(args, p2) {
        Some(t) => t,
        None => {
            return None;
        },
    };
    let (x, p4) = match read_u256(args, p3) {
        Some(t) => t,
        None => {
            return None;
        },
    };
    if p4 == args.len() {
        Some((id, a, it, x))
    } else {
        None
    }
}

fn dec_u32_u32_u256(args: &Vec<u8>) -> (r: Option<(u32, u32, U256)>)
    ensures
        match r {
            Some(t) => sp_args_u32_u32_u256(args@) == Some(t),
            None => sp_args_u32_u32_u256(args@) is None,
        },
{
    let (id, p1) = match read_u32(args, 0) {
        Some(t) => t,
        None => {
            return None;
        },
    };
    let (it, p2) = match read_u32(args, p1) {
        Some(t) => t,
        None => {
            return None;
        },
    };
    let (x, p3) = match read_u256(args, p2) {
        Some(t) => t,
        None => {
            return None;
        },
    };
    if p3 == args.len() {
        Some((id, it, x))
    } else {
        None
    }
}

fn dec_u32_acct2_seqs(args: &Vec<u8>) -> (r: Option<
    (u32, AccountId, AccountId, Vec<u32>, Vec<U256>),
>)
    ensures
        match r {
            Some(t) => sp_args_u32_acct2_seqs(args@) == Some((t.0, t.1, t.2, t.3@, t.4@)),
            None => sp_args_u32_acct2_seqs(args@) is None,
        },
{
    let (id, p1) = match read_u32(args, 0) {
        Some(t) => t,
        None => {
            return None;
        },
    };
    let (a, p2) = match read_account(args, p1) {
        Some(t) => t,
        None => {
            return None;
        },
    };
    let (b, p3) = match read_account(args, p2) {
        Some(t) => t,
        None => {
            return None;
        },
    };
    let (its, p4) = match read_u32_seq(args, p3) {
        Some(t) => t,
        None => {
            return None;
        },
    };
    let (xs, p5) = match read_u256_seq(args, p4) {
        Some(t) => t,
        None => {
            return None;
        },
    };
    if p5 == args.len() {
        Some((id, a, b, its, xs))
    } else {
        None
    }
}

fn dec_u32_acct_seqs(args: &Vec<u8>) -> (r: Option<(u32, AccountId, Vec<u32>, Vec<U256>)>)
    ensures
        match r {
            Some(t) => sp_args_u32_acct_seqs(args@) == Some((t.0, t.1, t.2@, t.3@)),
            None => sp_args_u32_acct_seqs(args@) is None,
        },
{
    let (id, p1) = match read_u32(args, 0) {
        Some(t) => t,
        None => {
            return None;
        },
    };
    let (a, p2) = match read_account(args, p1) {
        Some(t) => t,
        None => {
            return None;
        },
    };
    let (its, p3) = match read_u32_seq(args, p2) {
        Some(t) => t,
        None => {
            return None;
        },
    };
    let (xs, p4) = match read_u256_seq(args, p3) {
        Some(t) => t,
        None => {
            return None;
        },
    };
    if p4 == args.len() {
        Some((id, a, its, xs))
    } else {
        None
    }
}

fn dec_u32_seqs(args: &Vec<u8>) -> (r: Option<(u32, Vec<u32>, Vec<U256>)>)
    ensures
        match r {
            Some(t) => sp_args_u32_seqs(args@) == Some((t.0, t.1@, t.2@)),
            None => sp_args_u32_seqs(args@) is None,
        },
{
    let (id, p1) = match read_u32(args, 0) {
        Some(t) => t,
        None => {
            return None;
        },
    };
    let (its, p2) = match read_u32_seq(args, p1) {
        Some(t) => t,
        None => {
            return None;
        },
    };
    let (xs, p3) = match read_u256_seq(args, p2) {
        Some(t) => t,
        None => {
            return None;
        },
    };
    if p3 == args.len() {
        Some((id, its, xs))
    } else {
        None
    }
}

/// Maps an operation outcome to the uniform status code.
fn status_code<T>(r: &Result<T, TokenError>) -> (s: u32)
    ensures
        s == status_of(*r),
{
    match r {
        Ok(_) => 0,
        Err(e) => e.code(),
    }
}

/// Outcome of the fungible create opcode.
pub open spec fn dispatched_fungible_create(
    pre: TokenEngine,
    post: TokenEngine,
    args: Seq<u8>,
    status: u32,
) -> bool {
    match sp_args_bytes2_u8(args) {
        Some((name, symbol, decimals)) => if pre.fungible_count() < u32::MAX {
            &&& status == 0
            &&& fungible_create_post(
                pre,
                post,
                (pre.fungible_count() + 1) as u32,
                name,
                symbol,
                decimals,
            )
        } else {
            status == 1 && post == pre
        },
        None => status == 7 && post == pre,
    }
}

/// Outcome of the fungible approve opcode.
pub open spec fn dispatched_fungible_approve(
    pre: TokenEngine,
    post: TokenEngine,
    caller: AccountId,
    args: Seq<u8>,
    status: u32,
) -> bool {
    match sp_args_u32_acct_u256(args) {
        Some((id, spender, amount)) => if pre.fungible_exists(id) {
            &&& status == 0
            &&& fungible_frame(pre, post, id)
            &&& fungible_balances_unchanged(pre, post, id)
            &&& post.fun_supply(id) == pre.fun_supply(id)
            &&& post.fun_allowance(id, caller, spender) == amount.val()
            &&& forall|o: AccountId, p: AccountId|
                !(o == caller && p == spender) ==> post.fun_allowance(id, o, p)
                    == pre.fun_allowance(id, o, p)
            &&& post.events@ == pre.events@.push(
                Event::FungibleApproval { id, owner: caller, spender, amount },
            )
        } else {
            status == 2 && post == pre
        },
        None => status == 7 && post == pre,
    }
}

/// Outcome of the fungible transfer opcode.
pub open spec fn dispatched_fungible_transfer(
    pre: TokenEngine,
    post: TokenEngine,
    caller: AccountId,
    args: Seq<u8>,
    status: u32,
) -> bool {
    match sp_args_u32_acct_u256(args) {
        Some((id, to, amount)) => if pre.fungible_exists(id) && pre.fun_balance(id, caller)
            >= amount.val() {
            &&& status == 0
            &&& fungible_frame(pre, post, id)
            &&& fungible_balances_moved(pre, post, id, caller, to, amount.val())
            &&& post.fun_supply(id) == pre.fun_supply(id)
            &&& fungible_allowances_unchanged(pre, post, id)
            &&& post.events@ == pre.events@.push(
                Event::FungibleTransfer { id, from: Some(caller), to: Some(to), amount },
            )
        } else {
            status == fungible_transfer_err(pre, id).code_spec() && post == pre
        },
        None => status == 7 && post == pre,
    }
}

/// Outcome of the fungible transfer_from opcode.
pub open spec fn dispatched_fungible_transfer_from(
    pre: TokenEngine,
    post: TokenEngine,
    caller: AccountId,
    args: Seq<u8>,
    status: u32,
) -> bool {
    match sp_args_u32_acct2_u256(args) {
        Some((id, sender, to, amount)) => if pre.fungible_exists(id) && (caller == sender
            || pre.fun_allowance(id, sender, caller) >= amount.val()) && pre.fun_balance(id, sender)
            >= amount.val() {
            &&& status == 0
            &&& fungible_frame(pre, post, id)
            &&& fungible_balances_moved(pre, post, id, sender, to, amount.val())
            &&& post.fun_supply(id) == pre.fun_supply(id)
            &&& (if caller == sender {
                fungible_allowances_unchanged(pre, post, id)
            } else {
                &&& post.fun_allowance(id, sender, caller) == pre.fun_allowance(id, sender, caller)
                    - amount.val()
                &&& forall|o: AccountId, p: AccountId|
                    !(o == sender && p == caller) ==> post.fun_allowance(id, o, p)
                        == pre.fun_allowance(id, o, p)
            })
            &&& post.events@ == pre.events@.push(
                Event::FungibleTransfer { id, from: Some(sender), to: Some(to), amount },
            )
        } else {
            status == fungible_transfer_from_err(pre, id, caller, sender, amount).code_spec()
                && post == pre
        },
        None => status == 7 && post == pre,
    }
}

/// Outcome of the fungible mint opcode.
pub open spec fn dispatched_fungible_mint(
    pre: TokenEngine,
    post: TokenEngine,
    args: Seq<u8>,
    status: u32,
) -> bool {
    match sp_args_u32_acct_u256(args) {
        Some((id, account, amount)) => if pre.fungible_exists(id) && pre.fun_supply(id)
            + amount.val() < crate::balance::u256_limit() {
            &&& status == 0
            &&& fungible_frame(pre, post, id)
            &&& post.fun_balance(id, account) == pre.fun_balance(id, account) + amount.val()
            &&& forall|a: AccountId|
                a != account ==> post.fun_balance(id, a) == pre.fun_balance(id, a)
            &&& post.fun_supply(id) == pre.fun_supply(id) + amount.val()
            &&& fungible_allowances_unchanged(pre, post, id)
            &&& post.events@ == pre.events@.push(
                Event::FungibleTransfer { id, from: None, to: Some(account), amount },
            )
        } else {
            status == (if !pre.fungible_exists(id) {
                2u32
            } else {
                6u32
            }) && post == pre
        },
        None => status == 7 && post == pre,
    }
}

/// Outcome of the fungible burn opcode.
pub open spec fn dispatched_fungible_burn(
    pre: TokenEngine,
    post: TokenEngine,
    args: Seq<u8>,
    status: u32,
) -> bool {
    match sp_args_u32_acct_u256(args) {
        Some((id, account, amount)) => if pre.fungible_exists(id) && pre.fun_balance(id, account)
            >= amount.val() {
            &&& status == 0
            &&& fungible_frame(pre, post, id)
            &&& post.fun_balance(id, account) == pre.fun_balance(id, account) - amount.val()
            &&& forall|a: AccountId|
                a != account ==> post.fun_balance(id, a) == pre.fun_balance(id, a)
            &&& post.fun_supply(id) == pre.fun_supply(id) - amount.val()
            &&& fungible_allowances_unchanged(pre, post, id)
            &&& post.events@ == pre.events@.push(
                Event::FungibleTransfer { id, from: Some(account), to: None, amount },
            )
        } else {
            status == (if !pre.fungible_exists(id) {
                2u32
            } else {
                4u32
            }) && post == pre
        },
        None => status == 7 && post == pre,
    }
}

/// Outcome of the non-fungible create opcode.
pub open spec fn dispatched_nft_create(
    pre: TokenEngine,
    post: TokenEngine,
    args: Seq<u8>,
    status: u32,
) -> bool {
    match sp_args_bytes3(args) {
        Some((name, symbol, base_uri)) => if pre.nft_count() < u32::MAX {
            &&& status == 0
            &&& nft_create_post(pre, post, (pre.nft_count() + 1) as u32, name, symbol, base_uri)
        } else {
            status == 1 && post == pre
        },
        None => status == 7 && post == pre,
    }
}

/// Outcome of the non-fungible approve opcode.
pub open spec fn dispatched_nft_approve(
    pre: TokenEngine,
    post: TokenEngine,
    caller: AccountId,
    args: Seq<u8>,
    status: u32,
) -> bool {
    match sp_args_u32_acct_u32(args) {
        Some((id, to, item)) => if pre.nft_exists(id) && pre.nft_owner(id, item) == Some(caller) {
            &&& status == 0
            &&& nft_frame(pre, post, id)
            &&& nft_owners_unchanged(pre, post, id)
            &&& post.nft_approval(id, item) == Some(to)
            &&& forall|it: u32| it != item ==> post.nft_approval(id, it) == pre.nft_approval(id, it)
            &&& nft_operators_unchanged(pre, post, id)
            &&& post.events@ == pre.events@.push(
                Event::NonFungibleApproval { id, owner: caller, approved: to, item },
            )
        } else {
            status == (if !pre.nft_exists(id) {
                2u32
            } else {
                3u32
            }) && post == pre
        },
        None => status == 7 && post == pre,
    }
}

/// Outcome of the non-fungible set_approval_for_all opcode.
pub open spec fn dispatched_nft_set_approval_for_all(
    pre: TokenEngine,
    post: TokenEngine,
    caller: AccountId,
    args: Seq<u8>,
    status: u32,
) -> bool {
    match sp_args_u32_acct_bool(args) {
        Some((id, operator, approved)) => if pre.nft_exists(id) {
            &&& status == 0
            &&& nft_frame(pre, post, id)
            &&& nft_owners_unchanged(pre, post, id)
            &&& nft_approvals_unchanged(pre, post, id)
            &&& post.nft_operator(id, caller, operator) == approved
            &&& forall|o: AccountId, p: AccountId|
                !(o == caller && p == operator) ==> post.nft_operator(id, o, p) == pre.nft_operator(
                    id,
                    o,
                    p,
                )
            &&& post.events@ == pre.events@.push(
                Event::NonFungibleApprovalForAll { id, owner: caller, operator, approved },
            )
        } else {
            status == 2 && post == pre
        },
        None => status == 7 && post == pre,
    }
}

/// Outcome of the non-fungible transfer_from opcode.
pub open spec fn dispatched_nft_transfer_from(
    pre: TokenEngine,
    post: TokenEngine,
    caller: AccountId,
    args: Seq<u8>,
    status: u32,
) -> bool {
    match sp_args_u32_acct2_u32(args) {
        Some((id, from, to, item)) => if pre.nft_exists(id) && pre.nft_owner(id, item) == Some(from)
            && nft_may_move(pre, id, from, caller, item) {
            &&& status == 0
            &&& nft_frame(pre, post, id)
            &&& post.nft_owner(id, item) == Some(to)
            &&& forall|it: u32| it != item ==> post.nft_owner(id, it) == pre.nft_owner(id, it)
            &&& post.nft_approval(id, item) is None
            &&& forall|it: u32| it != item ==> post.nft_approval(id, it) == pre.nft_approval(id, it)
            &&& nft_operators_unchanged(pre, post, id)
            &&& post.events@ == pre.events@.push(
                Event::NonFungibleTransfer { id, from: Some(from), to: Some(to), item },
            )
        } else {
            status == (if !pre.nft_exists(id) {
                2u32
            } else {
                3u32
            }) && post == pre
        },
        None => status == 7 && post == pre,
    }
}

/// Outcome of the non-fungible mint opcode.
pub open spec fn dispatched_nft_mint(
    pre: TokenEngine,
    post: TokenEngine,
    args: Seq<u8>,
    status: u32,
) -> bool {
    match sp_args_u32_acct_u32(args) {
        Some((id, to, item)) => if pre.nft_exists(id) && pre.nft_owner(id, item) is None {
            &&& status == 0
            &&& nft_frame(pre, post, id)
            &&& post.nft_owner(id, item) == Some(to)
            &&& forall|it: u32| it != item ==> post.nft_owner(id, it) == pre.nft_owner(id, it)
            &&& nft_approvals_unchanged(pre, post, id)
            &&& nft_operators_unchanged(pre, post, id)
            &&& post.events@ == pre.events@.push(
                Event::NonFungibleTransfer { id, from: None, to: Some(to), item },
            )
        } else {
            status == (if !pre.nft_exists(id) {
                2u32
            } else {
                7u32
            }) && post == pre
        },
        None => status == 7 && post == pre,
    }
}

/// Outcome of the non-fungible burn opcode.
pub open spec fn dispatched_nft_burn(
    pre: TokenEngine,
    post: TokenEngine,
    args: Seq<u8>,
    status: u32,
) -> bool {
    match sp_args_u32_u32(args) {
        Some((id, item)) => if pre.nft_exists(id) && pre.nft_owner(id, item) is Some {
            &&& status == 0
            &&& nft_frame(pre, post, id)
            &&& post.nft_owner(id, item) is None
            &&& forall|it: u32| it != item ==> post.nft_owner(id, it) == pre.nft_owner(id, it)
            &&& post.nft_approval(id, item) is None
            &&& forall|it: u32| it != item ==> post.nft_approval(id, it) == pre.nft_approval(id, it)
            &&& nft_operators_unchanged(pre, post, id)
            &&& post.events@ == pre.events@.push(
                Event::NonFungibleTransfer { id, from: pre.nft_owner(id, item), to: None, item },
            )
        } else {
            status == 2 && post == pre
        },
        None => status == 7 && post == pre,
    }
}

/// Outcome of the multi-token create opcode.
pub open spec fn dispatched_multi_create(
    pre: TokenEngine,
    post: TokenEngine,
    args: Seq<u8>,
    status: u32,
) -> bool {
    match sp_args_bytes1(args) {
        Some(uri) => if pre.multi_count() < u32::MAX {
            &&& status == 0
            &&& multi_create_post(pre, post, (pre.multi_count() + 1) as u32, uri)
        } else {
            status == 1 && post == pre
        },
        None => status == 7 && post == pre,
    }
}

/// Outcome of the multi-token set_approval_for_all opcode.
pub open spec fn dispatched_multi_set_approval_for_all(
    pre: TokenEngine,
    post: TokenEngine,
    caller: AccountId,
    args: Seq<u8>,
    status: u32,
) -> bool {
    match sp_args_u32_acct_bool(args) {
        Some((id, operator, approved)) => if pre.multi_exists(id) {
            &&& status == 0
            &&& multi_frame(pre, post, id)
            &&& mt_balances_unchanged(pre, post, id)
            &&& post.mt_operator(id, caller, operator) == approved
            &&& forall|o: AccountId, p: AccountId|
                !(o == caller && p == operator) ==> post.mt_operator(id, o, p) == pre.mt_operator(
                    id,
                    o,
                    p,
                )
            &&& post.events@ == pre.events@.push(
                Event::MultiApprovalForAll { id, owner: caller, operator, approved },
            )
        } else {
            status == 2 && post == pre
        },
        None => status == 7 && post == pre,
    }
}

/// Outcome of the multi-token transfer_from opcode.
pub open spec fn dispatched_multi_transfer_from(
    pre: TokenEngine,
    post: TokenEngine,
    caller: AccountId,
    args: Seq<u8>,
    status: u32,
) -> bool {
    match sp_args_u32_acct2_u32_u256(args) {
        Some((id, from, to, item, amount)) => if pre.multi_exists(id) && mt_may_move(
            pre,
            id,
            from,
            caller,
        ) && mt_single_xfer(mt_map(pre.multi_at(id).balances@), from, to, item, amount) is Some {
            &&& status == 0
            &&& multi_frame(pre, post, id)
            &&& (if from == to {
                mt_balances_unchanged(pre, post, id)
            } else {
                &&& post.mt_balance(id, item, from) == pre.mt_balance(id, item, from)
                    - amount.val()
                &&& post.mt_balance(id, item, to) == pre.mt_balance(id, item, to) + amount.val()
                &&& forall|it: u32, a: AccountId|
                    !(it == item && a == from) && !(it == item && a == to) ==> post.mt_balance(
                        id,
                        it,
                        a,
                    ) == pre.mt_balance(id, it, a)
            })
            &&& mt_operators_unchanged(pre, post, id)
            &&& post.events@ == pre.events@.push(
                Event::MultiTransferSingle {
                    id,
                    operator: caller,
                    from: Some(from),
                    to: Some(to),
                    item,
                    amount,
                },
            )
        } else {
            status == multi_transfer_from_err(pre, caller, id, from, to, item, amount).code_spec()
                && post == pre
        },
        None => status == 7 && post == pre,
    }
}

/// Outcome of the multi-token batch_transfer_from opcode.
pub open spec fn dispatched_multi_batch_transfer_from(
    pre: TokenEngine,
    post: TokenEngine,
    caller: AccountId,
    args: Seq<u8>,
    status: u32,
) -> bool {
    match sp_args_u32_acct2_seqs(args) {
        Some((id, from, to, items, amounts)) => if pre.multi_exists(id) && items.len()
            == amounts.len() && mt_may_move(pre, id, from, caller) && mt_batch_xfer(
            mt_map(pre.multi_at(id).balances@),
            from,
            to,
            items,
            amounts,
        ) is Some {
            &&& status == 0
            &&& multi_frame(pre, post, id)
            &&& (mt_batch_xfer(
                mt_map(pre.multi_at(id).balances@),
                from,
                to,
                items,
                amounts,
            ) matches Some(m2) && mt_map(post.multi_at(id).balances@) == m2)
            &&& mt_operators_unchanged(pre, post, id)
            &&& post.events@.len() == pre.events@.len() + 1
            &&& pre.events@.is_prefix_of(post.events@)
            &&& (post.events@.last() matches Event::MultiTransferBatch {
                id: eid,
                operator: eop,
                from: ef,
                to: et,
                items: eitems,
                amounts: eamounts,
            } && eid == id && eop == caller && ef == Some(from) && et == Some(to) && eitems@
                == items && eamounts@ == amounts)
        } else {
            status == multi_batch_xfer_op_err(pre, caller, id, from, to, items, amounts).code_spec()
                && post == pre
        },
        None => status == 7 && post == pre,
    }
}

/// Outcome of the multi-token mint opcode.
pub open spec fn dispatched_multi_mint(
    pre: TokenEngine,
    post: TokenEngine,
    args: Seq<u8>,
    status: u32,
) -> bool {
    match sp_args_u32_acct_u32_u256(args) {
        Some((id, to, item, amount)) => if pre.multi_exists(id) && pre.mt_balance(id, item, to)
            + amount.val() < crate::balance::u256_limit() {
            &&& status == 0
            &&& multi_frame(pre, post, id)
            &&& post.mt_balance(id, item, to) == pre.mt_balance(id, item, to) + amount.val()
            &&& forall|it: u32, a: AccountId|
                !(it == item && a == to) ==> post.mt_balance(id, it, a) == pre.mt_balance(id, it, a)
            &&& mt_operators_unchanged(pre, post, id)
            &&& post.events@ == pre.events@.push(
                Event::MultiTransferSingle {
                    id,
                    operator: to,
                    from: None,
                    to: Some(to),
                    item,
                    amount,
                },
            )
        } else {
            status == (if !pre.multi_exists(id) {
                2u32
            } else {
                6u32
            }) && post == pre
        },
        None => status == 7 && post == pre,
    }
}

/// Outcome of the multi-token mint_batch opcode.
pub open spec fn dispatched_multi_mint_batch(
    pre: TokenEngine,
    post: TokenEngine,
    args: Seq<u8>,
    status: u32,
) -> bool {
    match sp_args_u32_acct_seqs(args) {
        Some((id, to, items, amounts)) => if pre.multi_exists(id) && items.len() == amounts.len()
            && mt_batch_mint(mt_map(pre.multi_at(id).balances@), to, items, amounts) is Some {
            &&& status == 0
            &&& multi_frame(pre, post, id)
            &&& (mt_batch_mint(
                mt_map(pre.multi_at(id).balances@),
                to,
                items,
                amounts,
            ) matches Some(m2) && mt_map(post.multi_at(id).balances@) == m2)
            &&& mt_operators_unchanged(pre, post, id)
            &&& post.events@.len() == pre.events@.len() + 1
            &&& pre.events@.is_prefix_of(post.events@)
            &&& (post.events@.last() matches Event::MultiTransferBatch {
                id: eid,
                operator: eop,
                from: ef,
                to: et,
                items: eitems,
                amounts: eamounts,
            } && eid == id && eop == to && ef == None::<AccountId> && et == Some(to) && eitems@
                == items && eamounts@ == amounts)
        } else {
            status == (if !pre.multi_exists(id) {
                2u32
            } else if items.len() != amounts.len() {
                7u32
            } else {
                6u32
            }) && post == pre
        },
        None => status == 7 && post == pre,
    }
}

/// Outcome of the multi-token burn opcode.
pub open spec fn dispatched_multi_burn(
    pre: TokenEngine,
    post: TokenEngine,
    caller: AccountId,
    args: Seq<u8>,
    status: u32,
) -> bool {
    match sp_args_u32_u32_u256(args) {
        Some((id, item, amount)) => if pre.multi_exists(id) && pre.mt_balance(id, item, caller)
            >= amount.val() {
            &&& status == 0
            &&& multi_frame(pre, post, id)
            &&& post.mt_balance(id, item, caller) == pre.mt_balance(id, item, caller)
                - amount.val()
            &&& forall|it: u32, a: AccountId|
                !(it == item && a == caller) ==> post.mt_balance(id, it, a) == pre.mt_balance(
                    id,
                    it,
                    a,
                )
            &&& mt_operators_unchanged(pre, post, id)
            &&& post.events@ == pre.events@.push(
                Event::MultiTransferSingle {
                    id,
                    operator: caller,
                    from: Some(caller),
                    to: None,
                    item,
                    amount,
                },
            )
        } else {
            status == (if !pre.multi_exists(id) {
                2u32
            } else {
                4u32
            }) && post == pre
        },
        None => status == 7 && post == pre,
    }
}

/// Outcome of the multi-token burn_batch opcode.
pub open spec fn dispatched_multi_burn_batch(
    pre: TokenEngine,
    post: TokenEngine,
    caller: AccountId,
    args: Seq<u8>,
    status: u32,
) -> bool {
    match sp_args_u32_seqs(args) {
        Some((id, items, amounts)) => if pre.multi_exists(id) && items.len() == amounts.len()
            && mt_batch_burn(mt_map(pre.multi_at(id).balances@), caller, items, amounts) is Some {
            &&& status == 0
            &&& multi_frame(pre, post, id)
            &&& (mt_batch_burn(
                mt_map(pre.multi_at(id).balances@),
                caller,
                items,
                amounts,
            ) matches Some(m2) && mt_map(post.multi_at(id).balances@) == m2)
            &&& mt_operators_unchanged(pre, post, id)
            &&& post.events@.len() == pre.events@.len() + 1
            &&& pre.events@.is_prefix_of(post.events@)
            &&& (post.events@.last() matches Event::MultiTransferBatch {
                id: eid,
                operator: eop,
                from: ef,
                to: et,
                items: eitems,
                amounts: eamounts,
            } && eid == id && eop == caller && ef == Some(caller) && et == None::<AccountId>
                && eitems@ == items && eamounts@ == amounts)
        } else {
            status == (if !pre.multi_exists(id) {
                2u32
            } else if items.len() != amounts.len() {
                7u32
            } else {
                4u32
            }) && post == pre
        },
        None => status == 7 && post == pre,
    }
}

impl TokenEngine {
    /// The single host-to-engine entry point: decodes the opcode's argument
    /// tuple, runs the operation with the runtime-supplied caller, and
    /// returns the uniform status code. An unknown opcode or an argument
    /// tuple that does not decode exactly reports status 7; any non-zero
    /// status leaves the whole engine, events included, unchanged.
    pub fn dispatch(&mut self, opcode: u32, caller: AccountId, args: &Vec<u8>) -> (status: u32)
        requires
            old(self).wf(),
        ensures
            final(self).wf(),
            status != 0 ==> *final(self) == *old(self),
            opcode == OP_FUN_CREATE ==> dispatched_fungible_create(
                *old(self),
                *final(self),
                args@,
                status,
            ),
            opcode == OP_FUN_APPROVE ==> dispatched_fungible_approve(
                *old(self),
                *final(self),
                caller,
                args@,
                status,
            ),
            opcode == OP_FUN_TRANSFER ==> dispatched_fungible_transfer(
                *old(self),
                *final(self),
                caller,
                args@,
                status,
            ),
            opcode == OP_FUN_TRANSFER_FROM ==> dispatched_fungible_transfer_from(
                *old(self),
                *final(self),
                caller,
                args@,
                status,
            ),
            opcode == OP_FUN_MINT ==> dispatched_fungible_mint(
                *old(self),
                *final(self),
                args@,
                status,
            ),
            opcode == OP_FUN_BURN ==> dispatched_fungible_burn(
                *old(self),
                *final(self),
                args@,
                status,
            ),
            opcode == OP_NFT_CREATE ==> dispatched_nft_create(
                *old(self),
                *final(self),
                args@,
                status,
            ),
            opcode == OP_NFT_APPROVE ==> dispatched_nft_approve(
                *old(self),
                *final(self),
                caller,
                args@,
                status,
            ),
            opcode == OP_NFT_SET_APPROVAL_FOR_ALL ==> dispatched_nft_set_approval_for_all(
                *old(self),
                *final(self),
                caller,
                args@,
                status,
            ),
            opcode == OP_NFT_TRANSFER_FROM ==> dispatched_nft_transfer_from(
                *old(self),
                *final(self),
                caller,
                args@,
                status,
            ),
            opcode == OP_NFT_MINT ==> dispatched_nft_mint(*old(self), *final(self), args@, status),
            opcode == OP_NFT_BURN ==> dispatched_nft_burn(*old(self), *final(self), args@, status),
            opcode == OP_MT_CREATE ==> dispatched_multi_create(
                *old(self),
                *final(self),
                args@,
                status,
            ),
            opcode == OP_MT_SET_APPROVAL_FOR_ALL ==> dispatched_multi_set_approval_for_all(
                *old(self),
                *final(self),
                caller,
                args@,
                status,
            ),
            opcode == OP_MT_TRANSFER_FROM ==> dispatched_multi_transfer_from(
                *old(self),
                *final(self),
                caller,
                args@,
                status,
            ),
            opcode == OP_MT_BATCH_TRANSFER_FROM ==> dispatched_multi_batch_transfer_from(
                *old(self),
                *final(self),
                caller,
                args@,
                status,
            ),
            opcode == OP_MT_MINT ==> dispatched_multi_mint(
                *old(self),
                *final(self),
                args@,
                status,
            ),
            opcode == OP_MT_MINT_BATCH ==> dispatched_multi_mint_batch(
                *old(self),
                *final(self),
                args@,
                status,
            ),
            opcode == OP_MT_BURN ==> dispatched_multi_burn(
                *old(self),
                *final(self),
                caller,
                args@,
                status,
            ),
            opcode == OP_MT_BURN_BATCH ==> dispatched_multi_burn_batch(
                *old(self),
                *final(self),
                caller,
                args@,
                status,
            ),
            !(opcode == OP_FUN_CREATE || opcode == OP_FUN_APPROVE || opcode == OP_FUN_TRANSFER
                || opcode == OP_FUN_TRANSFER_FROM || opcode == OP_FUN_MINT || opcode == OP_FUN_BURN
                || opcode == OP_NFT_CREATE || opcode == OP_NFT_APPROVE || opcode
                == OP_NFT_SET_APPROVAL_FOR_ALL || opcode == OP_NFT_TRANSFER_FROM || opcode
                == OP_NFT_MINT || opcode == OP_NFT_BURN || opcode == OP_MT_CREATE || opcode
                == OP_MT_SET_APPROVAL_FOR_ALL || opcode == OP_MT_TRANSFER_FROM || opcode
                == OP_MT_BATCH_TRANSFER_FROM || opcode == OP_MT_MINT || opcode == OP_MT_MINT_BATCH
                || opcode == OP_MT_BURN || opcode == OP_MT_BURN_BATCH)
                ==> status == 7 && *final(self) == *old(self),
    {
        if opcode == OP_FUN_CREATE {
            match dec_bytes2_u8(args) {
                Some((name, symbol, decimals)) => {
                    let r = self.fungible_create(name, symbol, decimals);
                    status_code(&r)
                },
                None => 7,
            }
        } else if opcode == OP_FUN_APPROVE {
            match dec_u32_acct_u256(args) {
                Some((id, spender, amount)) => {
                    let r = self.fungible_approve(caller, id, spender, amount);
                    status_code(&r)
                },
                None => 7,
            }
        } else if opcode == OP_FUN_TRANSFER {
            match dec_u32_acct_u256(args) {
                Some((id, to, amount)) => {
                    let r = self.fungible_transfer(caller, id, to, amount);
                    status_code(&r)
                },
                None => 7,
            }
        } else if opcode == OP_FUN_TRANSFER_FROM {
            match dec_u32_acct2_u256(args) {
                Some((id, sender, to, amount)) => {
                    let r = self.fungible_transfer_from(caller, id, sender, to, amount);
                    status_code(&r)
                },
                None => 7,
            }
        } else if opcode == OP_FUN_MINT {
            match dec_u32_acct_u256(args) {
                Some((id, account, amount)) => {
                    let r = self.fungible_mint(id, account, amount);
                    status_code(&r)
                },
                None => 7,
            }
        } else if opcode == OP_FUN_BURN {
            match dec_u32_acct_u256(args) {
                Some((id, account, amount)) => {
                    let r = self.fungible_burn(id, account, amount);
                    status_code(&r)
                },
                None => 7,
            }
        } else if opcode == OP_NFT_CREATE {
            match dec_bytes3(args) {
                Some((name, symbol, base_uri)) => {
                    let r = self.nft_create(name, symbol, base_uri);
                    status_code(&r)
                },
                None => 7,
            }
        } else if opcode == OP_NFT_APPROVE {
            match dec_u32_acct_u32(args) {
                Some((id, to, item)) => {
                    let r = self.nft_approve(caller, id, to, item);
                    status_code(&r)
                },
                None => 7,
            }
        } else if opcode == OP_NFT_SET_APPROVAL_FOR_ALL {
            match dec_u32_acct_bool(args) {
                Some((id, operator, approved)) => {
                    let r = self.nft_set_approval_for_all(caller, id, operator, approved);
                    status_code(&r)
                },
                None => 7,
            }
        } else if opcode == OP_NFT_TRANSFER_FROM {
            match dec_u32_acct2_u32(args) {
                Some((id, from, to, item)) => {
                    let r = self.nft_transfer_from(caller, id, from, to, item);
                    status_code(&r)
                },
                None => 7,
            }
        } else if opcode == OP_NFT_MINT {
            match dec_u32_acct_u32(args) {
                Some((id, to, item)) => {
                    let r = self.nft_mint(id, to, item);
                    status_code(&r)
                },
                None => 7,
            }
        } else if opcode == OP_NFT_BURN {
            match dec_u32_u32(args) {
                Some((id, item)) => {
                    let r = self.nft_burn(id, item);
                    status_code(&r)
                },
                None => 7,
            }
        } else if opcode == OP_MT_CREATE {
            match dec_bytes1(args) {
                Some(uri) => {
                    let r = self.multi_create(uri);
                    status_code(&r)
                },
                None => 7,
            }
        } else if opcode == OP_MT_SET_APPROVAL_FOR_ALL {
            match dec_u32_acct_bool(args) {
                Some((id, operator, approved)) => {
                    let r = self.multi_set_approval_for_all(caller, id, operator, approved);
                    status_code(&r)
                },
                None => 7,
            }
        } else if opcode == OP_MT_TRANSFER_FROM {
            match dec_u32_acct2_u32_u256(args) {
                Some((id, from, to, item, amount)) => {
                    let r = self.multi_transfer_from(caller, id, from, to, item, amount);
                    status_code(&r)
                },
                None => 7,
            }
        } else if opcode == OP_MT_BATCH_TRANSFER_FROM {
            match dec_u32_acct2_seqs(args) {
                Some((id, from, to, token_ids, amounts)) => {
                    let r = self.multi_batch_transfer_from(caller, id, from, to, token_ids, amounts);
                    status_code(&r)
                },
                None => 7,
            }
        } else if opcode == OP_MT_MINT {
            match dec_u32_acct_u32_u256(args) {
                Some((id, to, item, amount)) => {
                    let r = self.multi_mint(id, to, item, amount);
                    status_code(&r)
                },
                None => 7,
            }
        } else if opcode == OP_MT_MINT_BATCH {
            match dec_u32_acct_seqs(args) {
                Some((id, to, token_ids, amounts)) => {
                    let r = self.multi_mint_batch(id, to, token_ids, amounts);
                    status_code(&r)
                },
                None => 7,
            }
        } else if opcode == OP_MT_BURN {
            match dec_u32_u32_u256(args) {
                Some((id, item, amount)) => {
                    let r = self.multi_burn(caller, id, item, amount);
                    status_code(&r)
                },
                None => 7,
            }
        } else if opcode == OP_MT_BURN_BATCH {
            match dec_u32_seqs(args) {
                Some((id, token_ids, amounts)) => {
                    let r = self.multi_burn_batch(caller, id, token_ids, amounts);
                    status_code(&r)
                },
                None => 7,
            }
        } else {
            7
        }
    }
}

} // verus!
