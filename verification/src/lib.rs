//! A host-side token engine: three token registries (fungible, non-fungible,
//! multi-token) with balances, approvals, events, and a numbered-opcode
//! dispatch surface, all behind verified contracts.

pub mod account;
pub mod balance;
pub mod errors;
pub mod events;
pub mod fungible;
pub mod operators;
pub mod nonfungible;
pub mod multi;
pub mod engine;
pub mod codec;
pub mod dispatch;
pub mod extensions;
