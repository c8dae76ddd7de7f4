//! Engine error kinds, the uniform status-code protocol, and the per-registry
//! error enums that callers of the dispatch surface decode statuses into.

use vstd::prelude::*;

verus! {

/// Every recoverable failure of an engine operation.
#[derive(Clone, Copy, PartialEq, Eq, Structural, Debug)]
pub enum TokenError {
    /// Identifier allocation exhausted.
    FailCreateToken,
    /// The token identifier names no registered token.
    UnknownToken,
    /// The caller may not move the subject.
    Unauthorized,
    /// The source balance is smaller than the amount.
    InsufficientBalance,
    /// The spender's allowance is smaller than the amount.
    InsufficientAllowance,
    /// Balance arithmetic would overflow 256 bits.
    ArithmeticError,
    /// Argument decoding failed or the argument shape is wrong.
    BadArgument,
}

impl TokenError {
    /// The wire status code of this error (success is 0, errors are 1..=7).
    pub open spec fn code_spec(self) -> u32 {
        match self {
            TokenError::FailCreateToken => 1u32,
            TokenError::UnknownToken => 2u32,
            TokenError::Unauthorized => 3u32,
            TokenError::InsufficientBalance => 4u32,
            TokenError::InsufficientAllowance => 5u32,
            TokenError::ArithmeticError => 6u32,
            TokenError::BadArgument => 7u32,
        }
    }

    /// Returns the wire status code of this error.
    pub fn code(self) -> (r: u32)
        ensures
            r == self.code_spec(),
            1 <= r <= 7,
    {
        match self {
            TokenError::FailCreateToken => 1,
            TokenError::UnknownToken => 2,
            TokenError::Unauthorized => 3,
            TokenError::InsufficientBalance => 4,
            TokenError::InsufficientAllowance => 5,
            TokenError::ArithmeticError => 6,
            TokenError::BadArgument => 7,
        }
    }
}

/// The status code of an operation outcome: 0 on success, the error's code
/// otherwise.
pub open spec fn status_of<T>(r: Result<T, TokenError>) -> u32 {
    match r {
        Ok(_) => 0u32,
        Err(e) => e.code_spec(),
    }
}

/// The fungible guest shell's error code type: the only status it can decode
/// beyond success is a failed token creation.
#[derive(Clone, Copy, PartialEq, Eq, Structural, Debug)]
pub enum TokenFungibleErr {
    FailCreateToken,
}

impl TokenFungibleErr {
    /// Decodes a status code in the uniform protocol. Status codes above 1
    /// are outside this shell's protocol and are excluded by precondition.
    pub fn from_status_code(status_code: u32) -> (r: Result<(), TokenFungibleErr>)
        requires
            status_code == 0 || status_code == 1,
        ensures
            status_code == 0 ==> r == Ok::<(), TokenFungibleErr>(()),
            status_code == 1 ==> r == Err::<(), TokenFungibleErr>(TokenFungibleErr::FailCreateToken),
    {
        if status_code == 0 {
            Ok(())
        } else {
            Err(TokenFungibleErr::FailCreateToken)
        }
    }
}

/// The multi-token guest shell's error code type.
#[derive(Clone, Copy, PartialEq, Eq, Structural, Debug)]
pub enum TokenMultiErr {
    FailCreateToken,
}

impl TokenMultiErr {
    /// Decodes a status code in the uniform protocol. Status codes above 1
    /// are outside this shell's protocol and are excluded by precondition.
    pub fn from_status_code(status_code: u32) -> (r: Result<(), TokenMultiErr>)
        requires
            status_code == 0 || status_code == 1,
        ensures
            status_code == 0 ==> r == Ok::<(), TokenMultiErr>(()),
            status_code == 1 ==> r == Err::<(), TokenMultiErr>(TokenMultiErr::FailCreateToken),
    {
        if status_code == 0 {
            Ok(())
        } else {
            Err(TokenMultiErr::FailCreateToken)
        }
    }
}

/// The non-fungible guest shell's error code type.
#[derive(Clone, Copy, PartialEq, Eq, Structural, Debug)]
pub enum NonFungibleErr {
    FailCreateToken,
}

impl NonFungibleErr {
    /// Decodes a status code in the uniform protocol. Status codes above 1
    /// are outside this shell's protocol and are excluded by precondition.
    pub fn from_status_code(status_code: u32) -> (r: Result<(), NonFungibleErr>)
        requires
            status_code == 0 || status_code == 1,
        ensures
            status_code == 0 ==> r == Ok::<(), NonFungibleErr>(()),
            status_code == 1 ==> r == Err::<(), NonFungibleErr>(NonFungibleErr::FailCreateToken),
    {
        if status_code == 0 {
            Ok(())
        } else {
            Err(NonFungibleErr::FailCreateToken)
        }
    }
}

} // verus!
