//! Errors of the pool program.
use vstd::prelude::*;

verus! {

/// Every way in which a pool operation can be refused.
#[derive(Clone, Copy, Debug, PartialEq, Eq, Structural)]
pub enum AmmError {
    InvalidProgramAddress,
    InvalidOwner,
    ExpectedMint,
    ExpectedAccount,
    InvalidTokenProgramId,
    InvalidInstruction,
    InvalidSignAccount,
    InvalidVault,
    InvalidMint,
    InvalidStatus,
    InsufficientFunds,
    InvalidInput,
    PoolExist,
    PoolLock,
    InvalidAmount,
    NoFee,
    InvalidDirection,
    CalculationError,
    OutOfTolerance,
    NoughtTransfer,
    InvalidPDA,
    InvalidAccountData,
}

} // verus!
