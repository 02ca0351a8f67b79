//! Errors of the pool instructions.

use vstd::prelude::*;

use crate::utils::cpmm::CurveError;

verus! {

#[derive(Debug, Clone, Copy, PartialEq, Eq, Structural)]
pub enum AmmError {
    /// Pool is locked: deposits, withdrawals, and swaps are disabled.
    PoolLocked,
    /// Amount must be greater than zero.
    InvalidAmount,
    /// Fee must be lower than 10000 basis points (100%).
    InvalidFee,
    /// mint_a must be strictly less than mint_b (and the two must differ).
    InvalidMintOrder,
    /// Signer is not the configured pool authority.
    Unauthorized,
    /// This pool has no authority and cannot be locked or unlocked.
    NoAuthority,
    /// Slippage tolerance exceeded: result is outside the requested min/max bounds.
    SlippageExceeded,
    /// The pool has no liquidity for this operation.
    NoLiquidity,
    /// Insufficient balance for the requested operation.
    InsufficientBalance,
    /// Curve precision is invalid.
    InvalidPrecision,
    /// Arithmetic overflow or underflow during curve calculation.
    MathOverflow,
    /// Mint carries a Token-2022 extension this AMM does not support (transfer
    /// fee, transfer hook, non-transferable, default-frozen, permanent
    /// delegate, or confidential transfer).
    UnsupportedMintExtension,
}

/// The pool error that a curve error is reported as.
pub open spec fn curve_error_to_amm(err: CurveError) -> AmmError {
    match err {
        CurveError::InvalidPrecision => AmmError::InvalidPrecision,
        CurveError::Overflow => AmmError::MathOverflow,
        CurveError::Underflow => AmmError::MathOverflow,
        CurveError::InvalidFeeAmount => AmmError::InvalidFee,
        CurveError::InsufficientBalance => AmmError::InsufficientBalance,
        CurveError::ZeroBalance => AmmError::NoLiquidity,
        CurveError::SlippageLimitExceeded => AmmError::SlippageExceeded,
    }
}

/// A curve result with its error reported as a pool error.
pub open spec fn lift<T>(r: Result<T, CurveError>) -> Result<T, AmmError> {
    match r {
        Ok(v) => Ok(v),
        Err(e) => Err(curve_error_to_amm(e)),
    }
}

impl From<CurveError> for AmmError {
    fn from(err: CurveError) -> (r: Self) {
        match err {
            CurveError::InvalidPrecision => AmmError::InvalidPrecision,
            CurveError::Overflow => AmmError::MathOverflow,
            CurveError::Underflow => AmmError::MathOverflow,
            CurveError::InvalidFeeAmount => AmmError::InvalidFee,
            CurveError::InsufficientBalance => AmmError::InsufficientBalance,
            CurveError::ZeroBalance => AmmError::NoLiquidity,
            CurveError::SlippageLimitExceeded => AmmError::SlippageExceeded,
        }
    }
}

impl vstd::std_specs::convert::FromSpecImpl<CurveError> for AmmError {
    open spec fn obeys_from_spec() -> bool {
        true
    }

    open spec fn from_spec(v: CurveError) -> AmmError {
        curve_error_to_amm(v)
    }
}

} // verus!
