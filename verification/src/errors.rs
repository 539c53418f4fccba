//! Operation failures. Every failure is reported to the caller and
//! leaves the ledgers unchanged.

use vstd::prelude::*;

verus! {

/// Why a pool operation was refused.
#[derive(Clone, Copy, Debug, PartialEq, Eq, Structural)]
pub enum AMMError {
    /// The referenced pool identifier is not registered.
    PoolNotFound,
    /// A withdrawal exceeds the provider's recorded shares, or a
    /// deposit or creation amount is non-positive or too large to
    /// account for.
    InsufficientLiquidity,
    /// Option indices are out of range or identical, a reserve is
    /// empty, or the swap would exhaust the destination reserve.
    InvalidSwap,
    /// The realized output fell below the caller-specified minimum.
    SlippageTooHigh,
    /// A pool-creation deposit is below the configured floor.
    MinLiquidityNotMet,
}

impl AMMError {
    /// A short description of the failure.
    pub fn describe(self) -> (r: &'static str)
        ensures
            true,
    {
        match self {
            AMMError::PoolNotFound => "Pool does not exist",
            AMMError::InsufficientLiquidity => "Insufficient liquidity",
            AMMError::InvalidSwap => "Invalid swap parameters",
            AMMError::SlippageTooHigh => "Slippage too high",
            AMMError::MinLiquidityNotMet => "Minimum liquidity not met",
        }
    }
}

} // verus!
