//! Ledger records: the per-market pool and the per-provider position.
//!
//! Market and provider identities are opaque, equality-comparable
//! tokens supplied by the host environment; the ledger carries them as
//! plain integers.

use vstd::prelude::*;

use crate::amount::{units_of, Amount};

verus! {

/// The reserve set and accounting state of one multi-outcome market.
#[derive(Clone, Debug)]
pub struct LiquidityPool {
    /// Identifier of the market this pool serves.
    pub market_chain: u64,
    /// Sum of all provider contributions net of withdrawals. Not the
    /// sum of the reserves: fees are withheld separately.
    pub total_liquidity: Amount,
    /// One reserve per option; the index is the option index.
    pub option_reserves: Vec<Amount>,
    /// The stored reserve product, recomputed after every liquidity
    /// change and held constant across swaps.
    pub k_constant: u128,
    /// Cumulative fees withheld from swap inputs; never decreases.
    pub fee_collected: Amount,
    /// Cumulative gross swap input; never decreases.
    pub total_volume: Amount,
}

/// One provider's proportional claim on a pool.
#[derive(Clone, Copy, Debug, PartialEq, Eq, Structural)]
pub struct LPPosition {
    /// The provider's claim, in the same unit as `total_liquidity`.
    pub shares: Amount,
    /// Logical timestamp of the last deposit event.
    pub deposited_at: u64,
    /// Snapshot of `k_constant` at deposit time, kept for later
    /// analysis by external consumers.
    pub initial_k: u128,
}

impl LiquidityPool {
    /// The reserves as a sequence of raw unit counts.
    pub open spec fn reserve_units(self) -> Seq<int> {
        units_of(self.option_reserves@)
    }

    /// A pool always tracks at least two mutually exclusive options.
    pub open spec fn wf(self) -> bool {
        self.option_reserves.len() >= 2
    }

    /// The number of options this pool tracks.
    pub fn num_options(&self) -> (n: usize)
        ensures
            n == self.option_reserves.len(),
    {
        self.option_reserves.len()
    }
}

} // verus!
