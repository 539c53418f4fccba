//! The pool engine: ledgers, configuration and the five operations.
//!
//! Each operation loads the addressed pool, applies the pricing or
//! share-accounting formulas, validates the result, stores the updated
//! records, and queues an outbound notification. An operation either
//! completes atomically or fails and leaves every ledger unchanged.
//!
//! Identities (market, provider) are opaque equality-comparable tokens
//! from the host, carried as plain integers. Timestamps are logical
//! values supplied by the host with each deposit.

use vstd::prelude::*;

use crate::amount::{sat_add_units, units_of, Amount, UNIT};
use crate::arith::{mul_div_sat, sat64};
use crate::errors::AMMError;
use crate::pool::{LPPosition, LiquidityPool};
use crate::pricing::{
    compute_swap, spec_amount_out, spec_fee, spec_new_from, spec_new_to, swap_ok,
};
use crate::prod::sat_prod;

verus! {

/// Pool-wide configuration, fixed at engine construction.
#[derive(Clone, Copy, Debug, PartialEq, Eq, Structural)]
pub struct AMMParameters {
    /// Fraction of every swap input withheld as fee, in units per
    /// `UNIT`; always strictly below `UNIT`.
    pub fee_rate: u64,
    /// Smallest admissible pool-creation deposit.
    pub min_liquidity: Amount,
}

impl AMMParameters {
    pub open spec fn wf(self) -> bool {
        self.fee_rate < UNIT
    }
}

/// One provider's entry in a pool's position ledger.
#[derive(Clone, Copy, Debug, PartialEq, Eq, Structural)]
pub struct LpEntry {
    pub provider: u64,
    pub position: LPPosition,
}

/// A registered pool together with its position ledger.
#[derive(Clone, Debug)]
pub struct PoolEntry {
    pub pool: LiquidityPool,
    pub positions: Vec<LpEntry>,
}

/// An outbound notification, delivered asynchronously by the host
/// messaging layer. Emission is best effort: no invariant of the
/// engine depends on delivery.
#[derive(Clone, Copy, Debug, PartialEq, Eq, Structural)]
pub enum Message {
    PoolCreated { market: u64, liquidity: Amount },
    SwapExecuted { market: u64, from: u8, to: u8, amount_in: Amount, amount_out: Amount },
    LiquidityAdded { market: u64, provider: u64, amount: Amount, shares: Amount },
}

/// The sum of all recorded shares in a position ledger, in raw units.
pub open spec fn sum_shares(ps: Seq<LpEntry>) -> int
    decreases ps.len(),
{
    if ps.len() == 0 {
        0
    } else {
        sum_shares(ps.drop_last()) + ps.last().position.shares.units
    }
}

/// Each provider holds at most one position per pool.
pub open spec fn positions_unique(ps: Seq<LpEntry>) -> bool {
    forall|i: int, j: int| 0 <= i < j < ps.len() ==> ps[i].provider != ps[j].provider
}

/// Each market identifier registers at most one pool.
pub open spec fn pools_unique(pools: Seq<PoolEntry>) -> bool {
    forall|i: int, j: int|
        0 <= i < j < pools.len() ==> pools[i].pool.market_chain != pools[j].pool.market_chain
}

/// A registered pool is well formed and its recorded shares sum
/// exactly to its `total_liquidity` (share conservation).
pub open spec fn entry_wf(e: PoolEntry) -> bool {
    &&& e.pool.wf()
    &&& positions_unique(e.positions@)
    &&& sum_shares(e.positions@) == e.pool.total_liquidity.units
}

pub open spec fn has_position(ps: Seq<LpEntry>, provider: int) -> bool {
    exists|i: int| 0 <= i < ps.len() && ps[i].provider == provider
}

pub open spec fn position_index(ps: Seq<LpEntry>, provider: int) -> int {
    choose|i: int| 0 <= i < ps.len() && ps[i].provider == provider
}

pub proof fn lemma_sum_shares_update(ps: Seq<LpEntry>, i: int, e: LpEntry)
    requires
        0 <= i < ps.len(),
    ensures
        sum_shares(ps.update(i, e)) == sum_shares(ps) - ps[i].position.shares.units
            + e.position.shares.units,
    decreases ps.len(),
{
    let u = ps.update(i, e);
    if i == ps.len() - 1 {
        assert(u.drop_last() =~= ps.drop_last());
    } else {
        assert(u.drop_last() =~= ps.drop_last().update(i, e));
        lemma_sum_shares_update(ps.drop_last(), i, e);
        assert(u.last() == ps.last());
    }
}

pub proof fn lemma_sum_shares_push(ps: Seq<LpEntry>, e: LpEntry)
    ensures
        sum_shares(ps.push(e)) == sum_shares(ps) + e.position.shares.units,
{
    assert(ps.push(e).drop_last() =~= ps);
}

pub proof fn lemma_sum_shares_nonneg(ps: Seq<LpEntry>)
    ensures
        sum_shares(ps) >= 0,
    decreases ps.len(),
{
    if ps.len() > 0 {
        lemma_sum_shares_nonneg(ps.drop_last());
    }
}

/// No single position exceeds the ledger's total.
pub proof fn lemma_entry_le_sum(ps: Seq<LpEntry>, i: int)
    requires
        0 <= i < ps.len(),
    ensures
        ps[i].position.shares.units <= sum_shares(ps),
    decreases ps.len(),
{
    if i == ps.len() - 1 {
        lemma_sum_shares_nonneg(ps.drop_last());
    } else {
        lemma_entry_le_sum(ps.drop_last(), i);
        assert(ps.drop_last()[i] == ps[i]);
    }
}

/// The reserves of a freshly created pool: the deposit split evenly
/// across the options, with the division remainder assigned to option
/// 0 so that the reserves sum exactly to the deposit.
pub open spec fn init_reserves(n: int, l: int) -> Seq<int> {
    Seq::new(n as nat, |i: int| if i == 0 { l / n + l % n } else { l / n })
}

/// What `create_pool` registers: evenly split reserves, the recomputed
/// reserve product, zeroed fee and volume counters, and a single
/// position crediting the whole deposit to the creator.
pub open spec fn created_entry(
    e: PoolEntry,
    market: int,
    n: int,
    l: int,
    provider: int,
    now: int,
) -> bool {
    &&& e.pool.market_chain == market
    &&& e.pool.total_liquidity.units == l
    &&& e.pool.option_reserves@.len() == n
    &&& e.pool.reserve_units() == init_reserves(n, l)
    &&& e.pool.k_constant as int == sat_prod(init_reserves(n, l))
    &&& e.pool.fee_collected.units == 0
    &&& e.pool.total_volume.units == 0
    &&& e.positions@.len() == 1
    &&& e.positions@[0].provider == provider
    &&& e.positions@[0].position.shares.units == l
    &&& e.positions@[0].position.deposited_at == now
    &&& e.positions@[0].position.initial_k == e.pool.k_constant
}

/// A reserve scaled up by the deposit ratio `a / t`, truncated, and
/// clamped to the `u64` range from above.
pub open spec fn add_scaled(r: int, a: int, t: int) -> int {
    sat64(r + r * a / t)
}

/// A reserve scaled down by the withdrawal ratio `s / t`, truncated.
pub open spec fn rem_scaled(r: int, s: int, t: int) -> int {
    r - r * s / t
}

/// The position ledger after a deposit: the provider's entry grows by
/// the minted shares and records the deposit time and the pool's new
/// reserve product; a first-time provider is appended.
pub open spec fn upsert_position(
    ps: Seq<LpEntry>,
    ps2: Seq<LpEntry>,
    provider: int,
    a: int,
    now: int,
    k: int,
) -> bool {
    if has_position(ps, provider) {
        let i = position_index(ps, provider);
        ps2 == ps.update(
            i,
            LpEntry {
                provider: provider as u64,
                position: LPPosition {
                    shares: Amount { units: (ps[i].position.shares.units + a) as u64 },
                    deposited_at: now as u64,
                    initial_k: k as u128,
                },
            },
        )
    } else {
        ps2 == ps.push(
            LpEntry {
                provider: provider as u64,
                position: LPPosition {
                    shares: Amount { units: a as u64 },
                    deposited_at: now as u64,
                    initial_k: k as u128,
                },
            },
        )
    }
}

/// What a deposit of `a` units does to a pool entry: shares minted
/// pro rata to the existing share supply (here exactly `a`, since
/// shares and liquidity share one unit), every reserve scaled up by
/// `a / t`, and the reserve product recomputed.
pub open spec fn add_liquidity_applied(
    e: PoolEntry,
    e2: PoolEntry,
    a: int,
    provider: int,
    now: int,
) -> bool {
    let t = e.pool.total_liquidity.units as int;
    &&& e2.pool.market_chain == e.pool.market_chain
    &&& e2.pool.total_liquidity.units == t + a
    &&& e2.pool.option_reserves@.len() == e.pool.option_reserves@.len()
    &&& (forall|i: int|
        0 <= i < e.pool.option_reserves@.len() ==> #[trigger] e2.pool.reserve_units()[i]
            == add_scaled(e.pool.reserve_units()[i], a, t))
    &&& e2.pool.k_constant as int == sat_prod(e2.pool.reserve_units())
    &&& e2.pool.fee_collected == e.pool.fee_collected
    &&& e2.pool.total_volume == e.pool.total_volume
    &&& upsert_position(e.positions@, e2.positions@, provider, a, now, e2.pool.k_constant as int)
}

/// What burning `s` shares does to a pool entry: the provider's
/// position and the liquidity total shrink by exactly `s` (the
/// withdrawal `t * (s / t)` is `s`), every reserve is scaled down by
/// `s / t`, and the reserve product is recomputed.
pub open spec fn remove_liquidity_applied(e: PoolEntry, e2: PoolEntry, s: int, provider: int) -> bool {
    let t = e.pool.total_liquidity.units as int;
    let i = position_index(e.positions@, provider);
    &&& e2.pool.market_chain == e.pool.market_chain
    &&& e2.pool.total_liquidity.units == t - s
    &&& e2.pool.option_reserves@.len() == e.pool.option_reserves@.len()
    &&& (forall|j: int|
        0 <= j < e.pool.option_reserves@.len() ==> #[trigger] e2.pool.reserve_units()[j]
            == rem_scaled(e.pool.reserve_units()[j], s, t))
    &&& e2.pool.k_constant as int == sat_prod(e2.pool.reserve_units())
    &&& e2.pool.fee_collected == e.pool.fee_collected
    &&& e2.pool.total_volume == e.pool.total_volume
    &&& e2.positions@ == e.positions@.update(
        i,
        LpEntry {
            provider: e.positions@[i].provider,
            position: LPPosition {
                shares: Amount { units: (e.positions@[i].position.shares.units - s) as u64 },
                deposited_at: e.positions@[i].position.deposited_at,
                initial_k: e.positions@[i].position.initial_k,
            },
        },
    )
}

/// What a committed swap does to a pool entry: the two priced
/// reserves are stored, the stored reserve product is left untouched
/// (swaps preserve it; only liquidity changes recompute it), the fee
/// and gross volume counters grow, and liquidity and positions are
/// untouched.
pub open spec fn swap_applied(
    e: PoolEntry,
    e2: PoolEntry,
    from: int,
    to: int,
    amount: int,
    fee_rate: int,
) -> bool {
    let rs = e.pool.reserve_units();
    let nf = spec_new_from(rs[from], amount, fee_rate);
    let nt = spec_new_to(rs[from], rs[to], nf);
    &&& e2.pool.market_chain == e.pool.market_chain
    &&& e2.pool.total_liquidity == e.pool.total_liquidity
    &&& e2.pool.reserve_units() == rs.update(from, nf).update(to, nt)
    &&& e2.pool.k_constant == e.pool.k_constant
    &&& e2.pool.fee_collected.units == sat_add_units(
        e.pool.fee_collected.units as int,
        spec_fee(amount, fee_rate),
    )
    &&& e2.pool.total_volume.units == sat_add_units(e.pool.total_volume.units as int, amount)
    &&& e2.positions == e.positions
}

/// The option a single-index quote trades against: the lowest option
/// index other than the quoted one.
pub open spec fn spec_counterpart(option_index: int) -> int {
    if option_index == 0 {
        1
    } else {
        0
    }
}

/// The pool engine.
pub struct AmmState {
    pub params: AMMParameters,
    pub pools: Vec<PoolEntry>,
    /// Outbound notifications queued for the host to drain.
    pub outbox: Vec<Message>,
    /// Number of pool creations performed.
    pub total_pools: u64,
    /// Cumulative gross swap input across all pools.
    pub total_volume: Amount,
}

impl AmmState {
    /// Engine-wide well-formedness: valid configuration, unique pool
    /// identifiers, and share conservation in every pool.
    pub open spec fn wf(self) -> bool {
        &&& self.params.wf()
        &&& pools_unique(self.pools@)
        &&& forall|i: int| 0 <= i < self.pools@.len() ==> entry_wf(#[trigger] self.pools@[i])
    }

    pub open spec fn has_pool(self, market: int) -> bool {
        exists|i: int|
            0 <= i < self.pools@.len() && self.pools@[i].pool.market_chain == market
    }

    /// The index of the pool registered for `market` (meaningful only
    /// when `has_pool` holds; unique by `pools_unique`).
    pub open spec fn pool_index(self, market: int) -> int {
        choose|i: int|
            0 <= i < self.pools@.len() && self.pools@[i].pool.market_chain == market
    }

    pub open spec fn pool_entry_of(self, market: int) -> PoolEntry {
        self.pools@[self.pool_index(market)]
    }

    /// A fresh engine with no pools and an empty outbox.
    pub fn new(params: AMMParameters) -> (s: AmmState)
        requires
            params.wf(),
        ensures
            s.wf(),
            s.params == params,
            s.pools@.len() == 0,
            s.outbox@.len() == 0,
            s.total_pools == 0,
            s.total_volume.units == 0,
    {
        AmmState {
            params,
            pools: Vec::new(),
            outbox: Vec::new(),
            total_pools: 0,
            total_volume: Amount::zero(),
        }
    }

    /// Locates the pool registered for `market`.
    pub fn find_pool(&self, market: u64) -> (r: Option<usize>)
        ensures
            match r {
                Some(i) => i < self.pools@.len() && self.pools@[i as int].pool.market_chain
                    == market,
                None => !self.has_pool(market as int),
            },
    {
        let mut idx: usize = 0;
        while idx < self.pools.len()
            invariant
                0 <= idx <= self.pools@.len(),
                forall|j: int|
                    0 <= j < idx ==> self.pools@[j].pool.market_chain != market,
            decreases self.pools@.len() - idx,
        {
            if self.pools[idx].pool.market_chain == market {
                return Some(idx);
            }
            idx = idx + 1;
        }
        None
    }

    /// Registers a pool for `market`: splits the deposit evenly across
    /// the options (remainder to option 0), computes the reserve
    /// product, credits the whole deposit to the creator as shares,
    /// and queues a `PoolCreated` notification. Fails with
    /// `MinLiquidityNotMet` below the configured floor and with
    /// `InsufficientLiquidity` on a zero deposit; failures leave the
    /// engine unchanged. Creating over an existing identifier replaces
    /// that pool and its position ledger wholesale.
    pub fn create_pool(
        &mut self,
        market: u64,
        num_options: u8,
        initial_liquidity: Amount,
        provider: u64,
        now: u64,
    ) -> (r: Result<(), AMMError>)
        requires
            old(self).wf(),
            num_options >= 2,
        ensures
            final(self).wf(),
            r == Err::<(), AMMError>(AMMError::MinLiquidityNotMet) <==> initial_liquidity.units
                < old(self).params.min_liquidity.units,
            r == Err::<(), AMMError>(AMMError::InsufficientLiquidity) <==> (initial_liquidity.units
                >= old(self).params.min_liquidity.units && initial_liquidity.units == 0),
            r is Ok <==> (initial_liquidity.units >= old(self).params.min_liquidity.units
                && initial_liquidity.units > 0),
            r is Err ==> *final(self) == *old(self),
            r is Ok ==> ({
                let l = initial_liquidity.units as int;
                let n = num_options as int;
                &&& (if old(self).has_pool(market as int) {
                    &&& final(self).pools@.len() == old(self).pools@.len()
                    &&& (forall|j: int|
                        0 <= j < old(self).pools@.len() && old(
                            self,
                        ).pools@[j].pool.market_chain != market ==> final(self).pools@[j] == old(
                            self,
                        ).pools@[j])
                    &&& (forall|j: int|
                        0 <= j < old(self).pools@.len() && old(
                            self,
                        ).pools@[j].pool.market_chain == market ==> created_entry(
                            #[trigger] final(self).pools@[j],
                            market as int,
                            n,
                            l,
                            provider as int,
                            now as int,
                        ))
                } else {
                    &&& final(self).pools@.len() == old(self).pools@.len() + 1
                    &&& (forall|j: int|
                        0 <= j < old(self).pools@.len() ==> final(self).pools@[j] == old(
                            self,
                        ).pools@[j])
                    &&& created_entry(
                        final(self).pools@[old(self).pools@.len() as int],
                        market as int,
                        n,
                        l,
                        provider as int,
                        now as int,
                    )
                })
                &&& final(self).outbox@ == old(self).outbox@.push(
                    Message::PoolCreated { market, liquidity: initial_liquidity },
                )
                &&& final(self).total_pools as int == sat_add_units(
                    old(self).total_pools as int,
                    1,
                )
                &&& final(self).total_volume == old(self).total_volume
                &&& final(self).params == old(self).params
            }),
    {
        if initial_liquidity.lt(self.params.min_liquidity) {
            return Err(AMMError::MinLiquidityNotMet);
        }
        if initial_liquidity.is_zero() {
            return Err(AMMError::InsufficientLiquidity);
        }
        let n64 = num_options as u64;
        let l = initial_liquidity.units;
        let per = l / n64;
        let rem = l % n64;
        proof {
            vstd::arithmetic::div_mod::lemma_fundamental_div_mod(l as int, n64 as int);
            assert(n64 as int * (per as int) >= per as int) by (nonlinear_arith)
                requires
                    n64 >= 1,
                    per >= 0,
            ;
        }
        let first = per + rem;
        let mut reserves: Vec<Amount> = Vec::new();
        reserves.push(Amount::from_units(first));
        let mut idx: usize = 1;
        while idx < num_options as usize
            invariant
                1 <= idx <= num_options as usize,
                reserves@.len() == idx,
                reserves@[0].units == l as int / n64 as int + l as int % n64 as int,
                forall|j: int| 1 <= j < idx ==> reserves@[j].units == l as int / n64 as int,
                n64 == num_options as u64,
                per == l as int / n64 as int,
                rem == l as int % n64 as int,
            decreases num_options as usize - idx,
        {
            reserves.push(Amount::from_units(per));
            idx = idx + 1;
        }
        let ghost n_int = num_options as int;
        let ghost l_int = l as int;
        proof {
            assert(units_of(reserves@) =~= init_reserves(n_int, l_int));
        }
        let k = crate::prod::compute_k(&reserves);
        let pool = LiquidityPool {
            market_chain: market,
            total_liquidity: initial_liquidity,
            option_reserves: reserves,
            k_constant: k,
            fee_collected: Amount::zero(),
            total_volume: Amount::zero(),
        };
        let creator = LpEntry {
            provider,
            position: LPPosition { shares: initial_liquidity, deposited_at: now, initial_k: k },
        };
        let mut positions: Vec<LpEntry> = Vec::new();
        positions.push(creator);
        let entry = PoolEntry { pool, positions };
        proof {
            assert(entry.positions@.drop_last() =~= Seq::<LpEntry>::empty());
            assert(sum_shares(Seq::<LpEntry>::empty()) == 0);
            assert(sum_shares(entry.positions@) == sum_shares(entry.positions@.drop_last())
                + entry.positions@.last().position.shares.units);
            assert(sum_shares(entry.positions@) == initial_liquidity.units);
        }
        match self.find_pool(market) {
            Some(i) => {
                self.pools[i] = entry;
            },
            None => {
                self.pools.push(entry);
            },
        }
        self.outbox.push(Message::PoolCreated { market, liquidity: initial_liquidity });
        self.total_pools = if self.total_pools < u64::MAX {
            self.total_pools + 1
        } else {
            u64::MAX
        };
        Ok(())
    }

    /// Locates the provider's entry in a position ledger.
    fn find_position(positions: &Vec<LpEntry>, provider: u64) -> (r: Option<usize>)
        ensures
            match r {
                Some(i) => i < positions@.len() && positions@[i as int].provider == provider,
                None => !has_position(positions@, provider as int),
            },
    {
        let mut idx: usize = 0;
        while idx < positions.len()
            invariant
                0 <= idx <= positions@.len(),
                forall|j: int| 0 <= j < idx ==> positions@[j].provider != provider,
            decreases positions@.len() - idx,
        {
            if positions[idx].provider == provider {
                return Some(idx);
            }
            idx = idx + 1;
        }
        None
    }

    /// Deposits `amount` into the pool registered for `market`: mints
    /// shares pro rata to the existing share supply (exactly `amount`,
    /// as shares and liquidity share one unit), scales every reserve
    /// up by `amount / total`, recomputes the reserve product, updates
    /// the provider's position, and queues a `LiquidityAdded`
    /// notification. Fails with `PoolNotFound` for an unregistered
    /// market, with `InsufficientLiquidity` for a zero deposit or one
    /// the `u64` ledger cannot hold, and with `InvalidSwap` when the
    /// pool's liquidity is zero (the scaling ratio would divide by
    /// zero); failures leave the engine unchanged.
    pub fn add_liquidity(&mut self, market: u64, amount: Amount, provider: u64, now: u64) -> (r:
        Result<(), AMMError>)
        requires
            old(self).wf(),
        ensures
            final(self).wf(),
            r == Err::<(), AMMError>(AMMError::PoolNotFound) <==> !old(self).has_pool(
                market as int,
            ),
            ({
                let t = old(self).pool_entry_of(market as int).pool.total_liquidity.units as int;
                let a = amount.units as int;
                &&& (r == Err::<(), AMMError>(AMMError::InsufficientLiquidity) <==> (old(
                    self,
                ).has_pool(market as int) && (a == 0 || t + a > u64::MAX)))
                &&& (r == Err::<(), AMMError>(AMMError::InvalidSwap) <==> (old(self).has_pool(
                    market as int,
                ) && a > 0 && t + a <= u64::MAX && t == 0))
                &&& (r is Ok <==> (old(self).has_pool(market as int) && a > 0 && t + a
                    <= u64::MAX && t > 0))
            }),
            r is Err ==> *final(self) == *old(self),
            r is Ok ==> ({
                let idx = old(self).pool_index(market as int);
                &&& final(self).pools@.len() == old(self).pools@.len()
                &&& (forall|j: int|
                    0 <= j < old(self).pools@.len() && j != idx ==> final(self).pools@[j] == old(
                        self,
                    ).pools@[j])
                &&& add_liquidity_applied(
                    old(self).pools@[idx],
                    final(self).pools@[idx],
                    amount.units as int,
                    provider as int,
                    now as int,
                )
                &&& final(self).outbox@ == old(self).outbox@.push(
                    Message::LiquidityAdded { market, provider, amount, shares: amount },
                )
                &&& final(self).total_pools == old(self).total_pools
                &&& final(self).total_volume == old(self).total_volume
                &&& final(self).params == old(self).params
            }),
    {
        let idx = match self.find_pool(market) {
            None => {
                return Err(AMMError::PoolNotFound);
            },
            Some(i) => i,
        };
        proof {
            assert(self.has_pool(market as int));
            let pi = self.pool_index(market as int);
            assert(0 <= pi < self.pools@.len() && self.pools@[pi].pool.market_chain == market);
            if pi != idx {
                assert(self.pools@[pi].pool.market_chain != self.pools@[idx as
                    int].pool.market_chain);
            }
            assert(pi == idx);
        }
        if amount.is_zero() {
            return Err(AMMError::InsufficientLiquidity);
        }
        let t = self.pools[idx].pool.total_liquidity.units;
        let a = amount.units;
        if a > u64::MAX - t {
            return Err(AMMError::InsufficientLiquidity);
        }
        if t == 0 {
            return Err(AMMError::InvalidSwap);
        }
        let ghost old_pools = self.pools@;
        let mut entry = self.pools.remove(idx);
        let ghost entry0 = entry;
        let ghost orig = units_of(entry.pool.option_reserves@);
        let mut i: usize = 0;
        while i < entry.pool.option_reserves.len()
            invariant
                t > 0,
                entry.pool.option_reserves@.len() == orig.len(),
                orig == units_of(entry0.pool.option_reserves@),
                forall|j: int|
                    0 <= j < i ==> units_of(entry.pool.option_reserves@)[j] == add_scaled(
                        orig[j],
                        a as int,
                        t as int,
                    ),
                forall|j: int|
                    i <= j < orig.len() ==> units_of(entry.pool.option_reserves@)[j] == orig[j],
                entry.pool.market_chain == entry0.pool.market_chain,
                entry.pool.total_liquidity == entry0.pool.total_liquidity,
                entry.pool.k_constant == entry0.pool.k_constant,
                entry.pool.fee_collected == entry0.pool.fee_collected,
                entry.pool.total_volume == entry0.pool.total_volume,
                entry.positions == entry0.positions,
            decreases entry.pool.option_reserves@.len() - i,
        {
            let r = entry.pool.option_reserves[i];
            let add_units = mul_div_sat(r.units, a, t);
            proof {
                assert(r.units as int * a as int >= 0 && r.units as int * a as int / t as int
                    >= 0) by (nonlinear_arith)
                    requires
                        r.units >= 0,
                        a >= 0,
                        t > 0,
                ;
            }
            let ghost before = entry.pool.option_reserves@;
            entry.pool.option_reserves[i] = r.saturating_add(Amount::from_units(add_units));
            proof {
                assert(entry.pool.option_reserves@ == before.update(
                    i as int,
                    entry.pool.option_reserves@[i as int],
                ));
                assert(forall|j: int|
                    0 <= j < before.len() && j != i ==> units_of(entry.pool.option_reserves@)[j]
                        == units_of(before)[j]);
                assert(units_of(entry.pool.option_reserves@)[i as int] == add_scaled(
                    orig[i as int],
                    a as int,
                    t as int,
                ));
                assert forall|j: int| 0 <= j < i + 1 implies #[trigger] units_of(
                    entry.pool.option_reserves@,
                )[j] == add_scaled(orig[j], a as int, t as int) by {
                    if j < i {
                        assert(units_of(before)[j] == add_scaled(orig[j], a as int, t as int));
                    }
                }
            }
            i = i + 1;
        }
        let k = crate::prod::compute_k(&entry.pool.option_reserves);
        entry.pool.k_constant = k;
        entry.pool.total_liquidity = Amount::from_units(t + a);
        let ghost ps0 = entry.positions@;
        proof {
            assert(entry_wf(old_pools[idx as int]));
            assert(sum_shares(ps0) == t);
        }
        match Self::find_position(&entry.positions, provider) {
            Some(pi) => {
                proof {
                    assert(has_position(ps0, provider as int));
                    let qi = position_index(ps0, provider as int);
                    assert(0 <= qi < ps0.len() && ps0[qi].provider == provider);
                    if qi != pi {
                        assert(ps0[qi].provider != ps0[pi as int].provider);
                    }
                    assert(qi == pi);
                    lemma_entry_le_sum(ps0, pi as int);
                }
                let old_sh = entry.positions[pi].position.shares.units;
                let updated = LpEntry {
                    provider,
                    position: LPPosition {
                        shares: Amount::from_units(old_sh + a),
                        deposited_at: now,
                        initial_k: k,
                    },
                };
                entry.positions[pi] = updated;
                proof {
                    lemma_sum_shares_update(ps0, pi as int, updated);
                }
            },
            None => {
                let fresh = LpEntry {
                    provider,
                    position: LPPosition { shares: amount, deposited_at: now, initial_k: k },
                };
                entry.positions.push(fresh);
                proof {
                    lemma_sum_shares_push(ps0, fresh);
                }
            },
        }
        self.pools.insert(idx, entry);
        proof {
            assert(self.pools@ =~= old_pools.update(idx as int, entry));
        }
        self.outbox.push(Message::LiquidityAdded { market, provider, amount, shares: amount });
        Ok(())
    }

    /// Burns `shares` of the provider's position in the pool
    /// registered for `market`: withdraws exactly `shares` from the
    /// liquidity total (the ratio `shares / total` scaled back by the
    /// total), scales every reserve down by that ratio, recomputes the
    /// reserve product, and shrinks the position, which may reach
    /// zero but never goes negative. Fails with `PoolNotFound` for an
    /// unregistered market, with `InsufficientLiquidity` when the
    /// provider has no position or fewer shares than requested, and
    /// with `InvalidSwap` when the pool's liquidity is zero (the
    /// ratio would divide by zero); failures leave the engine
    /// unchanged. No notification is emitted.
    pub fn remove_liquidity(&mut self, market: u64, shares: Amount, provider: u64) -> (r: Result<
        (),
        AMMError,
    >)
        requires
            old(self).wf(),
        ensures
            final(self).wf(),
            r == Err::<(), AMMError>(AMMError::PoolNotFound) <==> !old(self).has_pool(
                market as int,
            ),
            ({
                let e = old(self).pool_entry_of(market as int);
                let t = e.pool.total_liquidity.units as int;
                let ps = e.positions@;
                let s = shares.units as int;
                let holds = has_position(ps, provider as int) && ps[position_index(
                    ps,
                    provider as int,
                )].position.shares.units >= s;
                &&& (r == Err::<(), AMMError>(AMMError::InsufficientLiquidity) <==> (old(
                    self,
                ).has_pool(market as int) && !holds))
                &&& (r == Err::<(), AMMError>(AMMError::InvalidSwap) <==> (old(self).has_pool(
                    market as int,
                ) && holds && t == 0))
                &&& (r is Ok <==> (old(self).has_pool(market as int) && holds && t > 0))
            }),
            r is Err ==> *final(self) == *old(self),
            r is Ok ==> ({
                let idx = old(self).pool_index(market as int);
                &&& final(self).pools@.len() == old(self).pools@.len()
                &&& (forall|j: int|
                    0 <= j < old(self).pools@.len() && j != idx ==> final(self).pools@[j] == old(
                        self,
                    ).pools@[j])
                &&& remove_liquidity_applied(
                    old(self).pools@[idx],
                    final(self).pools@[idx],
                    shares.units as int,
                    provider as int,
                )
                &&& final(self).outbox@ == old(self).outbox@
                &&& final(self).total_pools == old(self).total_pools
                &&& final(self).total_volume == old(self).total_volume
                &&& final(self).params == old(self).params
            }),
    {
        let idx = match self.find_pool(market) {
            None => {
                return Err(AMMError::PoolNotFound);
            },
            Some(i) => i,
        };
        proof {
            assert(self.has_pool(market as int));
            let pi = self.pool_index(market as int);
            assert(0 <= pi < self.pools@.len() && self.pools@[pi].pool.market_chain == market);
            if pi != idx {
                assert(self.pools@[pi].pool.market_chain != self.pools@[idx as
                    int].pool.market_chain);
            }
            assert(pi == idx);
            assert(entry_wf(self.pools@[idx as int]));
        }
        let ghost ps0 = self.pools@[idx as int].positions@;
        let pi = match Self::find_position(&self.pools[idx].positions, provider) {
            None => {
                return Err(AMMError::InsufficientLiquidity);
            },
            Some(p) => p,
        };
        proof {
            assert(has_position(ps0, provider as int));
            let qi = position_index(ps0, provider as int);
            assert(0 <= qi < ps0.len() && ps0[qi].provider == provider);
            if qi != pi {
                assert(ps0[qi].provider != ps0[pi as int].provider);
            }
            assert(qi == pi);
        }
        let pos_sh = self.pools[idx].positions[pi].position.shares;
        if pos_sh.lt(shares) {
            return Err(AMMError::InsufficientLiquidity);
        }
        let t = self.pools[idx].pool.total_liquidity.units;
        if t == 0 {
            return Err(AMMError::InvalidSwap);
        }
        let s = shares.units;
        proof {
            lemma_entry_le_sum(ps0, pi as int);
            assert(s <= t);
        }
        let ghost old_pools = self.pools@;
        let mut entry = self.pools.remove(idx);
        let ghost entry0 = entry;
        let ghost orig = units_of(entry.pool.option_reserves@);
        let mut i: usize = 0;
        while i < entry.pool.option_reserves.len()
            invariant
                0 < t,
                s <= t,
                entry.pool.option_reserves@.len() == orig.len(),
                orig == units_of(entry0.pool.option_reserves@),
                forall|j: int|
                    0 <= j < i ==> units_of(entry.pool.option_reserves@)[j] == rem_scaled(
                        orig[j],
                        s as int,
                        t as int,
                    ),
                forall|j: int|
                    i <= j < orig.len() ==> units_of(entry.pool.option_reserves@)[j] == orig[j],
                entry.pool.market_chain == entry0.pool.market_chain,
                entry.pool.total_liquidity == entry0.pool.total_liquidity,
                entry.pool.k_constant == entry0.pool.k_constant,
                entry.pool.fee_collected == entry0.pool.fee_collected,
                entry.pool.total_volume == entry0.pool.total_volume,
                entry.positions == entry0.positions,
            decreases entry.pool.option_reserves@.len() - i,
        {
            let r = entry.pool.option_reserves[i];
            proof {
                crate::arith::lemma_mul_div_le(r.units as int, s as int, t as int);
            }
            let removal = mul_div_sat(r.units, s, t);
            let ghost before = entry.pool.option_reserves@;
            entry.pool.option_reserves[i] = Amount::from_units(r.units - removal);
            proof {
                assert(entry.pool.option_reserves@ == before.update(
                    i as int,
                    entry.pool.option_reserves@[i as int],
                ));
                assert(forall|j: int|
                    0 <= j < before.len() && j != i ==> units_of(entry.pool.option_reserves@)[j]
                        == units_of(before)[j]);
                assert(units_of(entry.pool.option_reserves@)[i as int] == rem_scaled(
                    orig[i as int],
                    s as int,
                    t as int,
                ));
                assert forall|j: int| 0 <= j < i + 1 implies #[trigger] units_of(
                    entry.pool.option_reserves@,
                )[j] == rem_scaled(orig[j], s as int, t as int) by {
                    if j < i {
                        assert(units_of(before)[j] == rem_scaled(orig[j], s as int, t as int));
                    }
                }
            }
            i = i + 1;
        }
        let k = crate::prod::compute_k(&entry.pool.option_reserves);
        entry.pool.k_constant = k;
        entry.pool.total_liquidity = Amount::from_units(t - s);
        let kept = entry.positions[pi];
        let updated = LpEntry {
            provider: kept.provider,
            position: LPPosition {
                shares: Amount::from_units(kept.position.shares.units - s),
                deposited_at: kept.position.deposited_at,
                initial_k: kept.position.initial_k,
            },
        };
        entry.positions[pi] = updated;
        proof {
            lemma_sum_shares_update(ps0, pi as int, updated);
        }
        self.pools.insert(idx, entry);
        proof {
            assert(self.pools@ =~= old_pools.update(idx as int, entry));
        }
        Ok(())
    }

    /// Swaps `amount` of option `from_option` into option `to_option`
    /// in the pool registered for `market`. The fee is withheld from
    /// the input before pricing; the priced reserves keep the reserve
    /// product constant; the fee and gross-volume counters grow; a
    /// `SwapExecuted` notification is queued; and the realized output
    /// is returned. Fails with `PoolNotFound` for an unregistered
    /// market, with `InvalidSwap` for an inadmissible request (see
    /// [`swap_ok`]), and with `SlippageTooHigh` when the output falls
    /// below `min_amount_out`; failures leave the engine unchanged.
    pub fn swap(
        &mut self,
        market: u64,
        from_option: u8,
        to_option: u8,
        amount: Amount,
        min_amount_out: Amount,
    ) -> (r: Result<Amount, AMMError>)
        requires
            old(self).wf(),
        ensures
            final(self).wf(),
            r == Err::<Amount, AMMError>(AMMError::PoolNotFound) <==> !old(self).has_pool(
                market as int,
            ),
            ({
                let e = old(self).pool_entry_of(market as int);
                let rs = e.pool.reserve_units();
                let ok = swap_ok(
                    rs,
                    from_option as int,
                    to_option as int,
                    amount.units as int,
                    old(self).params.fee_rate as int,
                );
                let out = spec_amount_out(
                    rs,
                    from_option as int,
                    to_option as int,
                    amount.units as int,
                    old(self).params.fee_rate as int,
                );
                &&& (r == Err::<Amount, AMMError>(AMMError::InvalidSwap) <==> (old(self).has_pool(
                    market as int,
                ) && !ok))
                &&& (r == Err::<Amount, AMMError>(AMMError::SlippageTooHigh) <==> (old(
                    self,
                ).has_pool(market as int) && ok && out < min_amount_out.units))
                &&& (r is Ok <==> (old(self).has_pool(market as int) && ok && out
                    >= min_amount_out.units))
                &&& (r matches Ok(v) ==> v.units == out)
            }),
            r is Err ==> *final(self) == *old(self),
            r is Ok ==> ({
                let idx = old(self).pool_index(market as int);
                &&& final(self).pools@.len() == old(self).pools@.len()
                &&& (forall|j: int|
                    0 <= j < old(self).pools@.len() && j != idx ==> final(self).pools@[j] == old(
                        self,
                    ).pools@[j])
                &&& swap_applied(
                    old(self).pools@[idx],
                    final(self).pools@[idx],
                    from_option as int,
                    to_option as int,
                    amount.units as int,
                    old(self).params.fee_rate as int,
                )
                &&& final(self).outbox@ == old(self).outbox@.push(
                    Message::SwapExecuted {
                        market,
                        from: from_option,
                        to: to_option,
                        amount_in: amount,
                        amount_out: Amount {
                            units: spec_amount_out(
                                old(self).pool_entry_of(market as int).pool.reserve_units(),
                                from_option as int,
                                to_option as int,
                                amount.units as int,
                                old(self).params.fee_rate as int,
                            ) as u64,
                        },
                    },
                )
                &&& final(self).total_volume.units == sat_add_units(
                    old(self).total_volume.units as int,
                    amount.units as int,
                )
                &&& final(self).total_pools == old(self).total_pools
                &&& final(self).params == old(self).params
            }),
    {
        let idx = match self.find_pool(market) {
            None => {
                return Err(AMMError::PoolNotFound);
            },
            Some(i) => i,
        };
        proof {
            assert(self.has_pool(market as int));
            let pi = self.pool_index(market as int);
            assert(0 <= pi < self.pools@.len() && self.pools@[pi].pool.market_chain == market);
            if pi != idx {
                assert(self.pools@[pi].pool.market_chain != self.pools@[idx as
                    int].pool.market_chain);
            }
            assert(pi == idx);
            assert(entry_wf(self.pools@[idx as int]));
        }
        let fee_rate = self.params.fee_rate;
        let outcome = match compute_swap(
            &self.pools[idx].pool.option_reserves,
            from_option,
            to_option,
            amount,
            fee_rate,
        ) {
            Err(e) => {
                return Err(e);
            },
            Ok(o) => o,
        };
        if outcome.amount_out.lt(min_amount_out) {
            return Err(AMMError::SlippageTooHigh);
        }
        let ghost old_pools = self.pools@;
        let mut entry = self.pools.remove(idx);
        let ghost rs = units_of(entry.pool.option_reserves@);
        let ghost nf = spec_new_from(
            rs[from_option as int],
            amount.units as int,
            fee_rate as int,
        );
        let ghost nt = spec_new_to(rs[from_option as int], rs[to_option as int], nf);
        entry.pool.option_reserves[from_option as usize] = outcome.new_from_reserve;
        entry.pool.option_reserves[to_option as usize] = outcome.new_to_reserve;
        proof {
            assert(units_of(entry.pool.option_reserves@) =~= rs.update(
                from_option as int,
                nf,
            ).update(to_option as int, nt));
        }
        entry.pool.fee_collected = entry.pool.fee_collected.saturating_add(outcome.fee);
        entry.pool.total_volume = entry.pool.total_volume.saturating_add(amount);
        self.pools.insert(idx, entry);
        proof {
            assert(self.pools@ =~= old_pools.update(idx as int, entry));
        }
        self.outbox.push(
            Message::SwapExecuted {
                market,
                from: from_option,
                to: to_option,
                amount_in: amount,
                amount_out: outcome.amount_out,
            },
        );
        self.total_volume = self.total_volume.saturating_add(amount);
        Ok(outcome.amount_out)
    }

    /// Prices a trade without mutating anything: no reserve changes,
    /// no fee or volume accounting, no notification. The quote runs
    /// the identical fee deduction and pricing formula as [`swap`],
    /// between `option_index` and its counterpart (the lowest other
    /// index): spending `option_index` when `is_buy` is set,
    /// receiving it otherwise. Fails with `PoolNotFound` for an
    /// unregistered market and with `InvalidSwap` exactly as the
    /// corresponding swap would.
    pub fn get_quote(&self, market: u64, option_index: u8, amount: Amount, is_buy: bool) -> (r:
        Result<Amount, AMMError>)
        requires
            self.wf(),
        ensures
            r == Err::<Amount, AMMError>(AMMError::PoolNotFound) <==> !self.has_pool(market as int),
            ({
                let e = self.pool_entry_of(market as int);
                let rs = e.pool.reserve_units();
                let from = if is_buy {
                    option_index as int
                } else {
                    spec_counterpart(option_index as int)
                };
                let to = if is_buy {
                    spec_counterpart(option_index as int)
                } else {
                    option_index as int
                };
                let ok = swap_ok(rs, from, to, amount.units as int, self.params.fee_rate as int);
                &&& (r == Err::<Amount, AMMError>(AMMError::InvalidSwap) <==> (self.has_pool(
                    market as int,
                ) && !ok))
                &&& (r is Ok <==> (self.has_pool(market as int) && ok))
                &&& (r matches Ok(v) ==> v.units == spec_amount_out(
                    rs,
                    from,
                    to,
                    amount.units as int,
                    self.params.fee_rate as int,
                ))
            }),
    {
        let idx = match self.find_pool(market) {
            None => {
                return Err(AMMError::PoolNotFound);
            },
            Some(i) => i,
        };
        proof {
            assert(self.has_pool(market as int));
            let pi = self.pool_index(market as int);
            assert(0 <= pi < self.pools@.len() && self.pools@[pi].pool.market_chain == market);
            if pi != idx {
                assert(self.pools@[pi].pool.market_chain != self.pools@[idx as
                    int].pool.market_chain);
            }
            assert(pi == idx);
        }
        let counterpart: u8 = if option_index == 0 {
            1
        } else {
            0
        };
        let from = if is_buy {
            option_index
        } else {
            counterpart
        };
        let to = if is_buy {
            counterpart
        } else {
            option_index
        };
        match compute_swap(&self.pools[idx].pool.option_reserves, from, to, amount,
            self.params.fee_rate) {
            Err(e) => Err(e),
            Ok(o) => Ok(o.amount_out),
        }
    }

    /// Hands the queued notifications to the host and empties the
    /// queue. Ledgers, counters and configuration are untouched.
    pub fn take_messages(&mut self) -> (msgs: Vec<Message>)
        ensures
            msgs@ == old(self).outbox@,
            final(self).outbox@.len() == 0,
            final(self).params == old(self).params,
            final(self).pools@ == old(self).pools@,
            final(self).total_pools == old(self).total_pools,
            final(self).total_volume == old(self).total_volume,
            final(self).wf() == old(self).wf(),
    {
        let mut msgs: Vec<Message> = Vec::new();
        core::mem::swap(&mut self.outbox, &mut msgs);
        msgs
    }
}

} // verus!
