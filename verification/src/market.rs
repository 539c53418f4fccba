//! The odds-based market: a pricing heuristic that nudges a market's
//! odds toward traded options and renormalizes them, plus the
//! market's status lifecycle.
//!
//! Odds are fixed-point fractions in parts per
//! [`UNIT`](crate::amount::UNIT); a market's odds always stay inside
//! `[UNIT/100, 99*UNIT/100]` before renormalization.

use vstd::prelude::*;

use crate::amount::{sat_add_units, Amount, UNIT};
use crate::bot::{odds_ints, seq_sum};

verus! {

/// Where a market stands in its lifecycle.
#[derive(Clone, Copy, Debug, PartialEq, Eq, Structural)]
pub enum MarketStatus {
    Active,
    Resolved,
    Cancelled,
}

impl Default for MarketStatus {
    fn default() -> (r: MarketStatus)
        ensures
            r == MarketStatus::Active,
    {
        MarketStatus::Active
    }
}

/// Why a market operation was refused.
#[derive(Clone, Copy, Debug, PartialEq, Eq, Structural)]
pub enum MarketError {
    MarketNotActive,
    InvalidOption,
    InsufficientFunds,
    Unauthorized,
    AlreadyResolved,
    NoPosition,
}

impl MarketError {
    /// A short description of the failure.
    pub fn describe(self) -> (r: &'static str)
        ensures
            true,
    {
        match self {
            MarketError::MarketNotActive => "Market is not active",
            MarketError::InvalidOption => "Invalid option index",
            MarketError::InsufficientFunds => "Insufficient funds",
            MarketError::Unauthorized => "Unauthorized",
            MarketError::AlreadyResolved => "Market already resolved",
            MarketError::NoPosition => "No position to claim",
        }
    }
}

/// One trader's stake in an option.
#[derive(Clone, Copy, Debug, PartialEq, Eq, Structural)]
pub struct Position {
    pub option_index: u8,
    pub amount: Amount,
    /// Price paid, in parts per `UNIT`.
    pub avg_price: u64,
}

/// One odds-based market.
#[derive(Clone, Debug)]
pub struct MarketState {
    pub title: String,
    pub description: String,
    pub options: Vec<String>,
    /// One fraction per option, in parts per `UNIT`.
    pub odds: Vec<u64>,
    pub total_volume: Amount,
    pub liquidity: Amount,
    pub status: MarketStatus,
    pub resolved_outcome: Option<u8>,
    pub created_at: u64,
    pub event_time: Option<u64>,
}

/// The price impact of a trade: `amount / (liquidity * 10)`, as a
/// fraction in parts per `UNIT`.
pub open spec fn spec_impact(amount: int, liquidity: int) -> int {
    amount * (UNIT as int) / (liquidity * 10)
}

/// An odds value capped from above at `99/100`.
pub open spec fn cap_hi(x: int) -> int {
    if x > 99 * (UNIT as int) / 100 {
        99 * (UNIT as int) / 100
    } else {
        x
    }
}

/// An odds value floored from below at `1/100`.
pub open spec fn cap_lo(x: int) -> int {
    if x < (UNIT as int) / 100 {
        (UNIT as int) / 100
    } else {
        x
    }
}

/// The odds after a trade's impact, before renormalization: a buy
/// raises the traded option by the impact (capped) and lowers every
/// other option by its share of the impact (floored); a sell does the
/// reverse.
pub open spec fn spec_bump(odds: Seq<int>, i: int, impact: int, is_buy: bool) -> Seq<int> {
    let share = impact / (odds.len() - 1);
    Seq::new(
        odds.len(),
        |j: int|
            if is_buy {
                if j == i {
                    cap_hi(odds[j] + impact)
                } else {
                    cap_lo(odds[j] - share)
                }
            } else {
                if j == i {
                    cap_lo(odds[j] - impact)
                } else {
                    cap_hi(odds[j] + share)
                }
            },
    )
}

/// Odds rescaled so that they sum to `UNIT`, up to truncation:
/// each entry becomes `entry * UNIT / sum`.
pub open spec fn spec_normalize(s: Seq<int>) -> Seq<int> {
    Seq::new(s.len(), |j: int| s[j] * (UNIT as int) / seq_sum(s))
}

/// The full odds update a trade performs.
pub open spec fn spec_update_odds(
    odds: Seq<int>,
    i: int,
    amount: int,
    liquidity: int,
    is_buy: bool,
) -> Seq<int> {
    spec_normalize(spec_bump(odds, i, spec_impact(amount, liquidity), is_buy))
}

/// A non-negative sequence's sum dominates each of its elements.
proof fn lemma_seq_sum_ge_elem(s: Seq<int>, j: int)
    requires
        forall|i: int| 0 <= i < s.len() ==> s[i] >= 0,
        0 <= j < s.len(),
    ensures
        seq_sum(s) >= s[j],
    decreases s.len(),
{
    if j == s.len() - 1 {
        lemma_seq_sum_nonneg(s.drop_last());
    } else {
        lemma_seq_sum_ge_elem(s.drop_last(), j);
        assert(s.drop_last()[j] == s[j]);
    }
}

proof fn lemma_seq_sum_nonneg(s: Seq<int>)
    requires
        forall|i: int| 0 <= i < s.len() ==> s[i] >= 0,
    ensures
        seq_sum(s) >= 0,
    decreases s.len(),
{
    if s.len() > 0 {
        lemma_seq_sum_nonneg(s.drop_last());
    }
}

/// The odds after an explicit quote update: the option's entry is
/// replaced, and when the result carries any weight it is rescaled
/// to sum back to `UNIT`, up to truncation.
pub open spec fn spec_set_odds(odds: Seq<int>, i: int, new_odds: int) -> Seq<int> {
    let set = odds.update(i, new_odds);
    if seq_sum(set) > 0 {
        spec_normalize(set)
    } else {
        set
    }
}

/// The summed odds, computed at full width.
fn sum_of_odds(odds: &Vec<u64>) -> (t: u128)
    ensures
        t as int == seq_sum(odds_ints(odds@)),
        t as int <= odds@.len() * (u64::MAX as int),
{
    let ghost s = odds_ints(odds@);
    let mut total: u128 = 0;
    let mut idx: usize = 0;
    while idx < odds.len()
        invariant
            0 <= idx <= odds@.len(),
            s == odds_ints(odds@),
            total as int == seq_sum(s.take(idx as int)),
            total as int <= (idx as int) * (u64::MAX as int),
        decreases odds@.len() - idx,
    {
        proof {
            assert(s.take(idx + 1).drop_last() =~= s.take(idx as int));
            assert(s.take(idx + 1).last() == s[idx as int]);
            assert((idx as int) * (u64::MAX as int) + u64::MAX as int == (idx + 1) * (
            u64::MAX as int)) by (nonlinear_arith);
            assert((idx + 1) * (u64::MAX as int) <= u128::MAX) by (nonlinear_arith)
                requires
                    0 <= idx + 1 <= usize::MAX as int,
            ;
        }
        total = total + odds[idx] as u128;
        idx = idx + 1;
    }
    proof {
        assert(s.take(odds@.len() as int) =~= s);
    }
    total
}

/// Rescales odds so they sum back to (nearly) `UNIT`:
/// `entry * UNIT / total`, truncated.
fn normalize_odds(odds: &Vec<u64>, total: u128) -> (r: Vec<u64>)
    requires
        total > 0,
        total as int == seq_sum(odds_ints(odds@)),
    ensures
        r@.len() == odds@.len(),
        odds_ints(r@) == spec_normalize(odds_ints(odds@)),
{
    let n = odds.len();
    let mut out: Vec<u64> = Vec::new();
    let mut idx: usize = 0;
    while idx < n
        invariant
            0 <= idx <= n,
            n == odds@.len(),
            total > 0,
            total as int == seq_sum(odds_ints(odds@)),
            out@.len() == idx,
            forall|j: int| 0 <= j < idx ==> out@[j] as int == odds_ints(odds@)[j] * (
            UNIT as int) / (total as int),
        decreases n - idx,
    {
        let w = odds[idx];
        proof {
            let ws = odds_ints(odds@);
            assert(forall|i: int| 0 <= i < ws.len() ==> ws[i] >= 0);
            lemma_seq_sum_ge_elem(ws, idx as int);
            assert(w as int <= total as int);
            assert((w as int) * (UNIT as int) <= (total as int) * (UNIT as int))
                by (nonlinear_arith)
                requires
                    0 <= w as int <= total as int,
            ;
            assert(u64::MAX as int * (UNIT as int) <= u128::MAX) by (nonlinear_arith);
            assert((w as int) * (UNIT as int) <= u64::MAX as int * (UNIT as int))
                by (nonlinear_arith)
                requires
                    0 <= w as int <= u64::MAX as int,
            ;
            crate::arith::lemma_div_is_ordered(
                (w as int) * (UNIT as int),
                (total as int) * (UNIT as int),
                total as int,
            );
            crate::arith::lemma_mul_div_cancel(UNIT as int, total as int);
            crate::arith::lemma_div_is_ordered(0, (w as int) * (UNIT as int), total as int);
        }
        let scaled: u128 = (w as u128) * (UNIT as u128) / total;
        out.push(scaled as u64);
        idx = idx + 1;
    }
    proof {
        assert(odds_ints(out@) =~= spec_normalize(odds_ints(odds@)));
    }
    out
}

/// Applies a trade's price impact to a market's odds and
/// renormalizes them, exactly as [`spec_update_odds`] describes.
pub fn update_odds(
    current_odds: &Vec<u64>,
    option_index: usize,
    amount: Amount,
    is_buy: bool,
    liquidity: Amount,
) -> (r: Vec<u64>)
    requires
        current_odds@.len() >= 2,
        option_index < current_odds@.len(),
        liquidity.units > 0,
    ensures
        r@.len() == current_odds@.len(),
        odds_ints(r@) == spec_update_odds(
            odds_ints(current_odds@),
            option_index as int,
            amount.units as int,
            liquidity.units as int,
            is_buy,
        ),
{
    let ghost s = odds_ints(current_odds@);
    let n = current_odds.len();
    let l10: u128 = (liquidity.units as u128) * 10;
    let impact: u128 = (amount.units as u128) * (UNIT as u128) / l10;
    proof {
        assert((amount.units as int) * (UNIT as int) <= u64::MAX as int * (UNIT as int))
            by (nonlinear_arith)
            requires
                0 <= amount.units as int <= u64::MAX as int,
        ;
        assert(u64::MAX as int * (UNIT as int) <= u128::MAX) by (nonlinear_arith);
        crate::arith::lemma_div_is_ordered(
            0,
            (amount.units as int) * (UNIT as int),
            l10 as int,
        );
    }
    let ghost impact_i = spec_impact(amount.units as int, liquidity.units as int);
    proof {
        assert(impact as int == impact_i);
    }
    let share: u128 = impact / (n as u128 - 1);
    let hi: u64 = UNIT / 100 * 99;
    let lo: u64 = UNIT / 100;
    proof {
        assert(hi as int == 99 * (UNIT as int) / 100);
        assert(lo as int == (UNIT as int) / 100);
        crate::arith::lemma_div_is_ordered(0, impact as int, n as int - 1);
        crate::arith::lemma_div_bounds(impact as int, n as int - 1);
        assert(share as int <= impact as int) by (nonlinear_arith)
            requires
                share as int >= 0,
                (n as int - 1) * (share as int) <= impact as int,
                n as int - 1 >= 1,
        ;
        crate::arith::lemma_div_bounds((amount.units as int) * (UNIT as int), l10 as int);
        assert(impact as int <= u64::MAX as int * (UNIT as int)) by (nonlinear_arith)
            requires
                (l10 as int) * (impact as int) <= (amount.units as int) * (UNIT as int),
                (amount.units as int) * (UNIT as int) <= u64::MAX as int * (UNIT as int),
                l10 as int >= 10,
                impact as int >= 0,
        ;
    }
    let ghost bumped = spec_bump(s, option_index as int, impact_i, is_buy);
    let mut work: Vec<u64> = Vec::new();
    let mut idx: usize = 0;
    while idx < n
        invariant
            0 <= idx <= n,
            n == current_odds@.len(),
            n >= 2,
            option_index < n,
            s == odds_ints(current_odds@),
            impact as int == impact_i,
            impact as int <= u64::MAX as int * (UNIT as int),
            share <= impact,
            share as int == impact_i / (n as int - 1),
            hi as int == 99 * (UNIT as int) / 100,
            lo as int == (UNIT as int) / 100,
            bumped == spec_bump(s, option_index as int, impact_i, is_buy),
            work@.len() == idx,
            forall|j: int| 0 <= j < idx ==> work@[j] as int == bumped[j],
        decreases n - idx,
    {
        let o = current_odds[idx];
        let up = if is_buy == (idx == option_index) {
            // This entry moves up by `impact` (traded option on a
            // buy) or by `share` (other options on a sell), capped.
            let delta = if idx == option_index {
                impact
            } else {
                share
            };
            let raised = o as u128 + delta;
            if raised > hi as u128 {
                hi
            } else {
                raised as u64
            }
        } else {
            // This entry moves down, floored.
            let delta = if idx == option_index {
                impact
            } else {
                share
            };
            if (o as u128) >= delta + lo as u128 {
                (o as u128 - delta) as u64
            } else {
                lo
            }
        };
        proof {
            assert(bumped[idx as int] == up as int);
        }
        work.push(up);
        idx = idx + 1;
    }
    proof {
        assert(odds_ints(work@) =~= bumped);
    }
    // Renormalize so the odds sum back to (nearly) `UNIT`. At least
    // one entry is floored or capped away from zero, so the sum is
    // positive.
    let total = sum_of_odds(&work);
    proof {
        let w = odds_ints(work@);
        let witness: int = if is_buy {
            if option_index == 0 {
                1
            } else {
                0
            }
        } else {
            option_index as int
        };
        assert(w[witness] >= lo as int);
        lemma_seq_sum_ge_elem(w, witness);
        assert(total > 0);
    }
    let out = normalize_odds(&work, total);
    proof {
        assert(odds_ints(out@) == spec_update_odds(
            s,
            option_index as int,
            amount.units as int,
            liquidity.units as int,
            is_buy,
        ));
    }
    out
}

impl MarketState {
    /// The odds track the options one to one, there are at least two
    /// options, and the market carries positive liquidity, so trades
    /// can always be priced.
    pub open spec fn wf(self) -> bool {
        &&& self.odds@.len() == self.options@.len()
        &&& self.options@.len() >= 2
        &&& self.liquidity.units > 0
    }

    /// A fresh market: even odds (`UNIT / n` each), no volume, a
    /// fixed starting liquidity of 1000 tokens, active.
    pub fn create(
        title: String,
        description: String,
        options: Vec<String>,
        event_time: Option<u64>,
        now: u64,
    ) -> (r: MarketState)
        requires
            options@.len() >= 2,
        ensures
            r.wf(),
            r.options == options,
            r.odds@.len() == options@.len(),
            forall|j: int| 0 <= j < r.odds@.len() ==> r.odds@[j] as int == (UNIT as int) / (
            options@.len() as int),
            r.total_volume.units == 0,
            r.liquidity.units == 1000 * UNIT,
            r.status == MarketStatus::Active,
            r.resolved_outcome is None,
            r.created_at == now,
            r.event_time == event_time,
            r.title == title,
            r.description == description,
    {
        let n = options.len();
        let even = UNIT / (n as u64);
        let mut odds: Vec<u64> = Vec::new();
        let mut idx: usize = 0;
        while idx < n
            invariant
                0 <= idx <= n,
                odds@.len() == idx,
                even as int == (UNIT as int) / (n as int),
                forall|j: int| 0 <= j < idx ==> odds@[j] == even,
            decreases n - idx,
        {
            odds.push(even);
            idx = idx + 1;
        }
        MarketState {
            title,
            description,
            options,
            odds,
            total_volume: Amount::zero(),
            liquidity: Amount::from_tokens(1000),
            status: MarketStatus::Active,
            resolved_outcome: None,
            created_at: now,
            event_time,
        }
    }

    /// Executes a trade: checks the market is active and the option
    /// exists, then accumulates the gross volume and applies the
    /// odds update. Returns the price (the traded option's odds
    /// before the update). Failures leave the market unchanged.
    pub fn place_trade(&mut self, option_index: u8, amount: Amount, is_buy: bool) -> (r: Result<
        u64,
        MarketError,
    >)
        requires
            old(self).wf(),
        ensures
            final(self).wf(),
            r == Err::<u64, MarketError>(MarketError::MarketNotActive) <==> old(self).status
                != MarketStatus::Active,
            r == Err::<u64, MarketError>(MarketError::InvalidOption) <==> (old(self).status
                == MarketStatus::Active && option_index as int >= old(self).options@.len()),
            r is Ok <==> (old(self).status == MarketStatus::Active && (option_index as int) < old(
                self,
            ).options@.len()),
            r is Err ==> *final(self) == *old(self),
            r matches Ok(price) ==> ({
                &&& price == old(self).odds@[option_index as int]
                &&& final(self).total_volume.units == sat_add_units(
                    old(self).total_volume.units as int,
                    amount.units as int,
                )
                &&& odds_ints(final(self).odds@) == spec_update_odds(
                    odds_ints(old(self).odds@),
                    option_index as int,
                    amount.units as int,
                    old(self).liquidity.units as int,
                    is_buy,
                )
                &&& final(self).status == old(self).status
                &&& final(self).liquidity == old(self).liquidity
                &&& final(self).resolved_outcome == old(self).resolved_outcome
                &&& final(self).options == old(self).options
                &&& final(self).title == old(self).title
                &&& final(self).description == old(self).description
                &&& final(self).created_at == old(self).created_at
                &&& final(self).event_time == old(self).event_time
            }),
    {
        if !matches!(self.status, MarketStatus::Active) {
            return Err(MarketError::MarketNotActive);
        }
        if option_index as usize >= self.options.len() {
            return Err(MarketError::InvalidOption);
        }
        let price = self.odds[option_index as usize];
        self.total_volume = self.total_volume.saturating_add(amount);
        let new_odds = update_odds(
            &self.odds,
            option_index as usize,
            amount,
            is_buy,
            self.liquidity,
        );
        self.odds = new_odds;
        Ok(price)
    }

    /// Whether the market still accepts trades; the host's market
    /// listing filters on this.
    pub fn is_active(&self) -> (r: bool)
        ensures
            r == (self.status == MarketStatus::Active),
    {
        matches!(self.status, MarketStatus::Active)
    }

    /// Deepens the market's liquidity, which dampens the price
    /// impact of later trades. The liquidity total saturates at the
    /// `u64` range.
    pub fn add_liquidity(&mut self, amount: Amount)
        requires
            old(self).wf(),
        ensures
            final(self).wf(),
            final(self).liquidity.units == sat_add_units(
                old(self).liquidity.units as int,
                amount.units as int,
            ),
            final(self).status == old(self).status,
            final(self).odds == old(self).odds,
            final(self).total_volume == old(self).total_volume,
            final(self).options == old(self).options,
            final(self).resolved_outcome == old(self).resolved_outcome,
            final(self).title == old(self).title,
            final(self).description == old(self).description,
            final(self).created_at == old(self).created_at,
            final(self).event_time == old(self).event_time,
    {
        self.liquidity = self.liquidity.saturating_add(amount);
    }

    /// Overwrites one option's odds with an externally supplied
    /// quote and rescales all odds to sum back to `UNIT` (when they
    /// carry any weight). Fails with `InvalidOption` for an unknown
    /// option and leaves the market unchanged.
    pub fn update_option_odds(&mut self, option_index: u8, new_odds: u64) -> (r: Result<
        (),
        MarketError,
    >)
        requires
            old(self).wf(),
        ensures
            final(self).wf(),
            r == Err::<(), MarketError>(MarketError::InvalidOption) <==> option_index as int >= old(
                self,
            ).odds@.len(),
            r is Ok <==> (option_index as int) < old(self).odds@.len(),
            r is Err ==> *final(self) == *old(self),
            r is Ok ==> ({
                &&& odds_ints(final(self).odds@) == spec_set_odds(
                    odds_ints(old(self).odds@),
                    option_index as int,
                    new_odds as int,
                )
                &&& final(self).status == old(self).status
                &&& final(self).total_volume == old(self).total_volume
                &&& final(self).liquidity == old(self).liquidity
                &&& final(self).options == old(self).options
                &&& final(self).resolved_outcome == old(self).resolved_outcome
                &&& final(self).title == old(self).title
                &&& final(self).description == old(self).description
                &&& final(self).created_at == old(self).created_at
                &&& final(self).event_time == old(self).event_time
            }),
    {
        if option_index as usize >= self.odds.len() {
            return Err(MarketError::InvalidOption);
        }
        let ghost s = odds_ints(self.odds@);
        self.odds[option_index as usize] = new_odds;
        proof {
            assert(odds_ints(self.odds@) =~= s.update(option_index as int, new_odds as int));
        }
        let total = sum_of_odds(&self.odds);
        if total > 0 {
            let scaled = normalize_odds(&self.odds, total);
            self.odds = scaled;
        }
        Ok(())
    }

    /// Resolves the market to `outcome`. Fails with `AlreadyResolved`
    /// when the market is not active and with `InvalidOption` for an
    /// unknown outcome; failures leave the market unchanged.
    pub fn resolve_market(&mut self, outcome: u8) -> (r: Result<(), MarketError>)
        requires
            old(self).wf(),
        ensures
            final(self).wf(),
            r == Err::<(), MarketError>(MarketError::AlreadyResolved) <==> old(self).status
                != MarketStatus::Active,
            r == Err::<(), MarketError>(MarketError::InvalidOption) <==> (old(self).status
                == MarketStatus::Active && outcome as int >= old(self).options@.len()),
            r is Ok <==> (old(self).status == MarketStatus::Active && (outcome as int) < old(
                self,
            ).options@.len()),
            r is Err ==> *final(self) == *old(self),
            r is Ok ==> ({
                &&& final(self).status == MarketStatus::Resolved
                &&& final(self).resolved_outcome == Some(outcome)
                &&& final(self).odds == old(self).odds
                &&& final(self).total_volume == old(self).total_volume
                &&& final(self).liquidity == old(self).liquidity
                &&& final(self).options == old(self).options
                &&& final(self).title == old(self).title
                &&& final(self).description == old(self).description
                &&& final(self).created_at == old(self).created_at
                &&& final(self).event_time == old(self).event_time
            }),
    {
        if !matches!(self.status, MarketStatus::Active) {
            return Err(MarketError::AlreadyResolved);
        }
        if outcome as usize >= self.options.len() {
            return Err(MarketError::InvalidOption);
        }
        self.status = MarketStatus::Resolved;
        self.resolved_outcome = Some(outcome);
        Ok(())
    }

    /// Whether a payout claim over the given positions succeeds: the
    /// market must be resolved to an outcome, and at least one of the
    /// claimant's positions must name the winning option.
    pub fn claim_payout(&self, positions: &Vec<Position>) -> (r: Result<u8, MarketError>)
        ensures
            r == Err::<u8, MarketError>(MarketError::MarketNotActive) <==> self.status
                != MarketStatus::Resolved,
            r == Err::<u8, MarketError>(MarketError::NoPosition) <==> (self.status
                == MarketStatus::Resolved && (self.resolved_outcome is None || !exists|i: int|
                0 <= i < positions@.len() && positions@[i].option_index
                    == self.resolved_outcome->0)),
            r matches Ok(o) ==> ({
                &&& self.resolved_outcome == Some(o)
                &&& exists|i: int| 0 <= i < positions@.len() && positions@[i].option_index == o
            }),
    {
        if !matches!(self.status, MarketStatus::Resolved) {
            return Err(MarketError::MarketNotActive);
        }
        let outcome = match self.resolved_outcome {
            None => {
                return Err(MarketError::NoPosition);
            },
            Some(o) => o,
        };
        let mut idx: usize = 0;
        while idx < positions.len()
            invariant
                0 <= idx <= positions@.len(),
                forall|j: int| 0 <= j < idx ==> positions@[j].option_index != outcome,
                self.status == MarketStatus::Resolved,
                self.resolved_outcome == Some(outcome),
            decreases positions@.len() - idx,
        {
            if positions[idx].option_index == outcome {
                return Ok(outcome);
            }
            idx = idx + 1;
        }
        Err(MarketError::NoPosition)
    }
}

} // verus!
