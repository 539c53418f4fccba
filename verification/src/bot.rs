//! Trading-bot strategy rules: simple threshold decisions over market
//! odds, plus the bot's configuration and statistics bookkeeping.
//!
//! Odds and confidences are fixed-point fractions in parts per
//! [`UNIT`](crate::amount::UNIT) (so `UNIT` is probability 1).
//! Profit-and-loss figures are signed fixed-point unit counts.

use vstd::prelude::*;

use crate::amount::{sat_add_units, Amount, UNIT};
use crate::arith::sat64;

verus! {

/// Which rule the bot trades by.
#[derive(Clone, Copy, Debug, PartialEq, Eq, Structural)]
pub enum Strategy {
    Momentum,
    Contrarian,
    Arbitrage,
    MarketMaker,
}

impl Default for Strategy {
    fn default() -> (r: Strategy)
        ensures
            r == Strategy::Momentum,
    {
        Strategy::Momentum
    }
}

/// What a signal tells the bot to do.
#[derive(Clone, Copy, Debug, PartialEq, Eq, Structural)]
pub enum TradeAction {
    Buy,
    Sell,
    Hold,
}

/// Why a bot operation was refused.
#[derive(Clone, Copy, Debug, PartialEq, Eq, Structural)]
pub enum BotError {
    NotActive,
    MaxTradesReached,
    NoSignal,
    PositionSizeExceeded,
    MarketNotFound,
}

impl BotError {
    /// A short description of the failure.
    pub fn describe(self) -> (r: &'static str)
        ensures
            true,
    {
        match self {
            BotError::NotActive => "Bot is not active",
            BotError::MaxTradesReached => "Maximum trades reached",
            BotError::NoSignal => "No valid trade signal",
            BotError::PositionSizeExceeded => "Position size exceeded",
            BotError::MarketNotFound => "Market not found",
        }
    }
}

/// The bot's configuration.
#[derive(Clone, Debug)]
pub struct BotConfig {
    pub name: String,
    pub strategy: Strategy,
    pub trade_size: Amount,
    pub max_trades_per_block: u8,
    /// Lowest odds the bot will act on, in parts per `UNIT`.
    pub min_odds_threshold: u64,
    /// Highest odds the bot will act on, in parts per `UNIT`.
    pub max_odds_threshold: u64,
    pub is_active: bool,
}

/// Running statistics over the bot's activity.
#[derive(Clone, Debug)]
pub struct BotStats {
    pub total_trades: u64,
    pub winning_trades: u64,
    /// Cumulative signed profit and loss, in raw units.
    pub total_pnl: i64,
    /// Open positions: market, option index, and size.
    pub current_positions: Vec<(u64, u8, Amount)>,
}

/// A signal the bot has derived for one market.
#[derive(Clone, Copy, Debug, PartialEq, Eq, Structural)]
pub struct MarketSignal {
    pub market: u64,
    pub action: TradeAction,
    /// Confidence in parts per `UNIT`.
    pub confidence: u64,
}

/// The largest element of `s`, at least 0 (the fold the momentum rule
/// uses).
pub open spec fn seq_max0(s: Seq<int>) -> int
    decreases s.len(),
{
    if s.len() == 0 {
        0
    } else {
        let rest = seq_max0(s.drop_last());
        if s.last() > rest {
            s.last()
        } else {
            rest
        }
    }
}

/// The smallest element of `s`, at most `UNIT` (the fold the
/// contrarian rule uses: probability 1 when no odds are given).
pub open spec fn seq_min1(s: Seq<int>) -> int
    decreases s.len(),
{
    if s.len() == 0 {
        UNIT as int
    } else {
        let rest = seq_min1(s.drop_last());
        if s.last() < rest {
            s.last()
        } else {
            rest
        }
    }
}

/// The sum of all elements of `s`.
pub open spec fn seq_sum(s: Seq<int>) -> int
    decreases s.len(),
{
    if s.len() == 0 {
        0
    } else {
        seq_sum(s.drop_last()) + s.last()
    }
}

/// The signal each strategy derives from a market's odds; thresholds
/// are the strategy rules' fixed fractions of `UNIT`. Confidences are
/// clamped to the `u64` range from above.
pub open spec fn spec_signal(strategy: Strategy, odds: Seq<int>) -> (TradeAction, int) {
    let unit = UNIT as int;
    match strategy {
        Strategy::Momentum => {
            let m = seq_max0(odds);
            if m > unit * 3 / 5 {
                (TradeAction::Buy, sat64(m))
            } else {
                (TradeAction::Hold, unit / 2)
            }
        },
        Strategy::Contrarian => {
            let m = seq_min1(odds);
            if m < unit * 3 / 10 {
                (TradeAction::Buy, unit - m)
            } else {
                (TradeAction::Hold, unit / 2)
            }
        },
        Strategy::Arbitrage => {
            let total = seq_sum(odds);
            if total < unit * 19 / 20 {
                (TradeAction::Buy, unit * 19 / 20 - total + unit / 2)
            } else if total > unit * 21 / 20 {
                (TradeAction::Sell, sat64(total - unit * 21 / 20 + unit / 2))
            } else {
                (TradeAction::Hold, unit / 2)
            }
        },
        Strategy::MarketMaker => {
            let spread = seq_max0(odds) - seq_min1(odds);
            if spread > unit / 5 {
                (TradeAction::Buy, sat64(unit / 2 + spread))
            } else {
                (TradeAction::Hold, unit / 2)
            }
        },
    }
}

/// `a + b` on signed 64-bit values, clamped at both ends.
pub open spec fn sat_add_i64(a: int, b: int) -> int {
    if a + b > i64::MAX {
        i64::MAX as int
    } else if a + b < i64::MIN {
        i64::MIN as int
    } else {
        a + b
    }
}

/// How many trades an execution pass makes: signals are visited in
/// order, a signal acts when its confidence is at least `7/10` and
/// its action is not `Hold`, and the pass stops once `cap` trades
/// have been made.
pub open spec fn spec_trades_made(sigs: Seq<MarketSignal>, cap: int) -> int
    decreases sigs.len(),
{
    if sigs.len() == 0 || cap <= 0 {
        0
    } else {
        let took: int = if sigs[0].confidence >= (UNIT as int) * 7 / 10 && !(sigs[0].action
            is Hold) {
            1
        } else {
            0
        };
        took + spec_trades_made(sigs.skip(1), cap - took)
    }
}

/// The open positions with every record for (`market`, `option`)
/// removed, order preserved.
pub open spec fn without_position(ps: Seq<(u64, u8, Amount)>, market: u64, option: u8) -> Seq<
    (u64, u8, Amount),
>
    decreases ps.len(),
{
    if ps.len() == 0 {
        ps
    } else {
        let rest = without_position(ps.drop_last(), market, option);
        if ps.last().0 == market && ps.last().1 == option {
            rest
        } else {
            rest.push(ps.last())
        }
    }
}

pub open spec fn has_signal(sigs: Seq<MarketSignal>, market: int) -> bool {
    exists|i: int| 0 <= i < sigs.len() && sigs[i].market == market
}

pub open spec fn signal_index(sigs: Seq<MarketSignal>, market: int) -> int {
    choose|i: int| 0 <= i < sigs.len() && sigs[i].market == market
}

/// The signal ledger after an analysis: the market's entry is
/// replaced, or appended for a first analysis.
pub open spec fn upsert_signal(
    sigs: Seq<MarketSignal>,
    sigs2: Seq<MarketSignal>,
    entry: MarketSignal,
) -> bool {
    if has_signal(sigs, entry.market as int) {
        sigs2 == sigs.update(signal_index(sigs, entry.market as int), entry)
    } else {
        sigs2 == sigs.push(entry)
    }
}

/// The odds as a sequence of integers.
pub open spec fn odds_ints(odds: Seq<u64>) -> Seq<int> {
    odds.map(|i: int, o: u64| o as int)
}

/// Derives a trade signal from a market's odds with the given
/// strategy's threshold rule. Returns the action and a confidence in
/// parts per `UNIT`.
pub fn generate_signal(strategy: &Strategy, odds: &Vec<u64>) -> (r: (TradeAction, u64))
    ensures
        (r.0, r.1 as int) == spec_signal(*strategy, odds_ints(odds@)),
{
    let ghost s = odds_ints(odds@);
    let n = odds.len();
    let mut mx: u64 = 0;
    let mut mn: u64 = UNIT;
    let mut total: u128 = 0;
    let mut idx: usize = 0;
    while idx < n
        invariant
            0 <= idx <= n,
            n == odds.len(),
            s == odds_ints(odds@),
            mx as int == seq_max0(s.take(idx as int)),
            mn as int == seq_min1(s.take(idx as int)),
            total as int == seq_sum(s.take(idx as int)),
            total <= (idx as u128) * (u64::MAX as u128),
        decreases n - idx,
    {
        let o = odds[idx];
        proof {
            assert(s.take(idx + 1).drop_last() =~= s.take(idx as int));
            assert(s.take(idx + 1).last() == s[idx as int]);
            assert((idx as int) * (u64::MAX as int) + u64::MAX as int == (idx + 1) as int * (
            u64::MAX as int)) by (nonlinear_arith);
            assert((idx + 1) as int * (u64::MAX as int) <= u128::MAX) by (nonlinear_arith)
                requires
                    0 <= idx + 1 <= usize::MAX as int,
            ;
        }
        if o > mx {
            mx = o;
        }
        if o < mn {
            mn = o;
        }
        total = total + o as u128;
        idx = idx + 1;
    }
    proof {
        assert(s.take(n as int) =~= s);
    }
    match strategy {
        Strategy::Momentum => {
            if mx > UNIT / 5 * 3 {
                proof {
                    assert(UNIT / 5 * 3 == UNIT as int * 3 / 5);
                }
                (TradeAction::Buy, mx)
            } else {
                proof {
                    assert(UNIT / 5 * 3 == UNIT as int * 3 / 5);
                }
                (TradeAction::Hold, UNIT / 2)
            }
        },
        Strategy::Contrarian => {
            if mn < UNIT / 10 * 3 {
                proof {
                    assert(UNIT / 10 * 3 == UNIT as int * 3 / 10);
                }
                (TradeAction::Buy, UNIT - mn)
            } else {
                proof {
                    assert(UNIT / 10 * 3 == UNIT as int * 3 / 10);
                }
                (TradeAction::Hold, UNIT / 2)
            }
        },
        Strategy::Arbitrage => {
            let low: u64 = UNIT / 20 * 19;
            let high: u64 = UNIT / 20 * 21;
            proof {
                assert(low as int == UNIT as int * 19 / 20);
                assert(high as int == UNIT as int * 21 / 20);
            }
            if total < low as u128 {
                (TradeAction::Buy, low - (total as u64) + UNIT / 2)
            } else if total > high as u128 {
                let excess: u128 = total - high as u128 + (UNIT / 2) as u128;
                if excess > u64::MAX as u128 {
                    (TradeAction::Sell, u64::MAX)
                } else {
                    (TradeAction::Sell, excess as u64)
                }
            } else {
                (TradeAction::Hold, UNIT / 2)
            }
        },
        Strategy::MarketMaker => {
            let spread: u64 = if mx >= mn {
                mx - mn
            } else {
                0
            };
            if spread > UNIT / 5 {
                let lifted: u128 = (UNIT / 2) as u128 + spread as u128;
                if lifted > u64::MAX as u128 {
                    (TradeAction::Buy, u64::MAX)
                } else {
                    (TradeAction::Buy, lifted as u64)
                }
            } else {
                (TradeAction::Hold, UNIT / 2)
            }
        },
    }
}

/// The bot's whole state: configuration, statistics, and the latest
/// signal per analyzed market.
pub struct BotState {
    pub config: BotConfig,
    pub stats: BotStats,
    pub signals: Vec<MarketSignal>,
}

impl BotState {
    /// At most one recorded signal per market.
    pub open spec fn wf(self) -> bool {
        forall|i: int, j: int|
            0 <= i < j < self.signals@.len() ==> self.signals@[i].market
                != self.signals@[j].market
    }

    /// Locates the recorded signal for `market`, if any.
    fn find_signal(signals: &Vec<MarketSignal>, market: u64) -> (r: Option<usize>)
        ensures
            match r {
                Some(i) => i < signals@.len() && signals@[i as int].market == market && (forall|
                    j: int,
                |
                    0 <= j < i ==> signals@[j].market != market),
                None => !has_signal(signals@, market as int),
            },
    {
        let mut idx: usize = 0;
        while idx < signals.len()
            invariant
                0 <= idx <= signals@.len(),
                forall|j: int| 0 <= j < idx ==> signals@[j].market != market,
            decreases signals@.len() - idx,
        {
            if signals[idx].market == market {
                return Some(idx);
            }
            idx = idx + 1;
        }
        None
    }
    /// A fresh bot with the given configuration and zeroed
    /// statistics.
    pub fn new(config: BotConfig) -> (s: BotState)
        ensures
            s.config == config,
            s.stats.total_trades == 0,
            s.stats.winning_trades == 0,
            s.stats.total_pnl == 0,
            s.stats.current_positions@.len() == 0,
            s.signals@.len() == 0,
    {
        BotState {
            config,
            stats: BotStats {
                total_trades: 0,
                winning_trades: 0,
                total_pnl: 0,
                current_positions: Vec::new(),
            },
            signals: Vec::new(),
        }
    }

    /// Replaces the configuration.
    pub fn configure(&mut self, config: BotConfig)
        ensures
            final(self).config == config,
            final(self).stats == old(self).stats,
            final(self).signals == old(self).signals,
    {
        self.config = config;
    }

    /// Deactivates the bot.
    pub fn stop(&mut self)
        ensures
            final(self).config.is_active == false,
            final(self).config.name == old(self).config.name,
            final(self).config.strategy == old(self).config.strategy,
            final(self).config.trade_size == old(self).config.trade_size,
            final(self).config.max_trades_per_block == old(self).config.max_trades_per_block,
            final(self).config.min_odds_threshold == old(self).config.min_odds_threshold,
            final(self).config.max_odds_threshold == old(self).config.max_odds_threshold,
            final(self).stats == old(self).stats,
            final(self).signals == old(self).signals,
    {
        self.config.is_active = false;
    }

    /// Reactivates the bot.
    pub fn start(&mut self)
        ensures
            final(self).config.is_active == true,
            final(self).config.name == old(self).config.name,
            final(self).config.strategy == old(self).config.strategy,
            final(self).config.trade_size == old(self).config.trade_size,
            final(self).config.max_trades_per_block == old(self).config.max_trades_per_block,
            final(self).config.min_odds_threshold == old(self).config.min_odds_threshold,
            final(self).config.max_odds_threshold == old(self).config.max_odds_threshold,
            final(self).stats == old(self).stats,
            final(self).signals == old(self).signals,
    {
        self.config.is_active = true;
    }

    /// Runs one execution pass over the recorded signals: every
    /// signal with confidence at least `7/10` whose action is not
    /// `Hold` counts as one trade, up to the configured per-block
    /// cap. Returns the number of trades made and the number of
    /// markets analyzed. Fails with `NotActive` (and changes nothing)
    /// when the bot is stopped.
    pub fn execute(&mut self) -> (r: Result<(u64, u64), BotError>)
        ensures
            r == Err::<(u64, u64), BotError>(BotError::NotActive) <==> !old(self).config.is_active,
            r is Err ==> *final(self) == *old(self),
            r matches Ok(v) ==> ({
                let tm = spec_trades_made(
                    old(self).signals@,
                    old(self).config.max_trades_per_block as int,
                );
                &&& v.0 == tm
                &&& v.1 == old(self).signals@.len()
                &&& final(self).stats.total_trades as int == sat_add_units(
                    old(self).stats.total_trades as int,
                    tm,
                )
                &&& final(self).stats.winning_trades == old(self).stats.winning_trades
                &&& final(self).stats.total_pnl == old(self).stats.total_pnl
                &&& final(self).stats.current_positions == old(self).stats.current_positions
                &&& final(self).config == old(self).config
                &&& final(self).signals == old(self).signals
            }),
    {
        if !self.config.is_active {
            return Err(BotError::NotActive);
        }
        let ghost sigs = self.signals@;
        let cap = self.config.max_trades_per_block as u64;
        let n = self.signals.len();
        let mut trades_made: u64 = 0;
        let mut idx: usize = 0;
        proof {
            assert(sigs.skip(0) =~= sigs);
        }
        while idx < n && trades_made < cap
            invariant
                0 <= idx <= n,
                n == self.signals@.len(),
                sigs == self.signals@,
                trades_made <= cap,
                spec_trades_made(sigs, cap as int) == trades_made + spec_trades_made(
                    sigs.skip(idx as int),
                    cap - trades_made,
                ),
            decreases n - idx,
        {
            let sig = self.signals[idx];
            proof {
                assert(sigs.skip(idx as int)[0] == sigs[idx as int]);
                assert(sigs.skip(idx as int).skip(1) =~= sigs.skip(idx + 1));
                assert(sigs.skip(idx as int).len() > 0);
                assert((UNIT / 10 * 7) as int == (UNIT as int) * 7 / 10);
            }
            let acts = sig.confidence >= UNIT / 10 * 7 && !matches!(sig.action, TradeAction::Hold);
            if acts {
                trades_made = trades_made + 1;
            }
            idx = idx + 1;
        }
        proof {
            if idx == n {
                assert(sigs.skip(n as int) =~= Seq::<MarketSignal>::empty());
            }
            assert(spec_trades_made(sigs.skip(idx as int), cap - trades_made) == 0);
        }
        let analyzed = n as u64;
        self.stats.total_trades = if self.stats.total_trades <= u64::MAX - trades_made {
            self.stats.total_trades + trades_made
        } else {
            u64::MAX
        };
        Ok((trades_made, analyzed))
    }

    /// Derives a signal for `market` from its current odds, records
    /// it (replacing any earlier signal for that market), and returns
    /// it for the host to forward.
    pub fn analyze_market(&mut self, market: u64, odds: &Vec<u64>) -> (r: (TradeAction, u64))
        requires
            old(self).wf(),
        ensures
            final(self).wf(),
            (r.0, r.1 as int) == spec_signal(old(self).config.strategy, odds_ints(odds@)),
            upsert_signal(
                old(self).signals@,
                final(self).signals@,
                MarketSignal { market, action: r.0, confidence: r.1 },
            ),
            final(self).config == old(self).config,
            final(self).stats == old(self).stats,
    {
        let signal = generate_signal(&self.config.strategy, odds);
        let entry = MarketSignal { market, action: signal.0, confidence: signal.1 };
        match Self::find_signal(&self.signals, market) {
            Some(i) => {
                proof {
                    assert(has_signal(self.signals@, market as int));
                    let si = signal_index(self.signals@, market as int);
                    assert(0 <= si < self.signals@.len() && self.signals@[si].market == market);
                    if si != i {
                        assert(self.signals@[si].market != self.signals@[i as int].market);
                    }
                    assert(si == i);
                }
                self.signals[i] = entry;
            },
            None => {
                self.signals.push(entry);
            },
        }
        signal
    }

    /// Forgets the open position for (`market`, `option_index`).
    pub fn close_position(&mut self, market: u64, option_index: u8)
        ensures
            final(self).stats.current_positions@ == without_position(
                old(self).stats.current_positions@,
                market,
                option_index,
            ),
            final(self).stats.total_trades == old(self).stats.total_trades,
            final(self).stats.winning_trades == old(self).stats.winning_trades,
            final(self).stats.total_pnl == old(self).stats.total_pnl,
            final(self).config == old(self).config,
            final(self).signals == old(self).signals,
    {
        let ghost ps = self.stats.current_positions@;
        let n = self.stats.current_positions.len();
        let mut kept: Vec<(u64, u8, Amount)> = Vec::new();
        let mut idx: usize = 0;
        proof {
            assert(ps.take(0) =~= Seq::<(u64, u8, Amount)>::empty());
        }
        while idx < n
            invariant
                0 <= idx <= n,
                n == self.stats.current_positions@.len(),
                ps == self.stats.current_positions@,
                kept@ == without_position(ps.take(idx as int), market, option_index),
            decreases n - idx,
        {
            let p = self.stats.current_positions[idx];
            proof {
                assert(ps.take(idx + 1).drop_last() =~= ps.take(idx as int));
                assert(ps.take(idx + 1).last() == ps[idx as int]);
            }
            if !(p.0 == market && p.1 == option_index) {
                kept.push(p);
            }
            idx = idx + 1;
        }
        proof {
            assert(ps.take(n as int) =~= ps);
        }
        self.stats.current_positions = kept;
    }

    /// Applies a position-update report: accumulates the signed
    /// profit and loss (clamped at the `i64` range) and counts a
    /// winning trade for a positive report.
    pub fn position_update(&mut self, pnl: i64)
        ensures
            final(self).stats.total_pnl as int == sat_add_i64(
                old(self).stats.total_pnl as int,
                pnl as int,
            ),
            final(self).stats.winning_trades as int == if pnl > 0 {
                sat_add_units(old(self).stats.winning_trades as int, 1)
            } else {
                old(self).stats.winning_trades as int
            },
            final(self).stats.total_trades == old(self).stats.total_trades,
            final(self).stats.current_positions == old(self).stats.current_positions,
            final(self).config == old(self).config,
            final(self).signals == old(self).signals,
    {
        let t = self.stats.total_pnl;
        self.stats.total_pnl = if pnl >= 0 {
            if t <= i64::MAX - pnl {
                t + pnl
            } else {
                i64::MAX
            }
        } else {
            if t >= i64::MIN - pnl {
                t + pnl
            } else {
                i64::MIN
            }
        };
        if pnl > 0 {
            self.stats.winning_trades = if self.stats.winning_trades < u64::MAX {
                self.stats.winning_trades + 1
            } else {
                u64::MAX
            };
        }
    }
}

} // verus!
