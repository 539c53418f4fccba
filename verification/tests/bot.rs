use prediction_amm::amount::{Amount, UNIT};
use prediction_amm::bot::{BotConfig, BotError, BotState, Strategy, TradeAction};

fn frac(hundredths: u64) -> u64 {
    hundredths * UNIT / 100
}

fn config(strategy: Strategy, active: bool, max_trades: u8) -> BotConfig {
    BotConfig {
        name: String::from("bot"),
        strategy,
        trade_size: Amount::from_units(UNIT),
        max_trades_per_block: max_trades,
        min_odds_threshold: frac(10),
        max_odds_threshold: frac(90),
        is_active: active,
    }
}

#[test]
fn momentum_buys_high_odds() {
    let mut bot = BotState::new(config(Strategy::Momentum, true, 4));
    let (action, confidence) = bot.analyze_market(1, &vec![frac(70), frac(30)]);
    assert!(matches!(action, TradeAction::Buy));
    assert_eq!(confidence, frac(70));
}

#[test]
fn momentum_holds_low_odds() {
    let mut bot = BotState::new(config(Strategy::Momentum, true, 4));
    let (action, confidence) = bot.analyze_market(1, &vec![frac(50), frac(50)]);
    assert!(matches!(action, TradeAction::Hold));
    assert_eq!(confidence, frac(50));
}

#[test]
fn contrarian_buys_depressed_odds() {
    let mut bot = BotState::new(config(Strategy::Contrarian, true, 4));
    let (action, confidence) = bot.analyze_market(1, &vec![frac(20), frac(80)]);
    assert!(matches!(action, TradeAction::Buy));
    assert_eq!(confidence, frac(80));
}

#[test]
fn arbitrage_buys_when_odds_sum_low() {
    let mut bot = BotState::new(config(Strategy::Arbitrage, true, 4));
    let (action, confidence) = bot.analyze_market(1, &vec![frac(40), frac(50)]);
    assert!(matches!(action, TradeAction::Buy));
    // 0.95 - 0.90 + 0.50 = 0.55
    assert_eq!(confidence, frac(55));
}

#[test]
fn arbitrage_sells_when_odds_sum_high() {
    let mut bot = BotState::new(config(Strategy::Arbitrage, true, 4));
    let (action, confidence) = bot.analyze_market(1, &vec![frac(60), frac(60)]);
    assert!(matches!(action, TradeAction::Sell));
    // 1.20 - 1.05 + 0.50 = 0.65
    assert_eq!(confidence, frac(65));
}

#[test]
fn market_maker_buys_wide_spread() {
    let mut bot = BotState::new(config(Strategy::MarketMaker, true, 4));
    let (action, confidence) = bot.analyze_market(1, &vec![frac(80), frac(20)]);
    assert!(matches!(action, TradeAction::Buy));
    // 0.50 + 0.60 = 1.10
    assert_eq!(confidence, frac(110));
}

#[test]
fn market_maker_holds_tight_spread() {
    let mut bot = BotState::new(config(Strategy::MarketMaker, true, 4));
    let (action, confidence) = bot.analyze_market(1, &vec![frac(55), frac(45)]);
    assert!(matches!(action, TradeAction::Hold));
    assert_eq!(confidence, frac(50));
}

#[test]
fn analyze_market_replaces_earlier_signal() {
    let mut bot = BotState::new(config(Strategy::Momentum, true, 4));
    bot.analyze_market(1, &vec![frac(70), frac(30)]);
    bot.analyze_market(1, &vec![frac(50), frac(50)]);
    assert_eq!(bot.signals.len(), 1);
    assert!(matches!(bot.signals[0].action, TradeAction::Hold));
    bot.analyze_market(2, &vec![frac(70), frac(30)]);
    assert_eq!(bot.signals.len(), 2);
}

#[test]
fn execute_requires_active_bot() {
    let mut bot = BotState::new(config(Strategy::Momentum, false, 4));
    assert_eq!(bot.execute(), Err(BotError::NotActive));
    bot.start();
    assert!(bot.execute().is_ok());
    bot.stop();
    assert_eq!(bot.execute(), Err(BotError::NotActive));
}

#[test]
fn execute_counts_confident_signals_up_to_cap() {
    let mut bot = BotState::new(config(Strategy::Momentum, true, 2));
    // Three confident buy signals, one hold, one low-confidence buy.
    bot.analyze_market(1, &vec![frac(80), frac(20)]);
    bot.analyze_market(2, &vec![frac(75), frac(25)]);
    bot.analyze_market(3, &vec![frac(90), frac(10)]);
    bot.analyze_market(4, &vec![frac(50), frac(50)]);
    let (trades, analyzed) = bot.execute().unwrap();
    // Capped at two trades per block.
    assert_eq!(trades, 2);
    assert_eq!(analyzed, 4);
    assert_eq!(bot.stats.total_trades, 2);
    let (trades2, _) = bot.execute().unwrap();
    assert_eq!(trades2, 2);
    assert_eq!(bot.stats.total_trades, 4);
}

#[test]
fn close_position_drops_matching_record() {
    let mut bot = BotState::new(config(Strategy::Momentum, true, 4));
    bot.stats.current_positions = vec![
        (1, 0, Amount::from_units(5)),
        (1, 1, Amount::from_units(6)),
        (2, 0, Amount::from_units(7)),
    ];
    bot.close_position(1, 0);
    assert_eq!(bot.stats.current_positions.len(), 2);
    assert_eq!(bot.stats.current_positions[0].0, 1);
    assert_eq!(bot.stats.current_positions[0].1, 1);
    assert_eq!(bot.stats.current_positions[1].0, 2);
}

#[test]
fn position_update_tracks_pnl_and_wins() {
    let mut bot = BotState::new(config(Strategy::Momentum, true, 4));
    bot.position_update(250);
    bot.position_update(-100);
    bot.position_update(50);
    assert_eq!(bot.stats.total_pnl, 200);
    assert_eq!(bot.stats.winning_trades, 2);
}

#[test]
fn position_update_saturates_at_i64_bounds() {
    let mut bot = BotState::new(config(Strategy::Momentum, true, 4));
    bot.position_update(i64::MAX);
    bot.position_update(i64::MAX);
    assert_eq!(bot.stats.total_pnl, i64::MAX);
    bot.position_update(i64::MIN);
    bot.position_update(i64::MIN);
    bot.position_update(-1);
    assert_eq!(bot.stats.total_pnl, i64::MIN);
}

#[test]
fn default_strategy_is_momentum() {
    assert_eq!(Strategy::default(), Strategy::Momentum);
}
