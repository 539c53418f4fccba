use prediction_amm::amount::{Amount, UNIT};
use prediction_amm::market::{
    update_odds, MarketError, MarketState, MarketStatus, Position,
};

fn frac(hundredths: u64) -> u64 {
    hundredths * UNIT / 100
}

fn two_way_market() -> MarketState {
    MarketState::create(
        String::from("title"),
        String::from("desc"),
        vec![String::from("yes"), String::from("no")],
        None,
        9,
    )
}

#[test]
fn create_gives_even_odds() {
    let m = two_way_market();
    assert_eq!(m.odds, vec![frac(50), frac(50)]);
    assert_eq!(m.total_volume.units, 0);
    assert_eq!(m.liquidity.units, 1000 * UNIT);
    assert_eq!(m.status, MarketStatus::Active);
    assert_eq!(m.resolved_outcome, None);
    assert_eq!(m.created_at, 9);
}

#[test]
fn update_odds_buy_shifts_toward_option() {
    // liquidity 1000 tokens, amount 100 tokens: impact is
    // 100 / (1000 * 10) = 1 %.
    let odds = vec![frac(50), frac(50)];
    let new = update_odds(&odds, 0, Amount::from_units(100 * UNIT), true, Amount::from_units(
        1000 * UNIT,
    ));
    assert_eq!(new, vec![frac(51), frac(49)]);
}

#[test]
fn update_odds_sell_shifts_away_from_option() {
    let odds = vec![frac(50), frac(50)];
    let new = update_odds(&odds, 0, Amount::from_units(100 * UNIT), false, Amount::from_units(
        1000 * UNIT,
    ));
    assert_eq!(new, vec![frac(49), frac(51)]);
}

#[test]
fn update_odds_caps_and_renormalizes() {
    // A huge buy pushes the option to the 99 % cap and the other to
    // the 1 % floor; they already sum to UNIT.
    let odds = vec![frac(50), frac(50)];
    let new = update_odds(&odds, 0, Amount::from_units(100_000 * UNIT), true, Amount::from_units(
        1000 * UNIT,
    ));
    assert_eq!(new, vec![frac(99), frac(1)]);
}

#[test]
fn place_trade_returns_pre_trade_price() {
    let mut m = two_way_market();
    let price = m.place_trade(0, Amount::from_units(100 * UNIT), true).unwrap();
    assert_eq!(price, frac(50));
    assert_eq!(m.total_volume.units, 100 * UNIT);
    assert_eq!(m.odds, vec![frac(51), frac(49)]);
}

#[test]
fn place_trade_rejects_bad_option() {
    let mut m = two_way_market();
    assert_eq!(
        m.place_trade(2, Amount::from_units(UNIT), true),
        Err(MarketError::InvalidOption),
    );
    assert_eq!(m.odds, vec![frac(50), frac(50)]);
}

#[test]
fn place_trade_rejects_inactive_market() {
    let mut m = two_way_market();
    m.resolve_market(0).unwrap();
    assert_eq!(
        m.place_trade(0, Amount::from_units(UNIT), true),
        Err(MarketError::MarketNotActive),
    );
}

#[test]
fn resolve_market_sets_outcome_once() {
    let mut m = two_way_market();
    assert!(m.is_active());
    m.resolve_market(1).unwrap();
    assert!(!m.is_active());
    assert_eq!(m.status, MarketStatus::Resolved);
    assert_eq!(m.resolved_outcome, Some(1));
    assert_eq!(m.resolve_market(0), Err(MarketError::AlreadyResolved));
    assert_eq!(m.resolved_outcome, Some(1));
}

#[test]
fn resolve_market_rejects_bad_outcome() {
    let mut m = two_way_market();
    assert_eq!(m.resolve_market(5), Err(MarketError::InvalidOption));
    assert_eq!(m.status, MarketStatus::Active);
}

#[test]
fn add_liquidity_deepens_market() {
    let mut m = two_way_market();
    m.add_liquidity(Amount::from_units(500 * UNIT));
    assert_eq!(m.liquidity.units, 1500 * UNIT);
    // Deeper liquidity dampens the same trade's impact:
    // 100 / (1500 * 10) of UNIT, truncated to 6666.
    let new = update_odds(&m.odds, 0, Amount::from_units(100 * UNIT), true, m.liquidity);
    assert_eq!(new[0], 506_666);
}

#[test]
fn update_option_odds_renormalizes() {
    let mut m = two_way_market();
    m.update_option_odds(0, frac(70)).unwrap();
    // [0.70, 0.50] rescaled: 0.70/1.20 and 0.50/1.20, truncated.
    assert_eq!(m.odds, vec![583_333, 416_666]);
    assert_eq!(m.update_option_odds(9, frac(10)), Err(MarketError::InvalidOption));
    assert_eq!(m.odds, vec![583_333, 416_666]);
}

#[test]
fn claim_payout_needs_resolution_and_winning_position() {
    let mut m = two_way_market();
    let winning = Position { option_index: 1, amount: Amount::from_units(5), avg_price: frac(50) };
    let losing = Position { option_index: 0, amount: Amount::from_units(5), avg_price: frac(50) };
    assert_eq!(m.claim_payout(&vec![winning]), Err(MarketError::MarketNotActive));
    m.resolve_market(1).unwrap();
    assert_eq!(m.claim_payout(&vec![losing]), Err(MarketError::NoPosition));
    assert_eq!(m.claim_payout(&vec![losing, winning]), Ok(1));
    assert_eq!(m.claim_payout(&vec![]), Err(MarketError::NoPosition));
}
