use prediction_amm::amount::{Amount, UNIT};
use prediction_amm::engine::{AMMParameters, AmmState, Message};
use prediction_amm::errors::AMMError;

fn params(fee_rate: u64, min_liquidity_units: u64) -> AMMParameters {
    AMMParameters { fee_rate, min_liquidity: Amount::from_units(min_liquidity_units) }
}

/// 1 % fee, no minimum.
fn engine_one_percent() -> AmmState {
    AmmState::new(params(10_000, 0))
}

fn tokens(t: u64) -> Amount {
    Amount::from_units(t * UNIT)
}

#[test]
fn create_pool_splits_reserves_evenly() {
    let mut s = engine_one_percent();
    s.create_pool(1, 2, tokens(1000), 7, 42).unwrap();
    assert_eq!(s.pools.len(), 1);
    let pool = &s.pools[0].pool;
    assert_eq!(pool.option_reserves.len(), 2);
    assert_eq!(pool.option_reserves[0].units, 500 * UNIT);
    assert_eq!(pool.option_reserves[1].units, 500 * UNIT);
    assert_eq!(pool.total_liquidity.units, 1000 * UNIT);
    assert_eq!(pool.k_constant, (500 * UNIT as u128) * (500 * UNIT as u128));
    assert_eq!(pool.fee_collected.units, 0);
    assert_eq!(pool.total_volume.units, 0);
    assert_eq!(s.total_pools, 1);
    // The creator holds the whole deposit as shares.
    assert_eq!(s.pools[0].positions.len(), 1);
    assert_eq!(s.pools[0].positions[0].provider, 7);
    assert_eq!(s.pools[0].positions[0].position.shares.units, 1000 * UNIT);
    assert_eq!(s.pools[0].positions[0].position.deposited_at, 42);
}

#[test]
fn create_pool_assigns_remainder_to_option_zero() {
    let mut s = engine_one_percent();
    s.create_pool(1, 3, Amount::from_units(1001), 7, 0).unwrap();
    let pool = &s.pools[0].pool;
    assert_eq!(pool.option_reserves[0].units, 333 + 2);
    assert_eq!(pool.option_reserves[1].units, 333);
    assert_eq!(pool.option_reserves[2].units, 333);
    let sum: u64 = pool.option_reserves.iter().map(|a| a.units).sum();
    assert_eq!(sum, 1001);
}

#[test]
fn create_pool_below_minimum_fails() {
    let mut s = AmmState::new(params(10_000, 500 * UNIT));
    let r = s.create_pool(1, 2, tokens(100), 7, 0);
    assert_eq!(r, Err(AMMError::MinLiquidityNotMet));
    assert_eq!(s.pools.len(), 0);
    assert_eq!(s.total_pools, 0);
}

#[test]
fn create_pool_zero_deposit_fails() {
    let mut s = engine_one_percent();
    let r = s.create_pool(1, 2, Amount::zero(), 7, 0);
    assert_eq!(r, Err(AMMError::InsufficientLiquidity));
    assert_eq!(s.pools.len(), 0);
}

#[test]
fn quote_then_swap_scenario() {
    // Two options, liquidity 1000 => reserves [500, 500], k = 250000
    // token^2. Swap 100 of option 0 into option 1 at 1 % fee:
    // fee = 1, input after fee = 99, new_reserve[0] = 599,
    // new_reserve[1] = 250000/599 = 417.362270, out = 82.637730.
    let mut s = engine_one_percent();
    s.create_pool(1, 2, tokens(1000), 7, 0).unwrap();

    let quoted = s.get_quote(1, 0, tokens(100), true).unwrap();
    assert_eq!(quoted.units, 82_637_730);

    let out = s.swap(1, 0, 1, tokens(100), Amount::zero()).unwrap();
    assert_eq!(out.units, quoted.units);

    let pool = &s.pools[0].pool;
    assert_eq!(pool.option_reserves[0].units, 599 * UNIT);
    assert_eq!(pool.option_reserves[1].units, 417_362_270);
    assert_eq!(pool.fee_collected.units, 1 * UNIT);
    assert_eq!(pool.total_volume.units, 100 * UNIT);
    // Swaps leave the stored constant untouched.
    assert_eq!(pool.k_constant, (500 * UNIT as u128) * (500 * UNIT as u128));
    assert_eq!(s.total_volume.units, 100 * UNIT);
    // The product of the reserves stays within one unit of k.
    let prod = (pool.option_reserves[0].units as u128) * (pool.option_reserves[1].units as u128);
    assert!(prod <= pool.k_constant);
    assert!(pool.k_constant - prod < pool.option_reserves[0].units as u128);
}

#[test]
fn swap_same_option_fails() {
    let mut s = engine_one_percent();
    s.create_pool(1, 2, tokens(1000), 7, 0).unwrap();
    let r = s.swap(1, 0, 0, tokens(10), Amount::zero());
    assert_eq!(r, Err(AMMError::InvalidSwap));
    assert_eq!(s.pools[0].pool.option_reserves[0].units, 500 * UNIT);
    assert_eq!(s.pools[0].pool.total_volume.units, 0);
}

#[test]
fn swap_out_of_range_option_fails() {
    let mut s = engine_one_percent();
    s.create_pool(1, 2, tokens(1000), 7, 0).unwrap();
    assert_eq!(s.swap(1, 0, 2, tokens(10), Amount::zero()), Err(AMMError::InvalidSwap));
    assert_eq!(s.swap(1, 5, 1, tokens(10), Amount::zero()), Err(AMMError::InvalidSwap));
}

#[test]
fn swap_unknown_pool_fails() {
    let mut s = engine_one_percent();
    assert_eq!(s.swap(9, 0, 1, tokens(10), Amount::zero()), Err(AMMError::PoolNotFound));
    assert_eq!(s.get_quote(9, 0, tokens(10), true), Err(AMMError::PoolNotFound));
    assert_eq!(s.add_liquidity(9, tokens(10), 7, 0), Err(AMMError::PoolNotFound));
    assert_eq!(s.remove_liquidity(9, tokens(10), 7), Err(AMMError::PoolNotFound));
}

#[test]
fn swap_slippage_protection() {
    let mut s = engine_one_percent();
    s.create_pool(1, 2, tokens(1000), 7, 0).unwrap();
    // The swap would realize 82.637730; demanding 83 fails.
    let r = s.swap(1, 0, 1, tokens(100), tokens(83));
    assert_eq!(r, Err(AMMError::SlippageTooHigh));
    assert_eq!(s.pools[0].pool.option_reserves[0].units, 500 * UNIT);
    assert_eq!(s.pools[0].pool.fee_collected.units, 0);
    // Demanding exactly the realized output succeeds.
    let out = s.swap(1, 0, 1, tokens(100), Amount::from_units(82_637_730)).unwrap();
    assert_eq!(out.units, 82_637_730);
}

#[test]
fn swap_exhausting_reserve_fails() {
    let mut s = engine_one_percent();
    s.create_pool(1, 2, Amount::from_units(2000), 7, 0).unwrap();
    // A gigantic input would truncate the output reserve to zero.
    let r = s.swap(1, 0, 1, Amount::from_units(u64::MAX / 2), Amount::zero());
    assert_eq!(r, Err(AMMError::InvalidSwap));
    assert_eq!(s.pools[0].pool.option_reserves[0].units, 1000);
}

#[test]
fn remove_liquidity_more_than_held_fails() {
    let mut s = engine_one_percent();
    s.create_pool(1, 2, tokens(1000), 7, 0).unwrap();
    let r = s.remove_liquidity(1, tokens(2000), 7);
    assert_eq!(r, Err(AMMError::InsufficientLiquidity));
    // Pool and position are unchanged.
    assert_eq!(s.pools[0].pool.total_liquidity.units, 1000 * UNIT);
    assert_eq!(s.pools[0].pool.option_reserves[0].units, 500 * UNIT);
    assert_eq!(s.pools[0].positions[0].position.shares.units, 1000 * UNIT);
}

#[test]
fn remove_liquidity_unknown_provider_fails() {
    let mut s = engine_one_percent();
    s.create_pool(1, 2, tokens(1000), 7, 0).unwrap();
    assert_eq!(s.remove_liquidity(1, tokens(1), 99), Err(AMMError::InsufficientLiquidity));
}

#[test]
fn add_liquidity_zero_amount_fails() {
    let mut s = engine_one_percent();
    s.create_pool(1, 2, tokens(1000), 7, 0).unwrap();
    assert_eq!(s.add_liquidity(1, Amount::zero(), 7, 0), Err(AMMError::InsufficientLiquidity));
}

#[test]
fn add_liquidity_scales_reserves_and_mints_shares() {
    let mut s = engine_one_percent();
    s.create_pool(1, 2, tokens(1000), 7, 0).unwrap();
    s.add_liquidity(1, tokens(500), 8, 5).unwrap();
    let pool = &s.pools[0].pool;
    assert_eq!(pool.total_liquidity.units, 1500 * UNIT);
    // Each reserve grows by the ratio 500/1000.
    assert_eq!(pool.option_reserves[0].units, 750 * UNIT);
    assert_eq!(pool.option_reserves[1].units, 750 * UNIT);
    assert_eq!(pool.k_constant, (750 * UNIT as u128) * (750 * UNIT as u128));
    // The depositor's position records the minted shares.
    assert_eq!(s.pools[0].positions.len(), 2);
    assert_eq!(s.pools[0].positions[1].provider, 8);
    assert_eq!(s.pools[0].positions[1].position.shares.units, 500 * UNIT);
    assert_eq!(s.pools[0].positions[1].position.deposited_at, 5);
}

#[test]
fn share_conservation_across_operations() {
    let mut s = engine_one_percent();
    s.create_pool(1, 2, tokens(1000), 7, 0).unwrap();
    s.add_liquidity(1, tokens(300), 8, 1).unwrap();
    s.add_liquidity(1, tokens(200), 7, 2).unwrap();
    s.remove_liquidity(1, tokens(150), 8).unwrap();
    let sum: u64 = s.pools[0].positions.iter().map(|e| e.position.shares.units).sum();
    assert_eq!(sum, s.pools[0].pool.total_liquidity.units);
    assert_eq!(sum, 1350 * UNIT);
}

#[test]
fn add_then_remove_restores_reserves() {
    let mut s = engine_one_percent();
    s.create_pool(1, 2, tokens(1000), 7, 0).unwrap();
    // Make the reserves uneven first, so the scaling is non-trivial.
    s.swap(1, 0, 1, tokens(100), Amount::zero()).unwrap();
    let before: Vec<u64> = s.pools[0].pool.option_reserves.iter().map(|a| a.units).collect();
    let total_before = s.pools[0].pool.total_liquidity.units;

    s.add_liquidity(1, tokens(137), 8, 1).unwrap();
    s.remove_liquidity(1, tokens(137), 8).unwrap();

    let after: Vec<u64> = s.pools[0].pool.option_reserves.iter().map(|a| a.units).collect();
    assert_eq!(before, after);
    assert_eq!(s.pools[0].pool.total_liquidity.units, total_before);
}

#[test]
fn volume_and_fees_never_decrease() {
    let mut s = engine_one_percent();
    s.create_pool(1, 2, tokens(1000), 7, 0).unwrap();
    let mut last_fee = 0u64;
    let mut last_vol = 0u64;
    for (from, to) in [(0u8, 1u8), (1, 0), (0, 1)] {
        s.swap(1, from, to, tokens(50), Amount::zero()).unwrap();
        let pool = &s.pools[0].pool;
        assert!(pool.fee_collected.units >= last_fee);
        assert!(pool.total_volume.units >= last_vol);
        last_fee = pool.fee_collected.units;
        last_vol = pool.total_volume.units;
    }
    assert_eq!(last_vol, 150 * UNIT);
    assert_eq!(last_fee, 1_500_000);
}

#[test]
fn quote_does_not_mutate() {
    let mut s = engine_one_percent();
    s.create_pool(1, 2, tokens(1000), 7, 0).unwrap();
    s.take_messages();
    let _ = s.get_quote(1, 0, tokens(100), true).unwrap();
    let _ = s.get_quote(1, 1, tokens(5), false).unwrap();
    assert_eq!(s.pools[0].pool.option_reserves[0].units, 500 * UNIT);
    assert_eq!(s.pools[0].pool.fee_collected.units, 0);
    assert_eq!(s.pools[0].pool.total_volume.units, 0);
    assert!(s.take_messages().is_empty());
}

#[test]
fn quote_sell_direction_prices_into_quoted_option() {
    let mut s = engine_one_percent();
    s.create_pool(1, 2, tokens(1000), 7, 0).unwrap();
    // is_buy = false quotes spending the counterpart into option 1,
    // which on a symmetric pool prices like any single swap.
    let q = s.get_quote(1, 1, tokens(100), false).unwrap();
    assert_eq!(q.units, 82_637_730);
}

#[test]
fn notifications_are_queued_in_order() {
    let mut s = engine_one_percent();
    s.create_pool(1, 2, tokens(1000), 7, 0).unwrap();
    s.add_liquidity(1, tokens(10), 8, 3).unwrap();
    s.swap(1, 0, 1, tokens(10), Amount::zero()).unwrap();
    let msgs = s.take_messages();
    assert_eq!(msgs.len(), 3);
    assert_eq!(msgs[0], Message::PoolCreated { market: 1, liquidity: tokens(1000) });
    assert_eq!(
        msgs[1],
        Message::LiquidityAdded { market: 1, provider: 8, amount: tokens(10), shares: tokens(10) },
    );
    match msgs[2] {
        Message::SwapExecuted { market, from, to, amount_in, amount_out } => {
            assert_eq!((market, from, to), (1, 0, 1));
            assert_eq!(amount_in, tokens(10));
            assert!(amount_out.units > 0);
        },
        _ => panic!("expected a swap notification"),
    }
    // The queue is drained.
    assert!(s.take_messages().is_empty());
}

#[test]
fn swap_on_drained_pool_fails() {
    let mut s = engine_one_percent();
    s.create_pool(1, 2, tokens(1000), 7, 0).unwrap();
    // Withdrawing every share empties the reserves.
    s.remove_liquidity(1, tokens(1000), 7).unwrap();
    assert_eq!(s.pools[0].pool.option_reserves[0].units, 0);
    assert_eq!(s.pools[0].pool.total_liquidity.units, 0);
    // A swap against empty reserves is refused.
    assert_eq!(s.swap(1, 0, 1, tokens(1), Amount::zero()), Err(AMMError::InvalidSwap));
    // A further deposit would divide by zero liquidity and is refused.
    assert_eq!(s.add_liquidity(1, tokens(1), 7, 0), Err(AMMError::InvalidSwap));
}

#[test]
fn three_option_pool_swap_keeps_product() {
    let mut s = engine_one_percent();
    s.create_pool(2, 3, tokens(900), 7, 0).unwrap();
    let k = s.pools[0].pool.k_constant;
    s.swap(2, 0, 2, tokens(30), Amount::zero()).unwrap();
    let pool = &s.pools[0].pool;
    assert_eq!(pool.k_constant, k);
    let prod: u128 = pool.option_reserves.iter().map(|a| a.units as u128).product();
    assert!(prod <= k);
    // Untouched middle reserve.
    assert_eq!(pool.option_reserves[1].units, 300 * UNIT);
}
