use prediction_amm::amount::{Amount, UNIT};
use prediction_amm::errors::AMMError;
use prediction_amm::pricing::compute_swap;

#[test]
fn amounts_saturate_instead_of_wrapping() {
    let max = Amount::from_units(u64::MAX);
    let one = Amount::from_units(1);
    assert_eq!(max.saturating_add(one).units, u64::MAX);
    assert_eq!(one.saturating_add(one).units, 2);
    assert_eq!(Amount::zero().saturating_sub(one).units, 0);
    assert_eq!(one.saturating_sub(one).units, 0);
    assert_eq!(max.saturating_sub(one).units, u64::MAX - 1);
    assert_eq!(max.checked_add(one), None);
    assert_eq!(one.checked_add(one), Some(Amount::from_units(2)));
}

#[test]
fn amount_ordering_is_by_units() {
    let a = Amount::from_units(3);
    let b = Amount::from_units(5);
    assert!(a.lt(b));
    assert!(a.le(b));
    assert!(b.le(b));
    assert!(!b.lt(b));
    assert!(!b.le(a));
}

#[test]
fn from_tokens_scales_by_unit() {
    assert_eq!(Amount::from_tokens(3).units, 3 * UNIT);
    assert_eq!(UNIT, 1_000_000);
}

#[test]
fn pricing_withholds_fee_before_the_formula() {
    // Reserves 500/500 tokens; 1 % fee on a 100-token input leaves
    // 99 tokens for pricing.
    let reserves = vec![Amount::from_tokens(500), Amount::from_tokens(500)];
    let o = compute_swap(&reserves, 0, 1, Amount::from_tokens(100), 10_000).unwrap();
    assert_eq!(o.fee.units, 1 * UNIT);
    assert_eq!(o.new_from_reserve.units, 599 * UNIT);
    assert_eq!(o.new_to_reserve.units, 417_362_270);
    assert_eq!(o.amount_out.units, 82_637_730);
}

#[test]
fn pricing_rejects_empty_reserve() {
    let reserves = vec![Amount::from_tokens(500), Amount::zero()];
    let r = compute_swap(&reserves, 0, 1, Amount::from_tokens(1), 10_000);
    assert_eq!(r, Err(AMMError::InvalidSwap));
}

#[test]
fn pricing_with_zero_fee_uses_whole_input() {
    let reserves = vec![Amount::from_tokens(500), Amount::from_tokens(500)];
    let o = compute_swap(&reserves, 0, 1, Amount::from_tokens(100), 0).unwrap();
    assert_eq!(o.fee.units, 0);
    assert_eq!(o.new_from_reserve.units, 600 * UNIT);
    // 250000 / 600 tokens, truncated at six decimals.
    assert_eq!(o.new_to_reserve.units, 416_666_666);
    assert_eq!(o.amount_out.units, 83_333_334);
}

#[test]
fn error_descriptions_are_stable() {
    assert_eq!(AMMError::PoolNotFound.describe(), "Pool does not exist");
    assert_eq!(AMMError::InsufficientLiquidity.describe(), "Insufficient liquidity");
    assert_eq!(AMMError::InvalidSwap.describe(), "Invalid swap parameters");
    assert_eq!(AMMError::SlippageTooHigh.describe(), "Slippage too high");
    assert_eq!(AMMError::MinLiquidityNotMet.describe(), "Minimum liquidity not met");
}
