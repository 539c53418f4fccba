//! The swap pricing engine.
//!
//! A pure function from the current reserves and a requested trade to
//! the fee, the two updated reserves, and the output amount. Committed
//! swaps and non-mutating quotes both go through [`compute_swap`], so
//! a quote and the swap that follows it price identically.
//!
//! Pricing follows the conserved-product rule: the input reserve grows
//! by the input net of fee, and the output reserve becomes the value
//! that keeps the product of all reserves constant. Because the other
//! reserves are untouched, that value is
//! `old_from * old_to / new_from`, truncated; truncation always
//! favours the pool.

use vstd::prelude::*;

use crate::amount::{units_of, Amount, UNIT};
use crate::arith::{
    lemma_div_is_ordered, lemma_mul_div_cancel, lemma_mul_div_le, lemma_mul_le, mul_div_sat,
    sat64,
};
use crate::errors::AMMError;

verus! {

/// The result of pricing one swap: both updated reserves, the fee
/// withheld from the input, and the amount paid out.
#[derive(Clone, Copy, Debug, PartialEq, Eq, Structural)]
pub struct SwapOutcome {
    pub new_from_reserve: Amount,
    pub new_to_reserve: Amount,
    pub fee: Amount,
    pub amount_out: Amount,
}

/// The fee withheld from a gross input: `amount * fee_rate / UNIT`,
/// truncated. `fee_rate` is a fraction in units per `UNIT`.
pub open spec fn spec_fee(amount: int, fee_rate: int) -> int {
    amount * fee_rate / (UNIT as int)
}

/// The input net of fee, which is what the pricing formula consumes.
pub open spec fn spec_after_fee(amount: int, fee_rate: int) -> int {
    amount - spec_fee(amount, fee_rate)
}

/// The input reserve after the swap, clamped to the `u64` range.
pub open spec fn spec_new_from(of: int, amount: int, fee_rate: int) -> int {
    sat64(of + spec_after_fee(amount, fee_rate))
}

/// The output reserve after the swap: the value keeping
/// `from * to` constant, truncated.
pub open spec fn spec_new_to(of: int, ot: int, nf: int) -> int {
    of * ot / nf
}

/// Every reserve holds at least one raw unit.
pub open spec fn all_reserves_pos(rs: Seq<int>) -> bool {
    forall|i: int| 0 <= i < rs.len() ==> rs[i] >= 1
}

/// Whether a requested swap is admissible: distinct in-range indices,
/// no empty reserve (the conserved-product formula would otherwise
/// divide by zero), and a destination reserve that is not exhausted.
pub open spec fn swap_ok(rs: Seq<int>, from: int, to: int, amount: int, fee_rate: int) -> bool {
    &&& 0 <= from < rs.len()
    &&& 0 <= to < rs.len()
    &&& from != to
    &&& all_reserves_pos(rs)
    &&& spec_new_to(rs[from], rs[to], spec_new_from(rs[from], amount, fee_rate)) >= 1
}

/// The amount paid out by an admissible swap.
pub open spec fn spec_amount_out(rs: Seq<int>, from: int, to: int, amount: int, fee_rate: int) -> int {
    rs[to] - spec_new_to(rs[from], rs[to], spec_new_from(rs[from], amount, fee_rate))
}

/// Prices one swap against the given reserves without mutating
/// anything. Fails with `InvalidSwap` exactly when the request is
/// inadmissible; on success every field of the outcome is the value
/// of the corresponding pricing formula.
pub fn compute_swap(reserves: &Vec<Amount>, from: u8, to: u8, amount: Amount, fee_rate: u64) -> (r:
    Result<SwapOutcome, AMMError>)
    requires
        fee_rate < UNIT,
    ensures
        ({
            let rs = units_of(reserves@);
            match r {
                Ok(o) => {
                    &&& swap_ok(rs, from as int, to as int, amount.as_int(), fee_rate as int)
                    &&& o.fee.units == spec_fee(amount.as_int(), fee_rate as int)
                    &&& o.new_from_reserve.units == spec_new_from(
                        rs[from as int],
                        amount.as_int(),
                        fee_rate as int,
                    )
                    &&& o.new_to_reserve.units == spec_new_to(
                        rs[from as int],
                        rs[to as int],
                        o.new_from_reserve.units as int,
                    )
                    &&& o.amount_out.units == spec_amount_out(
                        rs,
                        from as int,
                        to as int,
                        amount.as_int(),
                        fee_rate as int,
                    )
                },
                Err(e) => {
                    &&& e == AMMError::InvalidSwap
                    &&& !swap_ok(rs, from as int, to as int, amount.as_int(), fee_rate as int)
                },
            }
        }),
{
    let ghost rs = units_of(reserves@);
    let n = reserves.len();
    if from as usize >= n || to as usize >= n || from == to {
        return Err(AMMError::InvalidSwap);
    }
    let mut idx: usize = 0;
    while idx < n
        invariant
            0 <= idx <= n,
            n == reserves.len(),
            rs == units_of(reserves@),
            forall|j: int| 0 <= j < idx ==> rs[j] >= 1,
        decreases n - idx,
    {
        if reserves[idx].units == 0 {
            assert(rs[idx as int] == 0);
            return Err(AMMError::InvalidSwap);
        }
        idx = idx + 1;
    }
    assert(all_reserves_pos(rs));

    let fee_units = mul_div_sat(amount.units, fee_rate, UNIT);
    proof {
        lemma_mul_div_le(amount.units as int, fee_rate as int, UNIT as int);
    }
    assert(fee_units as int == spec_fee(amount.as_int(), fee_rate as int));
    let after_fee = amount.units - fee_units;

    let of = reserves[from as usize].units;
    let ot = reserves[to as usize].units;
    let nf = if of <= u64::MAX - after_fee {
        of + after_fee
    } else {
        u64::MAX
    };
    assert(nf as int == spec_new_from(of as int, amount.as_int(), fee_rate as int));
    assert(of <= nf);

    proof {
        lemma_mul_le(of as int, ot as int, u64::MAX as int, u64::MAX as int);
    }
    assert(of as int == rs[from as int] && ot as int == rs[to as int]);
    assert(of >= 1);
    let nt_wide: u128 = (of as u128) * (ot as u128) / (nf as u128);
    proof {
        lemma_mul_le(of as int, ot as int, nf as int, ot as int);
        lemma_div_is_ordered(of as int * ot as int, nf as int * ot as int, nf as int);
        lemma_mul_div_cancel(ot as int, nf as int);
    }
    assert(nt_wide as int == spec_new_to(of as int, ot as int, nf as int));
    assert(nt_wide <= ot as u128);
    let nt = nt_wide as u64;
    if nt == 0 {
        return Err(AMMError::InvalidSwap);
    }
    let out = ot - nt;
    Ok(
        SwapOutcome {
            new_from_reserve: Amount::from_units(nf),
            new_to_reserve: Amount::from_units(nt),
            fee: Amount::from_units(fee_units),
            amount_out: Amount::from_units(out),
        },
    )
}

} // verus!
