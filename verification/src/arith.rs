//! Integer helpers for fixed-point ratio arithmetic.
//!
//! The pool engine repeatedly needs `floor(a * b / d)` on raw unit
//! counts. The product is taken at full width, so the result is exact
//! up to the final truncating division, and is clamped to the `u64`
//! range from above.

use vstd::prelude::*;

verus! {

/// `x` clamped to the `u64` range from above.
pub open spec fn sat64(x: int) -> int {
    if x <= u64::MAX { x } else { u64::MAX as int }
}

/// `x` clamped to the `u128` range from above.
pub open spec fn sat128(x: int) -> int {
    if x <= u128::MAX { x } else { u128::MAX as int }
}

/// `floor(a * b / d)`, exactly, as a mathematical integer.
pub open spec fn mul_div(a: int, b: int, d: int) -> int {
    a * b / d
}

/// Products of non-negative factors respect factor-wise bounds.
pub proof fn lemma_mul_le(a: int, b: int, c: int, d: int)
    by (nonlinear_arith)
    requires
        0 <= a <= c,
        0 <= b <= d,
    ensures
        a * b <= c * d,
{
}

/// A truncating division never exceeds the true quotient scaled back:
/// `d * (x / d) <= x < d * (x / d + 1)` for positive `d`.
pub proof fn lemma_div_bounds(x: int, d: int)
    by (nonlinear_arith)
    requires
        0 <= x,
        0 < d,
    ensures
        d * (x / d) <= x,
        x < d * (x / d + 1),
        0 <= x / d,
{
}

/// Division by a positive divisor is monotone in the dividend.
pub proof fn lemma_div_is_ordered(x: int, y: int, d: int)
    by (nonlinear_arith)
    requires
        0 <= x <= y,
        0 < d,
    ensures
        x / d <= y / d,
{
}

/// Scaling by a fraction `b / d` with `b <= d` does not grow `a`.
pub proof fn lemma_mul_div_le(a: int, b: int, d: int)
    by (nonlinear_arith)
    requires
        0 <= a,
        0 <= b <= d,
        0 < d,
    ensures
        0 <= a * b / d <= a,
{
}

/// A dividend strictly below `q * d` has quotient strictly below `q`.
pub proof fn lemma_div_strict_bound(x: int, q: int, d: int)
    by (nonlinear_arith)
    requires
        0 <= x,
        0 < d,
        x < q * d,
    ensures
        x / d < q,
{
}

/// Dividing an exact multiple gives back the factor.
pub proof fn lemma_mul_div_cancel(x: int, d: int)
    by (nonlinear_arith)
    requires
        0 < d,
    ensures
        (d * x) / d == x,
{
}

/// `floor(a * b / d)`, clamped to the `u64` range from above.
pub fn mul_div_sat(a: u64, b: u64, d: u64) -> (r: u64)
    requires
        d > 0,
    ensures
        r as int == sat64(mul_div(a as int, b as int, d as int)),
{
    proof {
        lemma_mul_le(a as int, b as int, u64::MAX as int, u64::MAX as int);
    }
    let q: u128 = (a as u128) * (b as u128) / (d as u128);
    proof {
        lemma_div_is_ordered(0, (a as int) * (b as int), d as int);
    }
    if q > u64::MAX as u128 {
        u64::MAX
    } else {
        q as u64
    }
}

} // verus!
