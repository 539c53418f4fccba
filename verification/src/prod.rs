//! The reserve-product invariant.
//!
//! A pool's `k_constant` is the product of its option reserves.
//! [`prod_of`] is the exact mathematical product of a sequence of unit
//! counts; [`sat_prod`] is the product as the engine stores it, clamped
//! to the `u128` range from above. When every reserve is positive and
//! the exact product fits, the two agree ([`lemma_sat_prod_exact`]).

use vstd::prelude::*;

use crate::amount::{units_of, Amount};
use crate::arith::sat128;

verus! {

/// The exact product of a sequence of integers.
pub open spec fn prod_of(s: Seq<int>) -> int
    decreases s.len(),
{
    if s.len() == 0 {
        1
    } else {
        prod_of(s.drop_last()) * s.last()
    }
}

/// The product as stored: each partial product is clamped to the
/// `u128` range from above.
pub open spec fn sat_prod(s: Seq<int>) -> int
    decreases s.len(),
{
    if s.len() == 0 {
        1
    } else {
        sat128(sat_prod(s.drop_last()) * s.last())
    }
}

/// A product of positive factors is positive.
pub proof fn lemma_prod_all_pos(s: Seq<int>)
    requires
        forall|i: int| 0 <= i < s.len() ==> s[i] >= 1,
    ensures
        prod_of(s) >= 1,
    decreases s.len(),
{
    if s.len() > 0 {
        lemma_prod_all_pos(s.drop_last());
        let p = prod_of(s.drop_last());
        let l = s.last();
        assert(p * l >= 1) by (nonlinear_arith)
            requires
                p >= 1,
                l >= 1,
        ;
    }
}

/// A product of non-negative factors is non-negative.
pub proof fn lemma_prod_nonneg(s: Seq<int>)
    requires
        forall|i: int| 0 <= i < s.len() ==> s[i] >= 0,
    ensures
        prod_of(s) >= 0,
    decreases s.len(),
{
    if s.len() > 0 {
        lemma_prod_nonneg(s.drop_last());
        let p = prod_of(s.drop_last());
        let l = s.last();
        assert(p * l >= 0) by (nonlinear_arith)
            requires
                p >= 0,
                l >= 0,
        ;
    }
}

/// Replacing one factor rescales the product: multiplying the new
/// product by the old factor equals multiplying the old product by the
/// new factor.
pub proof fn lemma_prod_update(s: Seq<int>, i: int, v: int)
    requires
        0 <= i < s.len(),
    ensures
        prod_of(s.update(i, v)) * s[i] == prod_of(s) * v,
    decreases s.len(),
{
    let u = s.update(i, v);
    if i == s.len() - 1 {
        assert(u.drop_last() =~= s.drop_last());
        let p = prod_of(s.drop_last());
        assert(prod_of(u) == p * v);
        assert((p * v) * s[i] == (p * s[i]) * v) by (nonlinear_arith);
    } else {
        assert(u.drop_last() =~= s.drop_last().update(i, v));
        lemma_prod_update(s.drop_last(), i, v);
        let pu = prod_of(s.drop_last().update(i, v));
        let pd = prod_of(s.drop_last());
        let l = s.last();
        assert(u.last() == l);
        assert(s.drop_last()[i] == s[i]);
        assert((pu * l) * s[i] == (pd * l) * v) by (nonlinear_arith)
            requires
                pu * s[i] == pd * v,
        ;
    }
}

/// The stored product stays within the `u128` range whenever the
/// factors are non-negative.
pub proof fn lemma_sat_prod_bounds(s: Seq<int>)
    requires
        forall|i: int| 0 <= i < s.len() ==> s[i] >= 0,
    ensures
        0 <= sat_prod(s) <= u128::MAX,
    decreases s.len(),
{
    if s.len() > 0 {
        lemma_sat_prod_bounds(s.drop_last());
        let p = sat_prod(s.drop_last());
        let l = s.last();
        assert(p * l >= 0) by (nonlinear_arith)
            requires
                p >= 0,
                l >= 0,
        ;
    }
}

/// When every factor is positive and the exact product fits in a
/// `u128`, the stored product is the exact product.
pub proof fn lemma_sat_prod_exact(s: Seq<int>)
    requires
        forall|i: int| 0 <= i < s.len() ==> s[i] >= 1,
        prod_of(s) <= u128::MAX,
    ensures
        sat_prod(s) == prod_of(s),
    decreases s.len(),
{
    if s.len() > 0 {
        let dl = s.drop_last();
        let l = s.last();
        lemma_prod_all_pos(dl);
        assert(prod_of(dl) <= prod_of(dl) * l) by (nonlinear_arith)
            requires
                prod_of(dl) >= 1,
                l >= 1,
        ;
        lemma_sat_prod_exact(dl);
    }
}

/// Computes the stored reserve product: the product of all raw unit
/// counts, with each partial product clamped to the `u128` range.
pub fn compute_k(reserves: &Vec<Amount>) -> (k: u128)
    ensures
        k as int == sat_prod(units_of(reserves@)),
{
    let ghost s = units_of(reserves@);
    let mut acc: u128 = 1;
    let mut idx: usize = 0;
    proof {
        assert(s.take(0) =~= Seq::<int>::empty());
    }
    while idx < reserves.len()
        invariant
            0 <= idx <= reserves.len(),
            s == units_of(reserves@),
            s.len() == reserves.len(),
            acc as int == sat_prod(s.take(idx as int)),
        decreases reserves.len() - idx,
    {
        let x: u128 = reserves[idx].units as u128;
        proof {
            assert(s.take(idx + 1).drop_last() =~= s.take(idx as int));
            assert(s.take(idx + 1).last() == s[idx as int]);
        }
        if x != 0 && acc > u128::MAX / x {
            proof {
                let m = u128::MAX as int;
                let a = acc as int;
                let xi = x as int;
                assert(a * xi > m) by (nonlinear_arith)
                    requires
                        xi > 0,
                        a > m / xi,
                        m >= 0,
                ;
            }
            acc = u128::MAX;
        } else {
            proof {
                let m = u128::MAX as int;
                let a = acc as int;
                let xi = x as int;
                if xi > 0 {
                    assert(a * xi <= m) by (nonlinear_arith)
                        requires
                            xi > 0,
                            0 <= a,
                            a <= m / xi,
                            m >= 0,
                    ;
                } else {
                    assert(a * 0 == 0) by (nonlinear_arith);
                }
            }
            acc = acc * x;
        }
        idx = idx + 1;
    }
    proof {
        assert(s.take(reserves.len() as int) =~= s);
    }
    acc
}

} // verus!
