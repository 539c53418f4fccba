//! The engine's guarantees, stated and proved in one place.
//!
//! Each public proof function here states one law over the spec-level
//! descriptions that the operations' own contracts bind their results
//! to, so the laws hold of every execution of the engine.

use vstd::prelude::*;

use crate::amount::{Amount, UNIT};
use crate::arith::{
    lemma_div_bounds, lemma_div_is_ordered, lemma_div_strict_bound, lemma_mul_div_cancel,
    lemma_mul_div_le,
};
use crate::bot::seq_sum;
use crate::engine::{
    add_liquidity_applied, add_scaled, entry_wf, has_position, init_reserves, position_index,
    rem_scaled, remove_liquidity_applied, spec_counterpart, sum_shares, swap_applied, AmmState,
    LpEntry, PoolEntry,
};
use crate::pool::LPPosition;
use crate::pricing::{
    spec_after_fee, spec_amount_out, spec_new_from, spec_new_to, swap_ok,
};
use crate::prod::{lemma_prod_all_pos, lemma_prod_update, prod_of};

verus! {

/// Share conservation: in a well-formed engine, the shares recorded
/// in any pool's position ledger sum exactly to that pool's
/// `total_liquidity`. Every operation's contract preserves
/// well-formedness, so this holds at every observable point.
pub proof fn lemma_share_conservation(s: AmmState, i: int)
    requires
        s.wf(),
        0 <= i < s.pools@.len(),
    ensures
        sum_shares(s.pools@[i].positions@) == s.pools@[i].pool.total_liquidity.units,
{
    assert(entry_wf(s.pools@[i]));
}

/// Non-negativity: reserves, liquidity totals, shares, collected fees
/// and volumes are unsigned unit counts, so no observable quantity is
/// ever negative.
pub proof fn lemma_quantities_nonnegative(s: AmmState, i: int, j: int, r: int)
    requires
        0 <= i < s.pools@.len(),
    ensures
        s.pools@[i].pool.total_liquidity.units >= 0,
        s.pools@[i].pool.fee_collected.units >= 0,
        s.pools@[i].pool.total_volume.units >= 0,
        0 <= r < s.pools@[i].pool.option_reserves@.len() ==> s.pools@[i].pool.reserve_units()[r]
            >= 0,
        0 <= j < s.pools@[i].positions@.len() ==> s.pools@[i].positions@[j].position.shares.units
            >= 0,
        s.total_volume.units >= 0,
{
}

/// The sum of a constant tail: `[c; n]` sums to `n * c`.
proof fn lemma_sum_constant(n: int, c: int)
    requires
        0 <= n,
    ensures
        seq_sum(Seq::new(n as nat, |i: int| c)) == n * c,
    decreases n,
{
    let s = Seq::new(n as nat, |i: int| c);
    if n == 0 {
        assert(n * c == 0) by (nonlinear_arith)
            requires
                n == 0,
        ;
    } else {
        assert(s.drop_last() =~= Seq::new((n - 1) as nat, |i: int| c));
        lemma_sum_constant(n - 1, c);
        assert(s.last() == c);
        assert((n - 1) * c + c == n * c) by (nonlinear_arith);
    }
}

/// A created pool's reserves sum exactly to the deposit: the even
/// split `l / n` per option with the division remainder assigned to
/// option 0 loses nothing to rounding.
pub proof fn lemma_init_reserves_sum(n: int, l: int)
    requires
        1 <= n,
        0 <= l,
    ensures
        seq_sum(init_reserves(n, l)) == l,
{
    let s = init_reserves(n, l);
    let per = l / n;
    let tail = Seq::new((n - 1) as nat, |i: int| per);
    assert(s.drop_first() =~= tail);
    lemma_sum_constant(n - 1, per);
    lemma_sum_head(s);
    vstd::arithmetic::div_mod::lemma_fundamental_div_mod(l, n);
    assert(n * per == (n - 1) * per + per) by (nonlinear_arith);
}

/// A sum splits off its head element.
proof fn lemma_sum_head(s: Seq<int>)
    requires
        s.len() >= 1,
    ensures
        seq_sum(s) == s[0] + seq_sum(s.drop_first()),
    decreases s.len(),
{
    if s.len() == 1 {
        assert(s.drop_first() =~= Seq::<int>::empty());
        assert(s.drop_last() =~= Seq::<int>::empty());
    } else {
        lemma_sum_head(s.drop_last());
        assert(s.drop_last()[0] == s[0]);
        assert(s.drop_last().drop_first() =~= s.drop_first().drop_last());
        assert(s.drop_first().last() == s.last());
    }
}

/// Invariant preservation for one swap, on the reserve unit counts.
///
/// When the input reserve does not saturate, the updated pair of
/// reserves satisfies `nf * nt <= rs[from] * rs[to] < nf * (nt + 1)`:
/// the pair product is conserved exactly up to the one truncating
/// division, and truncation only ever favours the pool. Lifted to the
/// full reserve product, the product never increases, and its deficit
/// after the swap is bounded by one raw unit of the output reserve:
/// `(prod_before - prod_after) * rs[from] * rs[to] < prod_before * nf`.
/// Since swaps leave the stored `k_constant` untouched
/// (`swap_applied`), a pool whose product equals its `k_constant`
/// keeps the product within that tolerance of `k_constant` across any
/// sequence of swaps.
pub proof fn lemma_swap_product_conserved(
    rs: Seq<int>,
    from: int,
    to: int,
    amount: int,
    fee_rate: int,
)
    requires
        0 <= fee_rate < UNIT,
        0 <= amount,
        swap_ok(rs, from, to, amount, fee_rate),
        rs[from] + spec_after_fee(amount, fee_rate) <= u64::MAX,
    ensures
        ({
            let nf = spec_new_from(rs[from], amount, fee_rate);
            let nt = spec_new_to(rs[from], rs[to], nf);
            let rs2 = rs.update(from, nf).update(to, nt);
            &&& nf * nt <= rs[from] * rs[to]
            &&& rs[from] * rs[to] < nf * (nt + 1)
            &&& prod_of(rs2) * (rs[from] * rs[to]) == prod_of(rs) * (nf * nt)
            &&& prod_of(rs2) <= prod_of(rs)
            &&& (prod_of(rs) - prod_of(rs2)) * (rs[from] * rs[to]) < prod_of(rs) * nf
        }),
{
    let of = rs[from];
    let ot = rs[to];
    lemma_mul_div_le(amount, fee_rate, UNIT as int);
    let af = spec_after_fee(amount, fee_rate);
    let nf = spec_new_from(of, amount, fee_rate);
    assert(nf == of + af);
    assert(nf >= 1);
    let nt = spec_new_to(of, ot, nf);
    assert(of * ot >= 0) by (nonlinear_arith)
        requires
            of >= 0,
            ot >= 0,
    ;
    lemma_div_bounds(of * ot, nf);
    assert(nf * nt <= of * ot && of * ot < nf * (nt + 1));

    let rs1 = rs.update(from, nf);
    let rs2 = rs1.update(to, nt);
    lemma_prod_update(rs, from, nf);
    assert(rs1[to] == ot);
    lemma_prod_update(rs1, to, nt);
    let p = prod_of(rs);
    let p1 = prod_of(rs1);
    let p2 = prod_of(rs2);
    assert(p1 * of == p * nf);
    assert(p2 * ot == p1 * nt);
    assert(p2 * (of * ot) == p * (nf * nt)) by (nonlinear_arith)
        requires
            p1 * of == p * nf,
            p2 * ot == p1 * nt,
    ;

    lemma_prod_all_pos(rs);
    assert(p >= 1);
    assert(of * ot >= 1) by (nonlinear_arith)
        requires
            of >= 1,
            ot >= 1,
    ;
    assert(p2 <= p) by (nonlinear_arith)
        requires
            p2 * (of * ot) == p * (nf * nt),
            nf * nt <= of * ot,
            p >= 1,
            of * ot >= 1,
    ;
    assert((p - p2) * (of * ot) < p * nf) by (nonlinear_arith)
        requires
            p2 * (of * ot) == p * (nf * nt),
            of * ot < nf * (nt + 1),
            p >= 1,
            of * ot >= 1,
    ;
}

/// Invariant preservation lifted to a pool entry: a committed swap
/// leaves the stored `k_constant` untouched, never increases the
/// reserve product, and keeps the product's deficit within the bound
/// of [`lemma_swap_product_conserved`]. In particular, a pool whose
/// product equals its stored constant keeps the product at or below
/// that constant.
pub proof fn lemma_swap_preserves_k(
    e: PoolEntry,
    e2: PoolEntry,
    from: int,
    to: int,
    amount: int,
    fee_rate: int,
)
    requires
        0 <= fee_rate < UNIT,
        0 <= amount,
        swap_ok(e.pool.reserve_units(), from, to, amount, fee_rate),
        e.pool.reserve_units()[from] + spec_after_fee(amount, fee_rate) <= u64::MAX,
        swap_applied(e, e2, from, to, amount, fee_rate),
    ensures
        e2.pool.k_constant == e.pool.k_constant,
        prod_of(e2.pool.reserve_units()) <= prod_of(e.pool.reserve_units()),
        prod_of(e.pool.reserve_units()) == e.pool.k_constant as int ==> prod_of(
            e2.pool.reserve_units(),
        ) <= e2.pool.k_constant as int,
{
    lemma_swap_product_conserved(e.pool.reserve_units(), from, to, amount, fee_rate);
}

/// Quote/swap consistency: `get_quote(market, i, amount, true)` and
/// an immediately following `swap(market, i, j, amount, 0)` against
/// the counterpart option `j` bind their results, by their contracts,
/// to the same pricing formula on the same reserves, so the realized
/// output equals the quoted one.
pub proof fn lemma_quote_swap_consistent(
    rs: Seq<int>,
    i: int,
    j: int,
    amount: int,
    fee_rate: int,
    quoted: int,
    realized: int,
)
    requires
        j == spec_counterpart(i),
        quoted == spec_amount_out(rs, i, j, amount, fee_rate),
        realized == spec_amount_out(rs, i, j, amount, fee_rate),
    ensures
        quoted == realized,
{
}

/// One reserve scaled up by a deposit ratio and back down by the
/// matching withdrawal ratio returns exactly to its original value:
/// with `add = r * a / t`, the withdrawal `(r + add) * a / (t + a)`
/// equals `add`.
pub proof fn lemma_scale_round_trip(r: int, a: int, t: int)
    requires
        0 <= r,
        0 < a,
        0 < t,
    ensures
        rem_scaled(r + r * a / t, a, t + a) == r,
{
    let add = r * a / t;
    let r1 = r + add;
    assert(r * a >= 0) by (nonlinear_arith)
        requires
            r >= 0,
            a > 0,
    ;
    lemma_div_bounds(r * a, t);
    assert(t * add <= r * a);
    assert(r * a < t * (add + 1));
    assert(add >= 0);
    assert(add * (t + a) <= r1 * a) by (nonlinear_arith)
        requires
            t * add <= r * a,
            r1 == r + add,
            a > 0,
            add >= 0,
    ;
    assert(r1 * a < (add + 1) * (t + a)) by (nonlinear_arith)
        requires
            r * a < t * (add + 1),
            r1 == r + add,
            a > 0,
            add >= 0,
    ;
    assert(r1 * a >= 0) by (nonlinear_arith)
        requires
            r1 >= 0,
            a > 0,
    ;
    lemma_div_is_ordered(add * (t + a), r1 * a, t + a);
    lemma_mul_div_cancel(add, t + a);
    assert(add * (t + a) == (t + a) * add) by (nonlinear_arith);
    assert(add <= r1 * a / (t + a));
    lemma_div_strict_bound(r1 * a, add + 1, t + a);
    assert(r1 * a / (t + a) == add);
}

/// Round-trip liquidity: a deposit of `a` followed immediately by
/// burning the minted shares (also `a`) restores every reserve
/// exactly, restores `total_liquidity` exactly, and leaves the
/// ledger's share sum where it started. The only proviso is that the
/// deposit does not saturate a reserve at `u64::MAX`.
pub proof fn lemma_add_remove_round_trip(
    e: PoolEntry,
    e1: PoolEntry,
    e2: PoolEntry,
    a: int,
    provider: int,
    now: int,
)
    requires
        entry_wf(e),
        0 <= provider <= u64::MAX,
        0 <= now <= u64::MAX,
        0 < a,
        0 < e.pool.total_liquidity.units,
        e.pool.total_liquidity.units + a <= u64::MAX,
        forall|i: int|
            0 <= i < e.pool.option_reserves@.len() ==> #[trigger] e.pool.reserve_units()[i]
                + e.pool.reserve_units()[i] * a / (e.pool.total_liquidity.units as int)
                <= u64::MAX,
        add_liquidity_applied(e, e1, a, provider, now),
        remove_liquidity_applied(e1, e2, a, provider),
    ensures
        e2.pool.reserve_units() == e.pool.reserve_units(),
        e2.pool.total_liquidity == e.pool.total_liquidity,
        sum_shares(e2.positions@) == sum_shares(e.positions@),
{
    let t = e.pool.total_liquidity.units as int;
    let rs = e.pool.reserve_units();
    let rs1 = e1.pool.reserve_units();
    let rs2 = e2.pool.reserve_units();
    assert forall|i: int| 0 <= i < rs.len() implies rs2[i] == rs[i] by {
        let r = rs[i];
        assert(r >= 0);
        assert(rs1[i] == add_scaled(r, a, t));
        assert(add_scaled(r, a, t) == r + r * a / t);
        lemma_scale_round_trip(r, a, t);
        assert(rs2[i] == rem_scaled(rs1[i], a, t + a));
    }
    assert(rs2 =~= rs);
    assert(e2.pool.total_liquidity.units == t);
    // Share sums: the deposit raises the sum by `a`, the burn lowers
    // it by `a`.
    let ps = e.positions@;
    let ps1 = e1.positions@;
    let ps2 = e2.positions@;
    if has_position(ps, provider) {
        let i = position_index(ps, provider);
        assert(0 <= i < ps.len() && ps[i].provider == provider);
        crate::engine::lemma_entry_le_sum(ps, i);
        assert(ps[i].position.shares.units + a <= u64::MAX);
        crate::engine::lemma_sum_shares_update(ps, i, ps1[i]);
        assert(sum_shares(ps1) == sum_shares(ps) + a);
    } else {
        let fresh = LpEntry {
            provider: provider as u64,
            position: LPPosition {
                shares: Amount { units: a as u64 },
                deposited_at: now as u64,
                initial_k: e1.pool.k_constant,
            },
        };
        assert(ps1 == ps.push(fresh));
        crate::engine::lemma_sum_shares_push(ps, fresh);
        assert(sum_shares(ps.push(fresh)) == sum_shares(ps) + fresh.position.shares.units);
        assert(fresh.position.shares.units == a as u64);
        assert(a as u64 as int == a);
        assert(sum_shares(ps1) == sum_shares(ps) + a);
    }
    let j = position_index(ps1, provider);
    assert(has_position(ps1, provider));
    assert(0 <= j < ps1.len() && ps1[j].provider == provider);
    crate::engine::lemma_sum_shares_update(ps1, j, ps2[j]);
    assert(sum_shares(ps2) == sum_shares(ps1) - a);
}

/// Monotonic volume and fees: a committed swap never decreases a
/// pool's `fee_collected` or `total_volume`; deposits and withdrawals
/// leave both untouched (their contracts state equality), so neither
/// counter ever decreases across any operation sequence.
pub proof fn lemma_swap_counters_monotonic(
    e: PoolEntry,
    e2: PoolEntry,
    from: int,
    to: int,
    amount: int,
    fee_rate: int,
)
    requires
        0 <= amount,
        0 <= fee_rate,
        swap_applied(e, e2, from, to, amount, fee_rate),
    ensures
        e2.pool.fee_collected.units >= e.pool.fee_collected.units,
        e2.pool.total_volume.units >= e.pool.total_volume.units,
{
    assert(amount * fee_rate >= 0) by (nonlinear_arith)
        requires
            amount >= 0,
            fee_rate >= 0,
    ;
    lemma_div_bounds(amount * fee_rate, UNIT as int);
}

} // verus!
