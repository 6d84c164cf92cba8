//! Facts about the integer arithmetic of basis points and pool shares.

use vstd::arithmetic::div_mod::{lemma_fundamental_div_mod, lemma_mod_pos_bound};
use vstd::prelude::*;

verus! {

/// Rounding down: `d * (x / d) <= x < d * (x / d) + d` for `x >= 0`, `d > 0`.
pub proof fn lemma_div_bounds(x: int, d: int)
    requires
        x >= 0,
        d > 0,
    ensures
        d * (x / d) <= x,
        x < d * (x / d) + d,
        x / d >= 0,
{
    lemma_fundamental_div_mod(x, d);
    lemma_mod_pos_bound(x, d);
    let q = x / d;
    assert(q >= 0) by (nonlinear_arith)
        requires
            d > 0,
            x >= 0,
            x < d * q + d,
    ;
}

/// The quotient `x / d` is the largest `q` with `q * d <= x`.
pub proof fn lemma_quotient(x: int, d: int)
    requires
        x >= 0,
        d > 0,
    ensures
        (x / d) * d <= x < (x / d + 1) * d,
        x / d >= 0,
{
    lemma_div_bounds(x, d);
    let q = x / d;
    assert(q * d == d * q && (q + 1) * d == d * q + d) by (nonlinear_arith);
}

/// A trade's output `reserve_out * net / (reserve_in + net)` is below the
/// output reserve whenever the input reserve is not empty.
pub proof fn lemma_output_below_reserve(reserve_in: int, reserve_out: int, net: int)
    requires
        reserve_in > 0,
        reserve_out > 0,
        net >= 0,
    ensures
        0 <= reserve_out * net / (reserve_in + net) < reserve_out,
{
    let d = reserve_in + net;
    let x = reserve_out * net;
    assert(x >= 0) by (nonlinear_arith)
        requires
            reserve_out > 0,
            net >= 0,
            x == reserve_out * net,
    ;
    lemma_div_bounds(x, d);
    let q = x / d;
    assert(x < reserve_out * d) by (nonlinear_arith)
        requires
            reserve_in > 0,
            reserve_out > 0,
            net >= 0,
            d == reserve_in + net,
            x == reserve_out * net,
    ;
    assert(q < reserve_out) by (nonlinear_arith)
        requires
            d > 0,
            d * q <= x,
            x < reserve_out * d,
    ;
}

/// Trading `amount_in` into a pool, of which `net <= amount_in` is priced
/// at `reserve_out * net / (reserve_in + net)`, keeps the product of the
/// reserves from falling.
pub proof fn lemma_product_kept(reserve_in: int, reserve_out: int, amount_in: int, net: int)
    requires
        reserve_in > 0,
        reserve_out > 0,
        0 <= net <= amount_in,
    ensures
        ({
            let out = reserve_out * net / (reserve_in + net);
            &&& 0 <= out < reserve_out
            &&& (reserve_in + amount_in) * (reserve_out - out) >= reserve_in * reserve_out
            &&& (reserve_out - out) * (reserve_in + amount_in) >= reserve_in * reserve_out
        }),
{
    let d = reserve_in + net;
    let x = reserve_out * net;
    lemma_output_below_reserve(reserve_in, reserve_out, net);
    lemma_div_bounds(x, d);
    let out = x / d;
    assert(d * (reserve_out - out) >= reserve_in * reserve_out) by (nonlinear_arith)
        requires
            d == reserve_in + net,
            d * out <= reserve_out * net,
    ;
    assert((reserve_in + amount_in) * (reserve_out - out) >= d * (reserve_out - out))
        by (nonlinear_arith)
        requires
            amount_in >= net,
            reserve_out - out >= 0,
            d == reserve_in + net,
    ;
    assert((reserve_out - out) * (reserve_in + amount_in) == (reserve_in + amount_in) * (
    reserve_out - out)) by (nonlinear_arith);
}

/// Burning every share pays out the whole reserve.
pub proof fn lemma_full_share(reserve: int, total: int)
    requires
        reserve >= 0,
        total > 0,
    ensures
        total * reserve / total == reserve,
{
    let x = total * reserve;
    lemma_div_bounds(x, total);
    let q = x / total;
    assert(q == reserve) by (nonlinear_arith)
        requires
            total > 0,
            total * q <= x,
            x < total * q + total,
            x == total * reserve,
    ;
}

/// A fee of at most 1000 basis points is at most a tenth of the amount.
pub proof fn lemma_fee_at_most_a_tenth(amount: int, fee_bps: int)
    requires
        amount >= 0,
        0 <= fee_bps <= 1000,
    ensures
        (amount * fee_bps / 10_000) * 10 <= amount,
{
    let x = amount * fee_bps;
    assert(0 <= x <= amount * 1000) by (nonlinear_arith)
        requires
            amount >= 0,
            0 <= fee_bps <= 1000,
            x == amount * fee_bps,
    ;
    lemma_div_bounds(x, 10_000);
}

/// A borrow within 75% of the collateral keeps the health factor
/// `collateral * 8000 / borrowed` at or above 10000.
pub proof fn lemma_health_after_borrow(collateral: int, borrowed: int)
    requires
        borrowed > 0,
        collateral >= 0,
        borrowed <= collateral * 7_500 / 10_000,
    ensures
        collateral * 8_000 / borrowed >= 10_000,
{
    let x = collateral * 7_500;
    assert(x >= 0) by (nonlinear_arith)
        requires
            collateral >= 0,
            x == collateral * 7_500,
    ;
    lemma_div_bounds(x, 10_000);
    let y = collateral * 8_000;
    assert(y >= 10_000 * borrowed) by (nonlinear_arith)
        requires
            10_000 * (x / 10_000) <= x,
            borrowed <= x / 10_000,
            x == collateral * 7_500,
            y == collateral * 8_000,
            collateral >= 0,
    ;
    lemma_div_bounds(y, borrowed);
    let q = y / borrowed;
    assert(q >= 10_000) by (nonlinear_arith)
        requires
            borrowed > 0,
            y < borrowed * q + borrowed,
            y >= 10_000 * borrowed,
    ;
}

/// `part * scale / whole` is at most `scale` when `part <= whole`, and
/// below `scale` when `part < whole`.
pub proof fn lemma_scaled_fraction(part: int, whole: int, scale: int)
    requires
        0 <= part <= whole,
        whole > 0,
        scale >= 0,
    ensures
        0 <= part * scale / whole <= scale,
        part < whole && scale > 0 ==> part * scale / whole < scale,
{
    let x = part * scale;
    assert(0 <= x <= whole * scale) by (nonlinear_arith)
        requires
            0 <= part <= whole,
            scale >= 0,
            x == part * scale,
    ;
    assert(part < whole && scale > 0 ==> x < whole * scale) by (nonlinear_arith)
        requires
            x == part * scale,
    ;
    lemma_div_bounds(x, whole);
    let q = x / whole;
    assert(q <= scale) by (nonlinear_arith)
        requires
            whole > 0,
            whole * q <= x,
            x <= whole * scale,
    ;
    assert(x < whole * scale ==> q < scale) by (nonlinear_arith)
        requires
            whole > 0,
            whole * q <= x,
    ;
}

} // verus!
