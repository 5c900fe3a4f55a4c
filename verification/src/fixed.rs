//! Fixed-point amounts and the arithmetic facts the rest of the crate leans on.

use vstd::prelude::*;
use vstd::arithmetic::div_mod::{
    lemma_div_is_ordered, lemma_div_is_ordered_by_denominator, lemma_div_multiples_vanish,
    lemma_fundamental_div_mod, lemma_fundamental_div_mod_converse,
};

verus! {

/// Number of fixed-point units in one whole: an amount `n` stands for `n / SCALE`.
pub const SCALE: u64 = 100_000_000;

/// `SCALE * SCALE`, the divisor that brings a product of three amounts back to one.
pub const SCALE_SQUARED: u128 = 10_000_000_000_000_000;

/// The amount `v` as a 64-bit value, if it is one.
pub open spec fn fit(v: int) -> Option<u64> {
    if 0 <= v <= u64::MAX {
        Some(v as u64)
    } else {
        None
    }
}

/// `x * num / den` rounded down; never overflows, since the product of two
/// 64-bit values fits 128 bits.
pub fn mul_div(x: u64, num: u64, den: u64) -> (r: u128)
    requires
        den > 0,
    ensures
        r == x * num / (den as int),
        r <= u64::MAX * u64::MAX / (den as int),
{
    assert(0 <= x * num <= u64::MAX * u64::MAX) by (nonlinear_arith)
        requires
            0 <= x <= u64::MAX,
            0 <= num <= u64::MAX,
    ;
    proof {
        lemma_div_is_ordered(x * num, u64::MAX * u64::MAX, den as int);
    }
    let product: u128 = (x as u128) * (num as u128);
    product / (den as u128)
}

/// Rounding a non-positive quotient down is rounding its absolute value up.
pub proof fn lemma_floor_of_negative(t: int, d: int)
    requires
        t >= 0,
        d > 0,
    ensures
        (-t) / d == -((t + d - 1) / d),
{
    let q = (t + d - 1) / d;
    let r = (t + d - 1) % d;
    lemma_fundamental_div_mod(t + d - 1, d);
    assert(-t == (-q) * d + (d - 1 - r)) by (nonlinear_arith)
        requires
            t + d - 1 == d * q + r,
    ;
    lemma_fundamental_div_mod_converse(-t, d, -q, d - 1 - r);
}

/// A quotient does not exceed its dividend's factor when the divisor is at
/// least the other factor: `x * k / d <= x` whenever `d >= k > 0`.
pub proof fn lemma_scaled_down(x: int, k: int, d: int)
    requires
        x >= 0,
        0 < k <= d,
    ensures
        0 <= x * k / d <= x,
{
    assert(x * k >= 0 && x * k == k * x) by (nonlinear_arith)
        requires
            x >= 0,
            k > 0,
    ;
    lemma_div_is_ordered_by_denominator(x * k, k, d);
    lemma_div_multiples_vanish(x, k);
    lemma_div_is_ordered(0, x * k, d);
}

} // verus!
