//! Fixed-point conventions shared by the pipeline.

use vstd::prelude::*;

verus! {

/// The integer that stands for the normalized value one.
pub const FULL_SCALE: u16 = 65535;

/// `numer / denom` rounded to the nearest integer, halves rounded up.
pub open spec fn round_div(numer: int, denom: int) -> int
    recommends
        denom > 0,
{
    (2 * numer + denom) / (2 * denom)
}

/// `value` limited to the closed range from `low` to `high`.
pub open spec fn clamp_int(value: int, low: int, high: int) -> int {
    if value < low {
        low
    } else if value > high {
        high
    } else {
        value
    }
}

/// Rounding division never leaves the range that the exact quotient lies in.
pub proof fn lemma_round_div_bounds(numer: int, denom: int, low: int, high: int)
    requires
        denom > 0,
        low * denom <= numer <= high * denom,
    ensures
        low <= round_div(numer, denom) <= high,
{
    let q = round_div(numer, denom);
    let d2 = 2 * denom;
    vstd::arithmetic::div_mod::lemma_fundamental_div_mod(2 * numer + denom, d2);
    vstd::arithmetic::div_mod::lemma_mod_bound(2 * numer + denom, d2);
    assert(d2 * q <= 2 * numer + denom < d2 * q + d2);
    assert(low <= q) by (nonlinear_arith)
        requires
            d2 * q + d2 > 2 * numer + denom,
            numer >= low * denom,
            d2 == 2 * denom,
            denom > 0,
    ;
    assert(q <= high) by (nonlinear_arith)
        requires
            d2 * q <= 2 * numer + denom,
            numer <= high * denom,
            d2 == 2 * denom,
            denom > 0,
    ;
}

/// Rounding division is monotonic in the numerator.
pub proof fn lemma_round_div_monotonic(a: int, b: int, denom: int)
    requires
        denom > 0,
        a <= b,
    ensures
        round_div(a, denom) <= round_div(b, denom),
{
    vstd::arithmetic::div_mod::lemma_div_is_ordered(2 * a + denom, 2 * b + denom, 2 * denom);
}

/// An exact quotient is its own rounding.
pub proof fn lemma_round_div_exact(quotient: int, denom: int)
    requires
        denom > 0,
    ensures
        round_div(quotient * denom, denom) == quotient,
{
    let d2 = 2 * denom;
    assert(2 * (quotient * denom) + denom == quotient * d2 + denom) by (nonlinear_arith)
        requires
            d2 == 2 * denom,
    ;
    vstd::arithmetic::div_mod::lemma_fundamental_div_mod_converse(
        quotient * d2 + denom,
        d2,
        quotient,
        denom,
    );
}

/// Rounding division of nonnegative machine integers.
pub fn div_round(numer: u128, denom: u128) -> (out: u128)
    requires
        denom > 0,
        2 * numer + denom <= u128::MAX,
        2 * denom <= u128::MAX,
    ensures
        out == round_div(numer as int, denom as int),
{
    (2 * numer + denom) / (2 * denom)
}

} // verus!
