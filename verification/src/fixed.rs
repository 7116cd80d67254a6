//! Fixed-point reals: a `u64` that counts billionths.
//!
//! Every operation rounds down to the next billionth and saturates at
//! `u64::MAX` instead of overflowing.
use vstd::prelude::*;

verus! {

/// The raw value that stands for the real number one.
pub const ONE: u64 = 1_000_000_000;

/// `v`, or the largest raw value where `v` lies above it.
pub open spec fn saturated(v: int) -> int {
    if v > u64::MAX {
        u64::MAX as int
    } else {
        v
    }
}

/// The sum of two fixed-point numbers.
pub open spec fn sum_of(a: int, b: int) -> int {
    saturated(a + b)
}

/// The product of two fixed-point numbers, rounded down.
pub open spec fn product_of(a: int, b: int) -> int {
    saturated(a * b / (ONE as int))
}

/// The fixed-point quotient of two numbers on a common scale, rounded down.
pub open spec fn quotient_of(a: int, b: int) -> int
    recommends
        b > 0,
{
    saturated(a * ONE / b)
}

/// `a + b`, saturating.
pub fn sum(a: u64, b: u64) -> (r: u64)
    ensures
        r == sum_of(a as int, b as int),
{
    if a > u64::MAX - b {
        u64::MAX
    } else {
        a + b
    }
}

/// `a · b` for fixed-point `a` and `b`, rounded down and saturating.
pub fn product(a: u64, b: u64) -> (r: u64)
    ensures
        r == product_of(a as int, b as int),
{
    assert(a * b <= u64::MAX * u64::MAX) by (nonlinear_arith);
    let wide: u128 = (a as u128) * (b as u128) / (ONE as u128);
    if wide > u64::MAX as u128 {
        u64::MAX
    } else {
        wide as u64
    }
}

/// `a / b` as a fixed-point number, for `a` and `b` on a common scale,
/// rounded down and saturating.
pub fn quotient(a: u64, b: u64) -> (r: u64)
    requires
        b > 0,
    ensures
        r == quotient_of(a as int, b as int),
{
    let wide: u128 = (a as u128) * (ONE as u128) / (b as u128);
    if wide > u64::MAX as u128 {
        u64::MAX
    } else {
        wide as u64
    }
}

/// The product grows with either factor.
pub proof fn lemma_product_monotone(a: int, b: int, c: int, d: int)
    requires
        0 <= a <= c,
        0 <= b <= d,
    ensures
        0 <= product_of(a, b) <= product_of(c, d),
{
    assert(0 <= a * b <= c * d) by (nonlinear_arith)
        requires
            0 <= a <= c,
            0 <= b <= d,
    ;
    vstd::arithmetic::div_mod::lemma_div_is_ordered(a * b, c * d, ONE as int);
    vstd::arithmetic::div_mod::lemma_div_pos_is_pos(a * b, ONE as int);
}

/// The quotient grows with the numerator.
pub proof fn lemma_quotient_monotone(a: int, c: int, b: int)
    requires
        0 <= a <= c,
        b > 0,
    ensures
        0 <= quotient_of(a, b) <= quotient_of(c, b),
{
    vstd::arithmetic::div_mod::lemma_div_is_ordered(a * ONE, c * ONE, b);
    vstd::arithmetic::div_mod::lemma_div_pos_is_pos(a * ONE, b);
}

} // verus!
