//! Exponentials and logarithms in fixed point.
//!
//! Both go through base 2: powers of two between one and two are read off a
//! table of `2^(i/32)` and interpolated linearly, and the logarithm reads the
//! same table the other way round. What is proved of them is their shape:
//! the exponential is one at zero, stays between zero and one and never
//! rises; the logarithm is zero at one, never negative and never falls. How
//! close they come to the exact functions is not proved. Sampled against
//! floating point, they differ by less than a ten-thousandth.
use crate::fixed::ONE;
use vstd::arithmetic::div_mod::{lemma_div_is_ordered, lemma_div_pos_is_pos};
use vstd::arithmetic::power2::{lemma_pow2_pos, pow2};
use vstd::prelude::*;

verus! {

/// The number of segments between one and two in the table of powers.
pub const SEGMENTS: u64 = 32;

/// The base-2 logarithm of Euler's number, in fixed point.
pub const LOG2_E: u64 = 1_442_695_041;

/// The base-10 logarithm of two, in fixed point.
pub const LOG10_2: u64 = 301_029_996;

/// `2^(i/32)` in fixed point, rounded to the nearest billionth, for `i` from
/// 0 to 32.
pub open spec fn pow2_table(i: int) -> int {
    if i <= 0 {
        1_000_000_000
    } else if i == 1 {
        1_021_897_149
    } else if i == 2 {
        1_044_273_782
    } else if i == 3 {
        1_067_140_401
    } else if i == 4 {
        1_090_507_733
    } else if i == 5 {
        1_114_386_743
    } else if i == 6 {
        1_138_788_635
    } else if i == 7 {
        1_163_724_859
    } else if i == 8 {
        1_189_207_115
    } else if i == 9 {
        1_215_247_360
    } else if i == 10 {
        1_241_857_812
    } else if i == 11 {
        1_269_050_957
    } else if i == 12 {
        1_296_839_555
    } else if i == 13 {
        1_325_236_643
    } else if i == 14 {
        1_354_255_547
    } else if i == 15 {
        1_383_909_882
    } else if i == 16 {
        1_414_213_562
    } else if i == 17 {
        1_445_180_807
    } else if i == 18 {
        1_476_826_146
    } else if i == 19 {
        1_509_164_428
    } else if i == 20 {
        1_542_210_825
    } else if i == 21 {
        1_575_980_845
    } else if i == 22 {
        1_610_490_332
    } else if i == 23 {
        1_645_755_478
    } else if i == 24 {
        1_681_792_831
    } else if i == 25 {
        1_718_619_298
    } else if i == 26 {
        1_756_252_160
    } else if i == 27 {
        1_794_709_075
    } else if i == 28 {
        1_834_008_086
    } else if i == 29 {
        1_874_167_634
    } else if i == 30 {
        1_915_206_561
    } else if i == 31 {
        1_957_144_124
    } else {
        2_000_000_000
    }
}

/// The table grows strictly from one to two.
pub proof fn lemma_table_increases(i: int)
    requires
        0 <= i < SEGMENTS,
    ensures
        ONE <= pow2_table(i) < pow2_table(i + 1) <= 2 * ONE,
        pow2_table(0) == ONE,
        pow2_table(SEGMENTS as int) == 2 * ONE,
{
}

/// Entry `i` of the table of powers.
pub fn table_entry(i: usize) -> (v: u64)
    requires
        i <= SEGMENTS,
    ensures
        v == pow2_table(i as int),
{
    let table: [u64; 33] = [
        1_000_000_000, 1_021_897_149, 1_044_273_782, 1_067_140_401,
        1_090_507_733, 1_114_386_743, 1_138_788_635, 1_163_724_859,
        1_189_207_115, 1_215_247_360, 1_241_857_812, 1_269_050_957,
        1_296_839_555, 1_325_236_643, 1_354_255_547, 1_383_909_882,
        1_414_213_562, 1_445_180_807, 1_476_826_146, 1_509_164_428,
        1_542_210_825, 1_575_980_845, 1_610_490_332, 1_645_755_478,
        1_681_792_831, 1_718_619_298, 1_756_252_160, 1_794_709_075,
        1_834_008_086, 1_874_167_634, 1_915_206_561, 1_957_144_124,
        2_000_000_000,
    ];
    table[i]
}

/// Any two entries of the table stand in the order of their indices.
pub proof fn lemma_table_ordered(i: int, j: int)
    requires
        0 <= i <= j <= SEGMENTS,
    ensures
        pow2_table(i) <= pow2_table(j),
    decreases j - i,
{
    if i < j {
        lemma_table_increases(j - 1);
        lemma_table_ordered(i, j - 1);
    }
}

/// `2^g` in fixed point for an exponent `g` between zero and one: the table
/// entries on either side of `g`, interpolated linearly and rounded down.
pub open spec fn pow2_fraction_of(g: int) -> int {
    let seg = g * SEGMENTS / (ONE as int);
    let off = g * SEGMENTS % (ONE as int);
    if seg >= SEGMENTS {
        2 * ONE
    } else {
        pow2_table(seg) + (pow2_table(seg + 1) - pow2_table(seg)) * off / (ONE as int)
    }
}

/// `e^(-t)` in fixed point: `2^(-u)` for `u = t * log2(e)`, taken as a power
/// of two between one and two that is then halved once more than `u` has
/// whole units. Anything below a billionth is zero.
pub open spec fn exp_neg_of(t: int) -> int {
    let u = t * LOG2_E / (ONE as int);
    let halvings = u / (ONE as int) + 1;
    if halvings > 31 {
        0
    } else {
        pow2_fraction_of(ONE - u % (ONE as int)) / (pow2(halvings as nat) as int)
    }
}

/// A power of two with an exponent between zero and one lies between one and
/// two.
pub proof fn lemma_pow2_fraction_bounds(g: int)
    requires
        0 <= g <= ONE,
    ensures
        ONE <= pow2_fraction_of(g) <= 2 * ONE,
{
    let seg = g * SEGMENTS / (ONE as int);
    let off = g * SEGMENTS % (ONE as int);
    if seg < SEGMENTS {
        lemma_table_increases(seg);
        let rise = pow2_table(seg + 1) - pow2_table(seg);
        assert(0 <= rise * off <= rise * ONE) by (nonlinear_arith)
            requires
                0 <= rise,
                0 <= off <= ONE,
        ;
        lemma_div_is_ordered(rise * off, rise * ONE, ONE as int);
        lemma_div_pos_is_pos(rise * off, ONE as int);
        vstd::arithmetic::div_mod::lemma_div_multiples_vanish(rise, ONE as int);
    }
}

/// The exponential of zero is one; of anything else, between zero and one;
/// and from 31 on, zero.
pub proof fn lemma_exp_neg_bounds(t: int)
    requires
        0 <= t,
    ensures
        0 <= exp_neg_of(t) <= ONE,
        exp_neg_of(0) == ONE,
        t >= 31 * ONE ==> exp_neg_of(t) == 0,
{
    vstd::arithmetic::power2::lemma2_to64();
    assert(exp_neg_of(0) == ONE) by {
        let u = 0 * LOG2_E / (ONE as int);
        assert(u == 0);
        assert(u / (ONE as int) + 1 == 1);
        assert(ONE - u % (ONE as int) == ONE);
        assert(ONE * SEGMENTS / (ONE as int) == SEGMENTS);
        assert(pow2_fraction_of(ONE as int) == 2 * ONE);
        assert(pow2(1) == 2);
        assert(2 * ONE == 2_000_000_000);
        assert(2_000_000_000int / 2 == 1_000_000_000);
    }
    let u = t * LOG2_E / (ONE as int);
    let halvings = u / (ONE as int) + 1;
    assert(t * LOG2_E >= t * ONE) by (nonlinear_arith)
        requires
            0 <= t,
            LOG2_E >= ONE,
    ;
    lemma_div_is_ordered(t * ONE, t * LOG2_E, ONE as int);
    vstd::arithmetic::div_mod::lemma_div_multiples_vanish(t, ONE as int);
    assert(u >= t);
    if halvings <= 31 {
        let p = pow2_fraction_of(ONE - u % (ONE as int));
        lemma_pow2_fraction_bounds(ONE - u % (ONE as int));
        let d = pow2(halvings as nat) as int;
        lemma_pow2_pos(halvings as nat);
        vstd::arithmetic::power2::lemma_pow2_unfold(halvings as nat);
        lemma_pow2_pos((halvings - 1) as nat);
        assert(d >= 2);
        lemma_div_pos_is_pos(p, d);
        vstd::arithmetic::div_mod::lemma_div_is_ordered_by_denominator(p, 2, d);
    }
}

/// Within a segment of the table the interpolated power lies between the
/// segment's ends and grows with the offset into the segment.
proof fn lemma_interpolated_between(seg: int, off: int, further: int)
    requires
        0 <= seg < SEGMENTS,
        0 <= off <= further < ONE,
    ensures
        pow2_table(seg) <= pow2_table(seg) + (pow2_table(seg + 1) - pow2_table(seg)) * off / (
        ONE as int),
        pow2_table(seg) + (pow2_table(seg + 1) - pow2_table(seg)) * off / (ONE as int)
            <= pow2_table(seg) + (pow2_table(seg + 1) - pow2_table(seg)) * further / (ONE as int),
        pow2_table(seg) + (pow2_table(seg + 1) - pow2_table(seg)) * further / (ONE as int)
            <= pow2_table(seg + 1),
{
    lemma_table_increases(seg);
    let rise = pow2_table(seg + 1) - pow2_table(seg);
    assert(0 <= rise * off <= rise * further <= rise * ONE) by (nonlinear_arith)
        requires
            0 <= rise,
            0 <= off <= further <= ONE,
    ;
    lemma_div_pos_is_pos(rise * off, ONE as int);
    lemma_div_is_ordered(rise * off, rise * further, ONE as int);
    lemma_div_is_ordered(rise * further, rise * ONE, ONE as int);
    vstd::arithmetic::div_mod::lemma_div_multiples_vanish(rise, ONE as int);
}

/// A power of two grows with its exponent.
pub proof fn lemma_pow2_fraction_monotone(a: int, b: int)
    requires
        0 <= a <= b <= ONE,
    ensures
        pow2_fraction_of(a) <= pow2_fraction_of(b),
{
    let one = ONE as int;
    let sa = a * SEGMENTS / one;
    let sb = b * SEGMENTS / one;
    let oa = a * SEGMENTS % one;
    let ob = b * SEGMENTS % one;
    lemma_div_is_ordered(a * SEGMENTS, b * SEGMENTS, one);
    lemma_div_pos_is_pos(a * SEGMENTS, one);
    vstd::arithmetic::div_mod::lemma_fundamental_div_mod(a * SEGMENTS, one);
    vstd::arithmetic::div_mod::lemma_fundamental_div_mod(b * SEGMENTS, one);
    lemma_pow2_fraction_bounds(a);
    lemma_pow2_fraction_bounds(b);
    if sb < SEGMENTS {
        if sa == sb {
            lemma_interpolated_between(sa, oa, ob);
        } else {
            lemma_interpolated_between(sa, oa, oa);
            lemma_interpolated_between(sb, ob, ob);
            lemma_table_ordered(sa + 1, sb);
        }
    }
}

/// The exponential never rises: the larger `t`, the smaller `e^(-t)`.
pub proof fn lemma_exp_neg_never_rises(s: int, t: int)
    requires
        0 <= s <= t,
    ensures
        exp_neg_of(s) >= exp_neg_of(t),
{
    let one = ONE as int;
    let us = s * LOG2_E / one;
    let ut = t * LOG2_E / one;
    assert(0 <= s * LOG2_E <= t * LOG2_E) by (nonlinear_arith)
        requires
            0 <= s <= t,
    ;
    lemma_div_is_ordered(s * LOG2_E, t * LOG2_E, one);
    lemma_div_pos_is_pos(s * LOG2_E, one);
    lemma_div_is_ordered(us, ut, one);
    lemma_div_pos_is_pos(us, one);
    let hs = us / one + 1;
    let ht = ut / one + 1;
    lemma_exp_neg_bounds(s);
    lemma_exp_neg_bounds(t);
    if ht <= 31 {
        let gs = ONE - us % one;
        let gt = ONE - ut % one;
        let ps = pow2_fraction_of(gs);
        let pt = pow2_fraction_of(gt);
        lemma_pow2_fraction_bounds(gs);
        lemma_pow2_fraction_bounds(gt);
        let ds = pow2(hs as nat) as int;
        let dt = pow2(ht as nat) as int;
        lemma_pow2_pos(hs as nat);
        lemma_pow2_pos(ht as nat);
        if hs == ht {
            vstd::arithmetic::div_mod::lemma_fundamental_div_mod(us, one);
            vstd::arithmetic::div_mod::lemma_fundamental_div_mod(ut, one);
            lemma_pow2_fraction_monotone(gt, gs);
            lemma_div_is_ordered(pt, ps, ds);
        } else {
            vstd::arithmetic::power2::lemma_pow2_unfold((hs + 1) as nat);
            if ht > hs + 1 {
                vstd::arithmetic::power2::lemma_pow2_strictly_increases(
                    (hs + 1) as nat,
                    ht as nat,
                );
            }
            lemma_div_is_ordered(pt, 2 * one, dt);
            vstd::arithmetic::div_mod::lemma_div_is_ordered_by_denominator(2 * one, 2 * ds, dt);
            vstd::arithmetic::div_mod::lemma_div_multiples_vanish_quotient(2, one, ds);
            lemma_div_is_ordered(one, ps, ds);
        }
    }
}

/// `2^g` for a fixed-point exponent `g` between zero and one.
pub fn pow2_fraction(g: u64) -> (p: u64)
    requires
        g <= ONE,
    ensures
        p == pow2_fraction_of(g as int),
        ONE <= p <= 2 * ONE,
{
    proof {
        lemma_pow2_fraction_bounds(g as int);
    }
    let scaled: u64 = g * SEGMENTS;
    let seg: u64 = scaled / ONE;
    let off: u64 = scaled % ONE;
    if seg >= SEGMENTS {
        2 * ONE
    } else {
        let lo: u64 = table_entry(seg as usize);
        let hi: u64 = table_entry(seg as usize + 1);
        proof {
            lemma_table_increases(seg as int);
            assert((hi - lo) * off <= ONE * ONE) by (nonlinear_arith)
                requires
                    0 <= hi - lo <= ONE,
                    0 <= off <= ONE,
            ;
        }
        lo + (hi - lo) * off / ONE
    }
}

/// `e^(-t)` for a fixed-point `t`.
pub fn exp_neg(t: u64) -> (e: u64)
    ensures
        e == exp_neg_of(t as int),
        e <= ONE,
{
    proof {
        lemma_exp_neg_bounds(t as int);
    }
    assert(t * LOG2_E <= u64::MAX * LOG2_E) by (nonlinear_arith);
    let u: u128 = (t as u128) * (LOG2_E as u128) / (ONE as u128);
    let whole: u128 = u / (ONE as u128);
    if whole >= 31 {
        0
    } else {
        let part: u64 = (u % (ONE as u128)) as u64;
        let p: u64 = pow2_fraction(ONE - part);
        let halvings: u64 = whole as u64 + 1;
        proof {
            vstd::bits::lemma_u64_shr_is_div(p, halvings);
        }
        p >> halvings
    }
}

/// The segment of the table in which `m` lies, searched upwards from
/// segment `i`: the first one whose upper end is above `m`.
pub open spec fn segment_from(m: int, i: int) -> int
    decreases SEGMENTS - i,
{
    if i + 1 >= SEGMENTS || m < pow2_table(i + 1) {
        i
    } else {
        segment_from(m, i + 1)
    }
}

/// The base-2 logarithm, in fixed point, of a fixed-point `m` between one and
/// two: the table read backwards, interpolated linearly and rounded down.
pub open spec fn log2_fraction_of(m: int) -> int {
    let seg = segment_from(m, 0);
    let lo = pow2_table(seg);
    let hi = pow2_table(seg + 1);
    (seg * ONE + (m - lo) * ONE / (hi - lo)) / (SEGMENTS as int)
}

/// The base-2 logarithm, in fixed point, of a fixed-point `x`: one for each
/// halving that it takes to bring `x` below two, and the logarithm of what is
/// left. Below one it is zero.
pub open spec fn log2_of(x: int) -> int
    decreases x,
{
    if x < ONE {
        0
    } else if x < 2 * ONE {
        log2_fraction_of(x)
    } else {
        ONE + log2_of(x / 2)
    }
}

/// The base-10 logarithm, in fixed point, of a fixed-point `x` that is at
/// least one.
pub open spec fn log10_of(x: int) -> int {
    log2_of(x) * LOG10_2 / (ONE as int)
}

/// The search for a segment ends in the one whose ends enclose `m`.
pub proof fn lemma_segment_encloses(m: int, i: int)
    requires
        0 <= i < SEGMENTS,
        pow2_table(i) <= m < 2 * ONE,
    ensures
        i <= segment_from(m, i) < SEGMENTS,
        pow2_table(segment_from(m, i)) <= m < pow2_table(segment_from(m, i) + 1),
    decreases SEGMENTS - i,
{
    if i + 1 < SEGMENTS && m >= pow2_table(i + 1) {
        lemma_segment_encloses(m, i + 1);
    }
}

/// Between one and two the logarithm lies between zero and one and grows with
/// its argument.
pub proof fn lemma_log2_fraction_monotone(a: int, b: int)
    requires
        ONE <= a <= b < 2 * ONE,
    ensures
        0 <= log2_fraction_of(a) <= log2_fraction_of(b) <= ONE,
{
    let sa = segment_from(a, 0);
    let sb = segment_from(b, 0);
    lemma_segment_encloses(a, 0);
    lemma_segment_encloses(b, 0);
    if sa > sb {
        lemma_table_ordered(sb + 1, sa);
    }
    let qa = lemma_interpolation_bounds(a, sa);
    let qb = lemma_interpolation_bounds(b, sb);
    if sa == sb {
        let span = pow2_table(sa + 1) - pow2_table(sa);
        lemma_div_is_ordered((a - pow2_table(sa)) * ONE, (b - pow2_table(sa)) * ONE, span);
    } else {
        assert(sa * ONE + ONE <= sb * ONE) by (nonlinear_arith)
            requires
                sa + 1 <= sb,
        ;
    }
    assert(0 <= sa * ONE && sb * ONE + ONE <= SEGMENTS * ONE) by (nonlinear_arith)
        requires
            0 <= sa,
            sb + 1 <= SEGMENTS,
    ;
    lemma_div_is_ordered(sa * ONE + qa, sb * ONE + qb, SEGMENTS as int);
    lemma_div_is_ordered(sb * ONE + qb, SEGMENTS * ONE, SEGMENTS as int);
    lemma_div_pos_is_pos(sa * ONE + qa, SEGMENTS as int);
}

/// How far `m` has come through segment `seg`, between zero and one.
proof fn lemma_interpolation_bounds(m: int, seg: int) -> (q: int)
    requires
        0 <= seg < SEGMENTS,
        pow2_table(seg) <= m < pow2_table(seg + 1),
    ensures
        q == (m - pow2_table(seg)) * ONE / (pow2_table(seg + 1) - pow2_table(seg)),
        0 <= q <= ONE,
{
    let lo = pow2_table(seg);
    let span = pow2_table(seg + 1) - lo;
    assert(0 <= (m - lo) * ONE <= span * ONE) by (nonlinear_arith)
        requires
            0 <= m - lo <= span,
    ;
    lemma_div_is_ordered((m - lo) * ONE, span * ONE, span);
    lemma_div_pos_is_pos((m - lo) * ONE, span);
    assert(span * ONE == ONE * span) by (nonlinear_arith);
    vstd::arithmetic::div_mod::lemma_div_multiples_vanish(ONE as int, span);
    (m - lo) * ONE / span
}

/// The logarithm is never negative and grows with its argument.
pub proof fn lemma_log2_monotone(x: int, y: int)
    requires
        x <= y,
    ensures
        0 <= log2_of(x) <= log2_of(y),
    decreases y,
{
    if y < ONE {
    } else if y < 2 * ONE {
        if x >= ONE {
            lemma_log2_fraction_monotone(x, y);
        } else {
            lemma_log2_fraction_monotone(y, y);
        }
    } else {
        if x < ONE {
            lemma_log2_monotone(y / 2, y / 2);
        } else if x < 2 * ONE {
            lemma_log2_fraction_monotone(x, x);
            lemma_log2_monotone(y / 2, y / 2);
        } else {
            lemma_log2_monotone(x / 2, y / 2);
        }
    }
}

/// The base-10 logarithm is never negative and grows with its argument.
pub proof fn lemma_log10_monotone(x: int, y: int)
    requires
        x <= y,
    ensures
        0 <= log10_of(x) <= log10_of(y),
{
    lemma_log2_monotone(x, y);
    let lx = log2_of(x);
    let ly = log2_of(y);
    assert(0 <= lx * LOG10_2 <= ly * LOG10_2) by (nonlinear_arith)
        requires
            0 <= lx <= ly,
    ;
    lemma_div_is_ordered(lx * LOG10_2, ly * LOG10_2, ONE as int);
    lemma_div_pos_is_pos(lx * LOG10_2, ONE as int);
}

/// The logarithm of one is zero.
pub proof fn lemma_log_of_one()
    ensures
        log2_of(ONE as int) == 0,
        log10_of(ONE as int) == 0,
{
    assert(segment_from(ONE as int, 0) == 0);
    assert((ONE - pow2_table(0)) * ONE == 0);
    assert(0int / (pow2_table(1) - pow2_table(0)) == 0);
    assert(0 * ONE + 0 == 0);
    assert(0int / (SEGMENTS as int) == 0);
    assert(log2_fraction_of(ONE as int) == 0);
    assert(0 * LOG10_2 / (ONE as int) == 0);
}

/// Below `2^n` the logarithm is at most `n`.
pub proof fn lemma_log2_upper(x: int, n: nat)
    requires
        x < ONE * pow2(n),
    ensures
        log2_of(x) <= n * ONE,
    decreases n,
{
    if x < ONE {
        assert(0 <= n * ONE) by (nonlinear_arith);
    } else if n == 0 {
        vstd::arithmetic::power2::lemma2_to64();
    } else {
        vstd::arithmetic::power2::lemma_pow2_unfold(n);
        assert(ONE <= (n - 1) * ONE + ONE == n * ONE) by (nonlinear_arith)
            requires
                n >= 1,
        ;
        if x < 2 * ONE {
            lemma_log2_fraction_monotone(x, x);
        } else {
            assert(ONE * pow2(n) == 2 * (ONE * pow2((n - 1) as nat))) by (nonlinear_arith)
                requires
                    pow2(n) == 2 * pow2((n - 1) as nat),
            ;
            lemma_log2_upper(x / 2, (n - 1) as nat);
        }
    }
}

/// The segment of the table in which `m` lies.
fn segment(m: u64) -> (seg: usize)
    requires
        ONE <= m < 2 * ONE,
    ensures
        seg == segment_from(m as int, 0),
        seg < SEGMENTS,
        pow2_table(seg as int) <= m < pow2_table(seg + 1),
{
    proof {
        lemma_segment_encloses(m as int, 0);
    }
    let mut seg: usize = 0;
    while seg + 1 < SEGMENTS as usize && m >= table_entry(seg + 1)
        invariant
            seg < SEGMENTS,
            segment_from(m as int, 0) == segment_from(m as int, seg as int),
        decreases SEGMENTS - seg,
    {
        seg += 1;
    }
    seg
}

/// The base-2 logarithm of a fixed-point `x`; zero where `x` is below one.
pub fn log2(x: u64) -> (l: u64)
    ensures
        l == log2_of(x as int),
        l <= 35 * ONE,
{
    proof {
        vstd::arithmetic::power2::lemma2_to64_rest();
        assert(ONE * pow2(35) > u64::MAX);
        lemma_log2_upper(x as int, 35);
        lemma_log2_monotone(x as int, x as int);
    }
    if x < ONE {
        return 0;
    }
    let mut m: u64 = x;
    let mut halvings: u64 = 0;
    while m >= 2 * ONE
        invariant
            m >= ONE,
            log2_of(x as int) == halvings * ONE + log2_of(m as int),
            log2_of(x as int) <= 35 * ONE,
        decreases m,
    {
        proof {
            lemma_log2_monotone(m as int / 2, m as int / 2);
            assert((halvings + 1) * ONE == halvings * ONE + ONE) by (nonlinear_arith);
        }
        m = m / 2;
        halvings += 1;
    }
    let seg: usize = segment(m);
    let lo: u64 = table_entry(seg);
    let hi: u64 = table_entry(seg + 1);
    proof {
        lemma_interpolation_bounds(m as int, seg as int);
        lemma_log2_fraction_monotone(m as int, m as int);
        assert((m - lo) * ONE <= ONE * ONE) by (nonlinear_arith)
            requires
                0 <= m - lo <= ONE,
        ;
        assert(seg * ONE <= 31 * ONE) by (nonlinear_arith)
            requires
                seg <= 31,
        ;
        assert(halvings * ONE <= 35 * ONE);
    }
    let through: u64 = (m - lo) * ONE / (hi - lo);
    halvings * ONE + (seg as u64 * ONE + through) / SEGMENTS
}

/// The base-10 logarithm of a fixed-point `x`; zero where `x` is below one.
pub fn log10(x: u64) -> (l: u64)
    ensures
        l == log10_of(x as int),
{
    let l2: u64 = log2(x);
    assert(l2 * LOG10_2 <= 35 * ONE * LOG10_2) by (nonlinear_arith)
        requires
            l2 <= 35 * ONE,
    ;
    l2 * LOG10_2 / ONE
}

} // verus!
