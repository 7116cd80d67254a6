//! The characteristic curve: from developed fraction to optical density, and
//! from density to the shade of a pixel.
use crate::exponent::{lemma_log10_monotone, lemma_log_of_one, log10, log10_of};
use crate::fixed::{
    lemma_product_monotone, lemma_quotient_monotone, product, product_of, quotient, quotient_of,
    sum, sum_of, ONE,
};
use vstd::arithmetic::div_mod::{lemma_div_is_ordered, lemma_div_multiples_vanish};
use vstd::prelude::*;

verus! {

/// The shape of the characteristic curve, in fixed point.
#[derive(Debug, Clone, Copy, PartialEq, Eq, Structural)]
pub struct DensityCurveParams {
    /// The density of unexposed film: base plus fog.
    pub d_min: u64,
    /// The density at which the curve levels off.
    pub d_max: u64,
    /// The slope of the curve's straight part.
    pub gamma: u64,
    /// The exposure offset that keeps the logarithm finite.
    pub e0: u64,
}

impl DensityCurveParams {
    /// Whether all four parameters are positive and `d_min` lies below
    /// `d_max`.
    pub open spec fn is_valid(&self) -> bool {
        &&& 0 < self.d_min < self.d_max
        &&& self.gamma > 0
        &&& self.e0 > 0
    }

    /// The curve of a common negative film, for use in contracts.
    pub open spec fn standard_curve() -> DensityCurveParams {
        DensityCurveParams {
            d_min: 50_000_000,
            d_max: 2_500_000_000,
            gamma: 800_000_000,
            e0: 20_000_000,
        }
    }

    /// The curve of a common negative film: densities from 0.05 to 2.5, a
    /// slope of 0.8 and an offset of 0.02.
    #[verifier::when_used_as_spec(standard_curve)]
    pub fn standard() -> (curve: DensityCurveParams)
        ensures
            curve == DensityCurveParams::standard_curve(),
            curve.is_valid(),
    {
        DensityCurveParams {
            d_min: 50_000_000,
            d_max: 2_500_000_000,
            gamma: 800_000_000,
            e0: 20_000_000,
        }
    }

    /// The relative exposure `(developed + e0) / e0` that the curve takes
    /// the logarithm of.
    pub open spec fn relative_exposure(&self, developed: int) -> int {
        quotient_of(sum_of(developed, self.e0 as int), self.e0 as int)
    }

    /// The density before it is clamped: `d_min + gamma * log10((developed
    /// + e0) / e0)`.
    pub open spec fn unclamped_density(&self, developed: int) -> int {
        sum_of(
            self.d_min as int,
            product_of(self.gamma as int, log10_of(self.relative_exposure(developed))),
        )
    }

    /// The optical density of a grain with the given developed fraction,
    /// between `d_min` and `d_max`.
    pub open spec fn density_of(&self, developed: int) -> int {
        let density = self.unclamped_density(developed);
        if density < self.d_min {
            self.d_min as int
        } else if density > self.d_max {
            self.d_max as int
        } else {
            density
        }
    }

    /// Where a density lies between `d_min`, which gives zero, and `d_max`,
    /// which gives one.
    pub open spec fn normalized_density(&self, density: int) -> int {
        quotient_of(density - self.d_min, self.d_max - self.d_min)
    }

    /// The shade of a pixel for a density: `255 * (1 - norm)`, rounded to the
    /// nearest whole number. The denser, the darker.
    pub open spec fn shade_of_density(&self, density: int) -> int {
        (255 * (ONE - self.normalized_density(density)) + ONE / 2) / (ONE as int)
    }

    /// The shade of the pixel of a grain with the given developed fraction.
    pub open spec fn shade_of(&self, developed: int) -> int {
        self.shade_of_density(self.density_of(developed))
    }

    /// The shade of a pixel for a density between `d_min` and `d_max`.
    pub fn shade(&self, density: u64) -> (shade: u8)
        requires
            self.is_valid(),
            self.d_min <= density <= self.d_max,
        ensures
            shade == self.shade_of_density(density as int),
    {
        proof {
            lemma_normalized_in_unit(*self, density as int);
        }
        let norm: u64 = quotient(density - self.d_min, self.d_max - self.d_min);
        ((255 * (ONE - norm) + ONE / 2) / ONE) as u8
    }
}

/// A density between `d_min` and `d_max` is normalized to a number between
/// zero and one, so its shade lies between 0 and 255.
pub proof fn lemma_normalized_in_unit(curve: DensityCurveParams, density: int)
    requires
        curve.is_valid(),
        curve.d_min <= density <= curve.d_max,
    ensures
        0 <= curve.normalized_density(density) <= ONE,
        0 <= curve.shade_of_density(density) <= 255,
        curve.normalized_density(curve.d_min as int) == 0,
        curve.shade_of_density(curve.d_min as int) == 255,
{
    let span = curve.d_max - curve.d_min;
    lemma_quotient_monotone(0, density - curve.d_min, span);
    lemma_quotient_monotone(density - curve.d_min, span, span);
    assert(span * ONE == ONE * span) by (nonlinear_arith);
    lemma_div_multiples_vanish(ONE as int, span);
    assert(0 * ONE / span == 0);
    assert(curve.normalized_density(curve.d_min as int) == 0);
}

/// An undeveloped grain has the density of unexposed film and leaves its
/// pixel white.
pub proof fn lemma_undeveloped_is_white(curve: DensityCurveParams)
    requires
        curve.is_valid(),
    ensures
        curve.density_of(0) == curve.d_min,
        curve.shade_of(0) == 255,
{
    assert(curve.e0 * ONE == ONE * curve.e0) by (nonlinear_arith);
    lemma_div_multiples_vanish(ONE as int, curve.e0 as int);
    assert(curve.relative_exposure(0) == ONE);
    lemma_log_of_one();
    assert(curve.gamma * 0 / (ONE as int) == 0) by (nonlinear_arith);
    assert(product_of(curve.gamma as int, 0) == 0);
    lemma_normalized_in_unit(curve, curve.d_min as int);
}

/// The further a grain has developed, the denser it is and the darker its
/// pixel: density never falls and the shade never rises with the developed
/// fraction.
pub proof fn lemma_density_grows_with_development(
    curve: DensityCurveParams,
    less: u64,
    more: u64,
)
    requires
        curve.is_valid(),
        less <= more,
    ensures
        curve.d_min <= curve.density_of(less as int) <= curve.density_of(more as int)
            <= curve.d_max,
        255 >= curve.shade_of(less as int) >= curve.shade_of(more as int) >= 0,
{
    let e0 = curve.e0 as int;
    lemma_quotient_monotone(sum_of(less as int, e0), sum_of(more as int, e0), e0);
    let a = curve.relative_exposure(less as int);
    let b = curve.relative_exposure(more as int);
    lemma_log10_monotone(a, b);
    lemma_product_monotone(curve.gamma as int, log10_of(a), curve.gamma as int, log10_of(b));
    let da = curve.density_of(less as int);
    let db = curve.density_of(more as int);
    assert(da <= db);
    let span = curve.d_max - curve.d_min;
    lemma_quotient_monotone(da - curve.d_min, db - curve.d_min, span);
    lemma_normalized_in_unit(curve, da);
    lemma_normalized_in_unit(curve, db);
    let na = curve.normalized_density(da);
    let nb = curve.normalized_density(db);
    lemma_div_is_ordered(255 * (ONE - nb) + ONE / 2, 255 * (ONE - na) + ONE / 2, ONE as int);
}

/// The least developed fraction that shows under the standard curve.
pub const FAINTEST_SHOWING: u64 = 279_553;

/// The numbers of the standard curve at a developed fraction so small that
/// its relative exposure lies in the first segment of the table of powers,
/// worked out step by step to the shade that the curve gives it.
proof fn lemma_standard_shade_of_faint(
    developed: int,
    exposure: int,
    through: int,
    log2: int,
    log10: int,
    gain: int,
    norm: int,
    shade: int,
)
    requires
        0 <= developed <= 400_000,
        exposure == (developed + 20_000_000) * 1_000_000_000 / 20_000_000,
        through == (exposure - 1_000_000_000) * 1_000_000_000 / 21_897_149,
        log2 == through / 32,
        log10 == log2 * 301_029_996 / 1_000_000_000,
        gain == 800_000_000 * log10 / 1_000_000_000,
        norm == gain * 1_000_000_000 / 2_450_000_000,
        shade == (255 * (1_000_000_000 - norm) + 500_000_000) / 1_000_000_000,
        0 <= gain <= 2_000_000_000,
    ensures
        DensityCurveParams::standard_curve().shade_of(developed) == shade,
{
    let curve = DensityCurveParams::standard_curve();
    assert(ONE == 1_000_000_000);
    assert(1_000_000_000 <= exposure < 1_021_897_149);
    assert(curve.relative_exposure(developed) == exposure);
    assert(crate::exponent::pow2_table(0) == 1_000_000_000);
    assert(crate::exponent::pow2_table(1) == 1_021_897_149);
    assert(crate::exponent::segment_from(exposure, 0) == 0);
    assert(0 * ONE + through == through);
    assert(crate::exponent::log2_fraction_of(exposure) == log2);
    assert(crate::exponent::log2_of(exposure) == log2);
    assert(log10_of(exposure) == log10);
    assert(curve.gamma * log10 == 800_000_000 * log10);
    assert(product_of(curve.gamma as int, log10) == gain);
    assert(curve.unclamped_density(developed) == 50_000_000 + gain);
    assert(curve.density_of(developed) == 50_000_000 + gain);
    assert(curve.normalized_density(50_000_000 + gain) == norm);
}

/// Under the standard curve a grain darkens its pixel exactly when it has
/// developed by `FAINTEST_SHOWING` or more. Anything fainter is rounded to
/// white.
pub proof fn lemma_standard_curve_shows(developed: u64)
    ensures
        DensityCurveParams::standard_curve().shade_of(developed as int) < 255 <==> developed
            >= FAINTEST_SHOWING,
        0 <= DensityCurveParams::standard_curve().shade_of(developed as int) <= 255,
{
    let curve = DensityCurveParams::standard_curve();
    vstd::arithmetic::div_mod::lemma_fundamental_div_mod_converse(
        13_977_650_000_000_000int,
        21_897_149,
        638_331_958,
        4_212_258,
    );
    vstd::arithmetic::div_mod::lemma_fundamental_div_mod_converse(
        13_977_600_000_000_000int,
        21_897_149,
        638_329_674,
        17_300_574,
    );
    lemma_standard_shade_of_faint(
        279_553,
        1_013_977_650,
        638_331_958,
        19_947_873,
        6_004_908,
        4_803_926,
        1_960_786,
        254,
    );
    lemma_standard_shade_of_faint(
        279_552,
        1_013_977_600,
        638_329_674,
        19_947_802,
        6_004_886,
        4_803_908,
        1_960_778,
        255,
    );
    lemma_density_grows_with_development(curve, developed, developed);
    if developed >= FAINTEST_SHOWING {
        lemma_density_grows_with_development(curve, FAINTEST_SHOWING, developed);
    } else {
        lemma_density_grows_with_development(curve, developed, 279_552);
        lemma_density_grows_with_development(curve, 0, developed);
        lemma_undeveloped_is_white(curve);
        lemma_normalized_in_unit(curve, curve.density_of(developed as int));
    }
}

/// Simple H&D curve: `D = d_min + gamma * log10((exposure + e0) / e0)`,
/// clamped to `d_min..=d_max`, with the developed fraction taken as the
/// exposure.
pub fn film_density(developed_frac: u64, curve: &DensityCurveParams) -> (density: u64)
    requires
        curve.is_valid(),
    ensures
        density == curve.density_of(developed_frac as int),
        curve.d_min <= density <= curve.d_max,
{
    let e: u64 = sum(developed_frac, curve.e0);
    let density: u64 = sum(curve.d_min, product(curve.gamma, log10(quotient(e, curve.e0))));
    if density < curve.d_min {
        curve.d_min
    } else if density > curve.d_max {
        curve.d_max
    } else {
        density
    }
}

} // verus!
