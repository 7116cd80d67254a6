//! The whole simulation: from an exposure to the picture on the negative.
use crate::canvas::{canvas_dimensions, canvas_pixels, Canvas, Rgba};
use crate::density::DensityCurveParams;
use crate::developer::Developer;
use crate::emulsion::{
    blank, developed_all, is_generated, lemma_undeveloped_grains_leave_blank, painted, Emulsion,
    Strategy,
};
use crate::fixed::ONE;
use crate::halation::{halated, simulate_halation_2d};
use crate::halide::{GrainRanges, Halide, LATENT_EPSILON};
use crate::kernel::MAX_SIGMA;
use vstd::prelude::*;

verus! {

/// Everything that can be set about a simulation. Real quantities are
/// fixed-point numbers.
#[derive(Debug, Clone, Copy)]
pub struct Settings {
    /// how the emulsion is populated
    pub strategy: Strategy,
    /// the ranges that scattered grains are drawn from
    pub ranges: GrainRanges,
    /// how long the film is exposed
    pub exposure_time: u64,
    /// the developer bath
    pub developer: Developer,
    /// the length of the development step
    pub development_dt: u64,
    /// the share of light that the film base reflects
    pub reflection_factor: u64,
    /// the spread of light on its way down, in pixels
    pub sigma_down: u64,
    /// the spread of reflected light on its way up, in pixels
    pub sigma_up: u64,
    /// the characteristic curve
    pub curve: DensityCurveParams,
}

/// What can be wrong with settings.
#[derive(Debug, Clone, Copy, PartialEq, Eq, Structural)]
pub enum SettingsError {
    /// The radius range is empty or starts at zero.
    RadiusRange,
    /// The latent threshold range is empty or starts at zero.
    LatentThresholdRange,
    /// The absorption probability range is empty, starts at zero or reaches
    /// beyond one.
    AbsorptionProbabilityRange,
    /// The developer's strength or its ceiling is zero.
    Developer,
    /// The development step is zero.
    DevelopmentStep,
    /// The reflection factor is above one.
    ReflectionFactor,
    /// A blur is zero or wider than a kernel is built for.
    Sigma,
    /// A parameter of the characteristic curve is zero, or `d_min` is not
    /// below `d_max`.
    Curve,
}

/// Why a simulation did not run.
#[derive(Debug, Clone, Copy, PartialEq, Eq, Structural)]
pub enum SimulationError {
    /// The canvas has no pixels.
    EmptyCanvas,
    /// The canvas is larger than an RGBA buffer can be.
    CanvasTooLarge,
    /// The input does not hold one intensity for each pixel.
    InputSize,
    /// The settings are not valid.
    Settings(SettingsError),
}

impl Settings {
    /// The first thing that is wrong with the settings, in the order of
    /// [`SettingsError`], if anything is.
    pub open spec fn fault(&self) -> Option<SettingsError> {
        if !(0 < self.ranges.radius.0 < self.ranges.radius.1) {
            Some(SettingsError::RadiusRange)
        } else if !(0 < self.ranges.latent_threshold.0 < self.ranges.latent_threshold.1) {
            Some(SettingsError::LatentThresholdRange)
        } else if !(0 < self.ranges.absorption_probability.0
            < self.ranges.absorption_probability.1 <= ONE + 1) {
            Some(SettingsError::AbsorptionProbabilityRange)
        } else if !self.developer.is_valid() {
            Some(SettingsError::Developer)
        } else if self.development_dt == 0 {
            Some(SettingsError::DevelopmentStep)
        } else if self.reflection_factor > ONE {
            Some(SettingsError::ReflectionFactor)
        } else if !(0 < self.sigma_down <= MAX_SIGMA && 0 < self.sigma_up <= MAX_SIGMA) {
            Some(SettingsError::Sigma)
        } else if !self.curve.is_valid() {
            Some(SettingsError::Curve)
        } else {
            None
        }
    }

    /// Whether nothing is wrong with the settings.
    pub open spec fn is_valid(&self) -> bool {
        self.fault() is None
    }

    /// The settings of a common negative film, for use in contracts.
    pub open spec fn standard_settings() -> Settings {
        Settings {
            strategy: Strategy::PerPixelGrid(6),
            ranges: GrainRanges::standard_ranges(),
            exposure_time: 1_000_000_000_000,
            developer: Developer { strength: 100_000_000, max_development: 1_000_000_000 },
            development_dt: 100_000_000,
            reflection_factor: 600_000_000,
            sigma_down: 3_000_000_000,
            sigma_up: 5_000_000_000,
            curve: DensityCurveParams::standard_curve(),
        }
    }

    /// The settings of a common negative film: a pixel grid from six trials,
    /// the standard ranges and curve, an exposure time of 1000, a developer
    /// of strength 0.1 with ceiling 1 applied for a step of 0.1, and a film
    /// base that reflects 0.6 of the light, which spreads over 3 pixels on
    /// the way down and over 5 on the way up.
    #[verifier::when_used_as_spec(standard_settings)]
    pub fn standard() -> (settings: Settings)
        ensures
            settings == Settings::standard_settings(),
            settings.is_valid(),
    {
        Settings {
            strategy: Strategy::PerPixelGrid(6),
            ranges: GrainRanges::standard(),
            exposure_time: 1_000_000_000_000,
            developer: Developer { strength: 100_000_000, max_development: 1_000_000_000 },
            development_dt: 100_000_000,
            reflection_factor: 600_000_000,
            sigma_down: 3_000_000_000,
            sigma_up: 5_000_000_000,
            curve: DensityCurveParams::standard(),
        }
    }

    /// Checks the settings before any work is done, and names the first
    /// thing that is wrong with them.
    pub fn validate(&self) -> (checked: Result<(), SettingsError>)
        ensures
            checked is Ok <==> self.is_valid(),
            checked matches Err(e) ==> self.fault() == Some(e),
    {
        let ranges = &self.ranges;
        if !(0 < ranges.radius.0 && ranges.radius.0 < ranges.radius.1) {
            Err(SettingsError::RadiusRange)
        } else if !(0 < ranges.latent_threshold.0 && ranges.latent_threshold.0
            < ranges.latent_threshold.1) {
            Err(SettingsError::LatentThresholdRange)
        } else if !(0 < ranges.absorption_probability.0 && ranges.absorption_probability.0
            < ranges.absorption_probability.1 && ranges.absorption_probability.1 <= ONE + 1) {
            Err(SettingsError::AbsorptionProbabilityRange)
        } else if !(self.developer.strength > 0 && self.developer.max_development > 0) {
            Err(SettingsError::Developer)
        } else if self.development_dt == 0 {
            Err(SettingsError::DevelopmentStep)
        } else if self.reflection_factor > ONE {
            Err(SettingsError::ReflectionFactor)
        } else if !(0 < self.sigma_down && self.sigma_down <= MAX_SIGMA && 0 < self.sigma_up
            && self.sigma_up <= MAX_SIGMA) {
            Err(SettingsError::Sigma)
        } else if !(0 < self.curve.d_min && self.curve.d_min < self.curve.d_max && self.curve.gamma
            > 0 && self.curve.e0 > 0) {
            Err(SettingsError::Curve)
        } else {
            Ok(())
        }
    }
}

/// Why a simulation on a canvas of the given size, with an input of
/// `samples` intensities, does not run, if it does not: the first that holds
/// of an empty canvas, a canvas too large, an input of the wrong size and
/// settings with a fault.
pub open spec fn refusal(width: u32, height: u32, samples: nat, settings: Settings) -> Option<
    SimulationError,
> {
    if width == 0 || height == 0 {
        Some(SimulationError::EmptyCanvas)
    } else if 4 * width * height > isize::MAX {
        Some(SimulationError::CanvasTooLarge)
    } else if samples != width * height {
        Some(SimulationError::InputSize)
    } else {
        match settings.fault() {
            Some(e) => Some(SimulationError::Settings(e)),
            None => None,
        }
    }
}

/// Whether the pixels could be the picture that the simulation makes of
/// `input`: there is an emulsion that the strategy can generate under the
/// input's light after halation, and the pixels are what its grains paint
/// once each has gone through the development step.
pub open spec fn is_picture(
    pixels: Seq<Rgba>,
    width: u32,
    height: u32,
    input: Seq<u64>,
    settings: Settings,
) -> bool {
    exists|grains: Seq<Halide>|
        {
            &&& #[trigger] is_generated(
                grains,
                width,
                height,
                halated(
                    width as int,
                    height as int,
                    input,
                    settings.reflection_factor as int,
                    settings.sigma_down as int,
                    settings.sigma_up as int,
                ),
                settings.strategy,
                settings.ranges,
                settings.exposure_time,
            )
            &&& pixels == painted(
                developed_all(grains, settings.developer, settings.development_dt as int),
                width as int,
                height as int,
                settings.curve,
            )
        }
}

/// Whether the strategy lets no light reach any grain's silver: it makes
/// no grains, or grains from no exposure trial.
pub open spec fn is_unexposed(strategy: Strategy) -> bool {
    match strategy {
        Strategy::RandomScatter(count) => count == 0,
        Strategy::PerPixelGrid(samples) => samples == 0,
    }
}

/// Simulates the making of a negative. `input` holds the light that falls on
/// each pixel of a canvas of the given size, row by row. Halation spreads
/// it, the emulsion is populated and exposed, every grain is developed for
/// one step, and the grains are rendered.
pub fn simulate(width: u32, height: u32, input: &[u64], settings: &Settings) -> (outcome: Result<
    Canvas,
    SimulationError,
>)
    ensures
        outcome is Ok <==> refusal(width, height, input@.len(), *settings) is None,
        outcome matches Err(e) ==> refusal(width, height, input@.len(), *settings) == Some(e),
        outcome matches Ok(canvas) ==> {
            &&& canvas_dimensions(canvas) == (width as nat, height as nat)
            &&& is_picture(canvas_pixels(canvas), width, height, input@, *settings)
            &&& is_unexposed(settings.strategy) ==> canvas_pixels(canvas) == blank(
                width as int,
                height as int,
            )
        },
{
    if width == 0 || height == 0 {
        return Err(SimulationError::EmptyCanvas);
    }
    assert(width * height <= u32::MAX * u32::MAX && 4 * width * height == 4 * (width * height))
        by (nonlinear_arith);
    let cells: u64 = (width as u64) * (height as u64);
    if cells > (isize::MAX as u64) / 4 {
        return Err(SimulationError::CanvasTooLarge);
    }
    if input.len() as u64 != cells {
        return Err(SimulationError::InputSize);
    }
    match settings.validate() {
        Err(e) => {
            return Err(SimulationError::Settings(e));
        },
        Ok(()) => {},
    }
    let field: Vec<u64> = simulate_halation_2d(
        width as usize,
        height as usize,
        input,
        settings.reflection_factor,
        settings.sigma_down,
        settings.sigma_up,
    );
    let mut emulsion = Emulsion::generate(
        width,
        height,
        field.as_slice(),
        settings.strategy,
        &settings.ranges,
        settings.exposure_time,
    );
    let ghost exposed = emulsion.grains@;
    emulsion.develop(&settings.developer, settings.development_dt);
    let canvas = emulsion.render_with(width, height, &settings.curve);
    proof {
        let grains = emulsion.grains@;
        assert(is_generated(
            exposed,
            width,
            height,
            field@,
            settings.strategy,
            settings.ranges,
            settings.exposure_time,
        ));
        assert(is_picture(canvas_pixels(canvas), width, height, input@, *settings));
        if is_unexposed(settings.strategy) {
            assert forall|i: int| 0 <= i < grains.len() implies (#[trigger] grains[i])
                .developed_fraction == 0 by {
                assert(exposed[i].is_fresh());
                assert(0 * ONE <= LATENT_EPSILON * exposed[i].latent_threshold)
                    by (nonlinear_arith);
            }
            lemma_undeveloped_grains_leave_blank(
                grains,
                width as int,
                height as int,
                settings.curve,
            );
        }
    }
    Ok(canvas)
}

/// The intensity that a 16-bit sample stands for: the sample as a share of
/// the largest one, so that 65535 is full light.
pub open spec fn intensity_of(sample: u16) -> int {
    sample * ONE / 65535
}

/// The exposure field of 16-bit luminance samples.
pub fn exposure_from_luma16(samples: &[u16]) -> (field: Vec<u64>)
    ensures
        field@.len() == samples@.len(),
        forall|i: int| 0 <= i < samples@.len() ==> field@[i] == intensity_of(samples@[i]),
        forall|i: int| 0 <= i < samples@.len() ==> field@[i] <= ONE,
{
    let n: usize = samples.len();
    let mut field: Vec<u64> = Vec::new();
    let mut i: usize = 0;
    while i < n
        invariant
            i <= n,
            n == samples@.len(),
            field@.len() == i,
            forall|j: int| 0 <= j < i ==> field@[j] == intensity_of(samples@[j]),
            forall|j: int| 0 <= j < i ==> field@[j] <= ONE,
        decreases n - i,
    {
        let sample: u64 = samples[i] as u64;
        field.push(sample * ONE / 65535);
        i += 1;
    }
    field
}

} // verus!
