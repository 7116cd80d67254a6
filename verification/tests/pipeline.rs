use filmgrain::density::DensityCurveParams;
use filmgrain::developer::Developer;
use filmgrain::emulsion::{Emulsion, Strategy};
use filmgrain::fixed::ONE;
use filmgrain::halide::{GrainRanges, Halide};
use filmgrain::kernel::MAX_SIGMA;
use filmgrain::pipeline::{
    exposure_from_luma16, simulate, Settings, SettingsError, SimulationError,
};

const WHITE: (u8, u8, u8, u8) = (255, 255, 255, 255);

fn quick() -> Settings {
    let mut settings = Settings::standard();
    settings.sigma_down = 500_000_000;
    settings.sigma_up = 500_000_000;
    settings
}

#[test]
fn standard_settings() {
    let s = Settings::standard();
    assert_eq!(s.strategy, Strategy::PerPixelGrid(6));
    assert_eq!(s.exposure_time, 1000 * ONE);
    assert_eq!(s.developer, Developer { strength: 100_000_000, max_development: ONE });
    assert_eq!(s.development_dt, 100_000_000);
    assert_eq!(s.reflection_factor, 600_000_000);
    assert_eq!(s.sigma_down, 3 * ONE);
    assert_eq!(s.sigma_up, 5 * ONE);
    assert_eq!(s.curve, DensityCurveParams::standard());
    assert_eq!(s.validate(), Ok(()));
}

#[test]
fn radius_range_must_not_be_empty() {
    let mut s = Settings::standard();
    s.ranges.radius = (5, 5);
    assert_eq!(s.validate(), Err(SettingsError::RadiusRange));
    s.ranges.radius = (6, 5);
    assert_eq!(s.validate(), Err(SettingsError::RadiusRange));
    s.ranges.radius = (0, 5);
    assert_eq!(s.validate(), Err(SettingsError::RadiusRange));
    s.ranges.radius = (5, 6);
    assert_eq!(s.validate(), Ok(()));
}

#[test]
fn latent_threshold_range_must_start_at_one_or_more() {
    let mut s = Settings::standard();
    s.ranges.latent_threshold = (0, 20);
    assert_eq!(s.validate(), Err(SettingsError::LatentThresholdRange));
    s.ranges.latent_threshold = (20, 20);
    assert_eq!(s.validate(), Err(SettingsError::LatentThresholdRange));
    s.ranges.latent_threshold = (20, 5);
    assert_eq!(s.validate(), Err(SettingsError::LatentThresholdRange));
    s.ranges.latent_threshold = (1, 2);
    assert_eq!(s.validate(), Ok(()));
}

#[test]
fn absorption_probability_range_must_lie_in_the_unit() {
    let mut s = Settings::standard();
    s.ranges.absorption_probability = (0, ONE);
    assert_eq!(s.validate(), Err(SettingsError::AbsorptionProbabilityRange));
    s.ranges.absorption_probability = (ONE, ONE);
    assert_eq!(s.validate(), Err(SettingsError::AbsorptionProbabilityRange));
    s.ranges.absorption_probability = (ONE, ONE + 2);
    assert_eq!(s.validate(), Err(SettingsError::AbsorptionProbabilityRange));
    s.ranges.absorption_probability = (ONE, ONE + 1);
    assert_eq!(s.validate(), Ok(()));
}

#[test]
fn developer_must_be_positive() {
    let mut s = Settings::standard();
    s.developer.strength = 0;
    assert_eq!(s.validate(), Err(SettingsError::Developer));
    s.developer.strength = 1;
    s.developer.max_development = 0;
    assert_eq!(s.validate(), Err(SettingsError::Developer));
}

#[test]
fn development_step_must_be_positive() {
    let mut s = Settings::standard();
    s.development_dt = 0;
    assert_eq!(s.validate(), Err(SettingsError::DevelopmentStep));
}

#[test]
fn reflection_factor_must_not_exceed_one() {
    let mut s = Settings::standard();
    s.reflection_factor = ONE + 1;
    assert_eq!(s.validate(), Err(SettingsError::ReflectionFactor));
    s.reflection_factor = ONE;
    assert_eq!(s.validate(), Ok(()));
    s.reflection_factor = 0;
    assert_eq!(s.validate(), Ok(()));
}

#[test]
fn sigma_must_be_positive_and_not_too_wide() {
    let mut s = Settings::standard();
    s.sigma_down = 0;
    assert_eq!(s.validate(), Err(SettingsError::Sigma));
    s.sigma_down = MAX_SIGMA + 1;
    assert_eq!(s.validate(), Err(SettingsError::Sigma));
    s.sigma_down = MAX_SIGMA;
    assert_eq!(s.validate(), Ok(()));
    s.sigma_up = 0;
    assert_eq!(s.validate(), Err(SettingsError::Sigma));
    s.sigma_up = MAX_SIGMA + 1;
    assert_eq!(s.validate(), Err(SettingsError::Sigma));
}

#[test]
fn curve_must_be_positive_and_rising() {
    let mut s = Settings::standard();
    s.curve.d_min = 0;
    assert_eq!(s.validate(), Err(SettingsError::Curve));
    s.curve = DensityCurveParams::standard();
    s.curve.d_max = s.curve.d_min;
    assert_eq!(s.validate(), Err(SettingsError::Curve));
    s.curve = DensityCurveParams::standard();
    s.curve.gamma = 0;
    assert_eq!(s.validate(), Err(SettingsError::Curve));
    s.curve = DensityCurveParams::standard();
    s.curve.e0 = 0;
    assert_eq!(s.validate(), Err(SettingsError::Curve));
}

#[test]
fn first_fault_is_reported() {
    let mut s = Settings::standard();
    s.curve.e0 = 0;
    s.sigma_up = 0;
    assert_eq!(s.validate(), Err(SettingsError::Sigma));
    s.development_dt = 0;
    assert_eq!(s.validate(), Err(SettingsError::DevelopmentStep));
    s.ranges.radius = (0, 0);
    assert_eq!(s.validate(), Err(SettingsError::RadiusRange));
}

#[test]
fn empty_canvas_is_refused() {
    let s = quick();
    assert_eq!(simulate(0, 3, &[], &s).err(), Some(SimulationError::EmptyCanvas));
    assert_eq!(simulate(3, 0, &[], &s).err(), Some(SimulationError::EmptyCanvas));
    assert_eq!(simulate(0, 0, &[ONE], &s).err(), Some(SimulationError::EmptyCanvas));
}

#[test]
fn huge_canvas_is_refused() {
    let s = quick();
    assert_eq!(
        simulate(u32::MAX, u32::MAX, &[], &s).err(),
        Some(SimulationError::CanvasTooLarge)
    );
}

#[test]
fn input_of_the_wrong_size_is_refused() {
    let s = quick();
    assert_eq!(simulate(2, 2, &[], &s).err(), Some(SimulationError::InputSize));
    assert_eq!(simulate(2, 2, &[ONE; 3], &s).err(), Some(SimulationError::InputSize));
    assert_eq!(simulate(2, 2, &[ONE; 5], &s).err(), Some(SimulationError::InputSize));
}

#[test]
fn faulty_settings_are_refused() {
    let mut s = quick();
    s.development_dt = 0;
    assert_eq!(
        simulate(2, 2, &[ONE; 4], &s).err(),
        Some(SimulationError::Settings(SettingsError::DevelopmentStep))
    );
    assert_eq!(simulate(2, 2, &[ONE; 3], &s).err(), Some(SimulationError::InputSize));
}

#[test]
fn simulation_without_grains_leaves_the_canvas_blank() {
    let mut s = quick();
    s.strategy = Strategy::RandomScatter(0);
    let canvas = simulate(4, 3, &[ONE; 12], &s).unwrap();
    for y in 0..3 {
        for x in 0..4 {
            assert_eq!(canvas.pixel(x, y), Some(WHITE));
        }
    }
    assert_eq!(canvas.to_rgba_bytes(), vec![255u8; 48]);
}

#[test]
fn simulation_without_trials_leaves_the_canvas_blank() {
    let mut s = quick();
    s.strategy = Strategy::PerPixelGrid(0);
    let canvas = simulate(4, 3, &[ONE; 12], &s).unwrap();
    assert_eq!(canvas.to_rgba_bytes(), vec![255u8; 48]);
    let blank = Emulsion::from(vec![]).render_with(4, 3, &s.curve);
    assert_eq!(canvas.to_rgba_bytes(), blank.to_rgba_bytes());
}

#[test]
fn simulation_in_the_dark_leaves_the_canvas_blank() {
    let canvas = simulate(4, 3, &[0; 12], &quick()).unwrap();
    assert_eq!(canvas.to_rgba_bytes(), vec![255u8; 48]);
}

#[test]
fn one_grain_on_one_pixel_end_to_end() {
    let dev = Developer { strength: 100_000_000, max_development: ONE };
    let mut grain = Halide {
        x: 0,
        y: 0,
        radius: ONE,
        silver_count: 0,
        latent_threshold: 1,
        activated: false,
        spectral_sensitivity: 0,
        absorption_probability: ONE,
        developed_fraction: 0,
    };
    // pi photons in unit time: three arrive
    assert!(grain.photon_count(ONE, ONE) >= 1);
    grain.expose(ONE, ONE);
    assert!(grain.activated);
    assert_eq!(grain.silver_count, 1);
    Halide::develop_grain(&mut grain, &dev, ONE);
    assert!(grain.developed_fraction > 0);
    assert_eq!(grain.developed_fraction, 100_000_000);
    let canvas = Emulsion::from(vec![grain]).render_emulsion(1, 1);
    let (shade, _, _, alpha) = canvas.pixel(0, 0).unwrap();
    assert!(shade < 255);
    assert_eq!(shade, 190);
    assert_eq!(alpha, 255);
}

#[test]
fn one_grain_on_one_pixel_through_the_pipeline() {
    let settings = Settings {
        strategy: Strategy::RandomScatter(1),
        ranges: GrainRanges {
            radius: (ONE, ONE + 1),
            latent_threshold: (1, 2),
            absorption_probability: (ONE, ONE + 1),
        },
        exposure_time: ONE,
        developer: Developer { strength: 100_000_000, max_development: ONE },
        development_dt: ONE,
        reflection_factor: 0,
        sigma_down: ONE,
        sigma_up: ONE,
        curve: DensityCurveParams::standard(),
    };
    let canvas = simulate(1, 1, &[ONE], &settings).unwrap();
    assert_eq!(canvas.pixel(0, 0), Some((190, 190, 190, 255)));
    assert_eq!(canvas.pixel(1, 0), None);
}

#[test]
fn bright_light_darkens_the_negative() {
    // a bright left half and a dark right half
    let (width, height) = (6u32, 4u32);
    let mut input: Vec<u64> = vec![0; 24];
    for y in 0..4 {
        for x in 0..3 {
            input[y * 6 + x] = ONE;
        }
    }
    let mut s = quick();
    s.reflection_factor = 0;
    let canvas = simulate(width, height, &input, &s).unwrap();
    for y in 0..height {
        for x in 0..width {
            let (r, g, b, a) = canvas.pixel(x, y).unwrap();
            assert_eq!((r, g), (g, b));
            assert_eq!(a, 255);
            if x < 3 {
                assert!(r < 255);
            } else {
                assert_eq!(r, 255);
            }
        }
    }
}

#[test]
fn standard_simulation_runs() {
    let input: Vec<u64> = (0..64u64).map(|i| (i % 8) * 125_000_000).collect();
    let canvas = simulate(8, 8, &input, &Settings::standard()).unwrap();
    let bytes = canvas.to_rgba_bytes();
    assert_eq!(bytes.len(), 256);
    assert!(bytes.chunks(4).all(|p| p[0] == p[1] && p[1] == p[2] && p[3] == 255));
}

#[test]
fn luminance_samples_become_intensities() {
    assert_eq!(exposure_from_luma16(&[0, 65535, 13107, 1, 32768]), vec![
        0,
        ONE,
        200_000_000,
        15_259,
        500_007_629
    ]);
    assert!(exposure_from_luma16(&[]).is_empty());
}
