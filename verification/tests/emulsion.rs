use filmgrain::canvas::Canvas;
use filmgrain::density::DensityCurveParams;
use filmgrain::developer::Developer;
use filmgrain::emulsion::{Emulsion, Strategy};
use filmgrain::fixed::ONE;
use filmgrain::halide::{GrainRanges, Halide};

const WHITE: (u8, u8, u8, u8) = (255, 255, 255, 255);

fn grain_at(x: usize, y: usize, developed_fraction: u64) -> Halide {
    Halide {
        x,
        y,
        radius: ONE,
        silver_count: 20,
        latent_threshold: 20,
        activated: true,
        spectral_sensitivity: 0,
        absorption_probability: ONE,
        developed_fraction,
    }
}

fn is_blank(canvas: &Canvas, width: u32, height: u32) -> bool {
    (0..height).all(|y| (0..width).all(|x| canvas.pixel(x, y) == Some(WHITE)))
}

#[test]
fn from_keeps_the_grains() {
    let grains = vec![grain_at(1, 2, 3), grain_at(4, 5, 6)];
    let emulsion = Emulsion::from(grains.clone());
    assert_eq!(emulsion.grains, grains);
}

#[test]
fn random_emulsion_has_the_asked_number_of_grains() {
    for count in [0usize, 1, 2, 100, 5000] {
        assert_eq!(Emulsion::create_random_emulsion(16, 9, count).grains.len(), count);
    }
}

#[test]
fn random_emulsion_lies_on_the_canvas() {
    let emulsion = Emulsion::create_random_emulsion(16, 9, 2000);
    for g in &emulsion.grains {
        assert!(g.x < 16 && g.y < 9);
        assert!(100_000_000 <= g.radius && g.radius < 500_000_000);
        assert!(5 <= g.latent_threshold && g.latent_threshold < 20);
        assert!(300_000_000 <= g.absorption_probability && g.absorption_probability < 600_000_000);
        assert_eq!(g.silver_count, 0);
        assert!(!g.activated);
        assert_eq!(g.developed_fraction, 0);
        assert_eq!(g.spectral_sensitivity, 0);
    }
}

#[test]
fn random_emulsion_is_spread_out() {
    let emulsion = Emulsion::create_random_emulsion(16, 9, 2000);
    let first = emulsion.grains[0];
    assert!(emulsion.grains.iter().any(|g| g.x != first.x));
    assert!(emulsion.grains.iter().any(|g| g.y != first.y));
    assert!(emulsion.grains.iter().any(|g| g.radius != first.radius));
    assert!(emulsion.grains.iter().any(|g| g.latent_threshold != first.latent_threshold));
}

#[test]
fn scatter_draws_from_its_ranges() {
    let ranges = GrainRanges {
        radius: (ONE, 2 * ONE),
        latent_threshold: (1, 2),
        absorption_probability: (ONE, ONE + 1),
    };
    let emulsion = Emulsion::scatter(3, 2, 300, &ranges);
    assert_eq!(emulsion.grains.len(), 300);
    for g in &emulsion.grains {
        assert!(g.x < 3 && g.y < 2);
        assert!(ONE <= g.radius && g.radius < 2 * ONE);
        assert_eq!(g.latent_threshold, 1);
        assert_eq!(g.absorption_probability, ONE);
    }
}

#[test]
fn pixel_grid_has_one_grain_for_each_pixel() {
    let field: Vec<u64> = vec![ONE; 12];
    for samples in [0usize, 1, 6] {
        let emulsion = Emulsion::per_pixel(4, 3, &field, samples, 1000 * ONE);
        assert_eq!(emulsion.grains.len(), 12);
        for (i, g) in emulsion.grains.iter().enumerate() {
            assert_eq!((g.x, g.y), (i % 4, i / 4));
            assert_eq!(g.latent_threshold, 20);
            assert_eq!(g.absorption_probability, 900_000_000);
            assert!(g.silver_count <= 20);
            assert_eq!(g.developed_fraction, 0);
        }
    }
}

#[test]
fn pixel_grid_without_trials_is_fresh() {
    let field: Vec<u64> = vec![1000 * ONE; 6];
    let emulsion = Emulsion::per_pixel(3, 2, &field, 0, 1000 * ONE);
    assert!(emulsion.grains.iter().all(|g| g.silver_count == 0 && !g.activated));
}

#[test]
fn pixel_grid_follows_the_light() {
    // bright to the left, dark to the right
    let field: Vec<u64> = vec![1000 * ONE, 0, 1000 * ONE, 0];
    let emulsion = Emulsion::per_pixel(2, 2, &field, 6, 1000 * ONE);
    assert_eq!(emulsion.grains[0].silver_count, 20);
    assert_eq!(emulsion.grains[1].silver_count, 0);
    assert_eq!(emulsion.grains[2].silver_count, 20);
    assert_eq!(emulsion.grains[3].silver_count, 0);
}

#[test]
fn emulsion_exposure_takes_the_light_at_each_grain() {
    let mut bright = grain_at(0, 0, 0);
    bright.silver_count = 0;
    bright.activated = false;
    let mut dark = bright;
    dark.x = 1;
    let mut outside = bright;
    outside.x = 2;
    let mut emulsion = Emulsion::from(vec![bright, dark, outside]);
    emulsion.expose(2, 1, &[1000 * ONE, 0], 1000 * ONE);
    assert_eq!(emulsion.grains[0].silver_count, 20);
    assert!(emulsion.grains[0].activated);
    assert_eq!(emulsion.grains[1], dark);
    assert_eq!(emulsion.grains[2], outside);
}

#[test]
fn emulsion_exposure_activates_full_grains_everywhere() {
    let mut full = grain_at(0, 0, 0);
    full.activated = false;
    let mut outside = full;
    outside.x = 7;
    let mut emulsion = Emulsion::from(vec![full, outside]);
    emulsion.expose(2, 1, &[0, 0], 1000 * ONE);
    for (after, before) in emulsion.grains.iter().zip([full, outside]) {
        assert!(after.activated);
        assert_eq!(after.silver_count, before.silver_count);
        assert_eq!((after.x, after.y), (before.x, before.y));
    }
}

#[test]
fn emulsion_development_develops_every_grain() {
    let dev = Developer { strength: 100_000_000, max_development: ONE };
    let mut half = grain_at(0, 0, 0);
    half.silver_count = 10;
    let mut none = grain_at(1, 0, 0);
    none.silver_count = 0;
    let mut emulsion = Emulsion::from(vec![grain_at(0, 0, 0), half, none]);
    emulsion.develop(&dev, ONE);
    assert_eq!(emulsion.grains[0].developed_fraction, 100_000_000);
    assert_eq!(emulsion.grains[1].developed_fraction, 50_000_000);
    assert_eq!(emulsion.grains[2].developed_fraction, 0);
    emulsion.develop(&dev, 20 * ONE);
    assert_eq!(emulsion.grains[0].developed_fraction, ONE);
    assert_eq!(emulsion.grains[1].developed_fraction, ONE);
    assert_eq!(emulsion.grains[2].developed_fraction, 0);
}

#[test]
fn generate_scatters_and_exposes() {
    let ranges = GrainRanges {
        radius: (ONE, ONE + 1),
        latent_threshold: (3, 4),
        absorption_probability: (ONE, ONE + 1),
    };
    // pi photons arrive at each grain in the light, all absorbed: 3 atoms
    let field: Vec<u64> = vec![ONE, 0];
    let emulsion = Emulsion::generate(2, 1, &field, Strategy::RandomScatter(200), &ranges, ONE);
    assert_eq!(emulsion.grains.len(), 200);
    for g in &emulsion.grains {
        assert!(g.y == 0 && g.x < 2);
        if g.x == 0 {
            assert_eq!(g.silver_count, 3);
            assert!(g.activated);
        } else {
            assert_eq!(g.silver_count, 0);
            assert!(!g.activated);
        }
    }
    assert!(emulsion.grains.iter().any(|g| g.x == 0));
    assert!(emulsion.grains.iter().any(|g| g.x == 1));
}

#[test]
fn generate_makes_a_pixel_grid() {
    let field: Vec<u64> = vec![1000 * ONE; 6];
    let ranges = GrainRanges::standard();
    let emulsion = Emulsion::generate(3, 2, &field, Strategy::PerPixelGrid(2), &ranges, 1000 * ONE);
    assert_eq!(emulsion.grains.len(), 6);
    for (i, g) in emulsion.grains.iter().enumerate() {
        assert_eq!((g.x, g.y), (i % 3, i / 3));
        assert_eq!(g.silver_count, 20);
    }
}

#[test]
fn generate_without_grains() {
    let field: Vec<u64> = vec![ONE; 6];
    let ranges = GrainRanges::standard();
    let emulsion = Emulsion::generate(3, 2, &field, Strategy::RandomScatter(0), &ranges, ONE);
    assert!(emulsion.grains.is_empty());
}

#[test]
fn empty_emulsion_renders_white() {
    let canvas = Emulsion::from(vec![]).render_emulsion(5, 4);
    assert!(is_blank(&canvas, 5, 4));
}

#[test]
fn undeveloped_grains_render_white() {
    let grains: Vec<Halide> = (0..20).map(|i| grain_at(i % 5, i / 5, 0)).collect();
    let canvas = Emulsion::from(grains).render_emulsion(5, 4);
    assert!(is_blank(&canvas, 5, 4));
}

#[test]
fn developed_grain_darkens_its_pixel_only() {
    let canvas = Emulsion::from(vec![grain_at(3, 1, 100_000_000)]).render_emulsion(5, 4);
    for y in 0..4 {
        for x in 0..5 {
            let expected = if (x, y) == (3, 1) { (190, 190, 190, 255) } else { WHITE };
            assert_eq!(canvas.pixel(x, y), Some(expected));
        }
    }
}

#[test]
fn fully_dense_grain_is_black() {
    let canvas = Emulsion::from(vec![grain_at(0, 0, 1000 * ONE)]).render_emulsion(1, 1);
    assert_eq!(canvas.pixel(0, 0), Some((0, 0, 0, 255)));
}

#[test]
fn grains_off_the_canvas_are_skipped() {
    let grains = vec![
        grain_at(5, 0, ONE),
        grain_at(0, 4, ONE),
        grain_at(usize::MAX, usize::MAX, ONE),
        grain_at(1 << 32, 0, ONE),
    ];
    let canvas = Emulsion::from(grains).render_emulsion(5, 4);
    assert!(is_blank(&canvas, 5, 4));
}

#[test]
fn last_grain_on_a_pixel_shows() {
    let grains = vec![grain_at(2, 2, 1000 * ONE), grain_at(2, 2, 100_000_000)];
    let canvas = Emulsion::from(grains).render_emulsion(3, 3);
    assert_eq!(canvas.pixel(2, 2), Some((190, 190, 190, 255)));
    let grains = vec![grain_at(2, 2, 100_000_000), grain_at(2, 2, 0)];
    let canvas = Emulsion::from(grains).render_emulsion(3, 3);
    assert_eq!(canvas.pixel(2, 2), Some(WHITE));
}

#[test]
fn rendering_with_another_curve() {
    let curve = DensityCurveParams { d_min: ONE, d_max: 2 * ONE, gamma: ONE, e0: ONE };
    // relative exposure 10: density 1 + log10(10) = 2, the darkest
    let canvas = Emulsion::from(vec![grain_at(0, 0, 9 * ONE)]).render_with(2, 1, &curve);
    assert_eq!(canvas.pixel(0, 0), Some((0, 0, 0, 255)));
    assert_eq!(canvas.pixel(1, 0), Some(WHITE));
    // relative exposure 2: density 1.30103, shade 255 * 0.69897 = 178.2
    let canvas = Emulsion::from(vec![grain_at(0, 0, ONE)]).render_with(2, 1, &curve);
    assert_eq!(canvas.pixel(0, 0), Some((178, 178, 178, 255)));
}

#[test]
fn pixel_outside_the_canvas_is_none() {
    let canvas = Emulsion::from(vec![]).render_emulsion(5, 4);
    assert_eq!(canvas.pixel(5, 0), None);
    assert_eq!(canvas.pixel(0, 4), None);
    assert_eq!(canvas.pixel(4, 3), Some(WHITE));
}

#[test]
fn canvas_bytes_are_row_major_rgba() {
    let canvas = Emulsion::from(vec![grain_at(1, 0, 100_000_000), grain_at(0, 1, 1000 * ONE)])
        .render_emulsion(2, 2);
    assert_eq!(
        canvas.to_rgba_bytes(),
        vec![255, 255, 255, 255, 190, 190, 190, 255, 0, 0, 0, 255, 255, 255, 255, 255]
    );
}

#[test]
fn canvas_bytes_make_an_image() {
    let canvas = Emulsion::from(vec![grain_at(1, 0, 100_000_000)]).render_emulsion(3, 2);
    let image = image::RgbaImage::from_raw(3, 2, canvas.to_rgba_bytes()).unwrap();
    assert_eq!(image.get_pixel(1, 0).0, [190, 190, 190, 255]);
    assert_eq!(image.get_pixel(0, 0).0, [255, 255, 255, 255]);
    assert_eq!(image.get_pixel(2, 1).0, [255, 255, 255, 255]);
}
