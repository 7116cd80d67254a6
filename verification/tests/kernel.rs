use filmgrain::fixed::ONE;
use filmgrain::kernel::{gaussian, make_gaussian_kernel_2d, side, MAX_SIGMA};

fn as_real(raw: u64) -> f64 {
    raw as f64 / ONE as f64
}

fn sigmas() -> Vec<u64> {
    vec![1, 100_000_000, 333_333_334, 500_000_000, ONE, 1_500_000_000, 3 * ONE, 5 * ONE]
}

#[test]
fn side_is_twice_the_radius_and_one() {
    assert_eq!(side(ONE), 7);
    assert_eq!(side(3 * ONE), 19);
    assert_eq!(side(5 * ONE), 31);
    assert_eq!(side(500_000_000), 5);
    assert_eq!(side(1_100_000_000), 9);
}

#[test]
fn side_is_at_least_three() {
    assert_eq!(side(1), 3);
    assert_eq!(side(333_333_333), 3);
    assert_eq!(side(333_333_334), 5);
}

#[test]
fn side_of_the_widest_blur() {
    assert_eq!(side(MAX_SIGMA), 6001);
}

#[test]
fn gaussian_at_the_centre_is_one() {
    for sigma in sigmas() {
        assert_eq!(gaussian(sigma, 0), ONE);
    }
}

#[test]
fn gaussian_one_sigma_out() {
    // e^(-1/2)
    let w = as_real(gaussian(ONE, 1));
    assert!((w - 0.60653066).abs() < 1e-4);
    let w = as_real(gaussian(2 * ONE, 4));
    assert!((w - 0.60653066).abs() < 1e-4);
}

#[test]
fn kernel_sums_to_one() {
    for sigma in sigmas() {
        let (kernel, size) = make_gaussian_kernel_2d(sigma);
        assert_eq!(kernel.len(), size * size);
        let total: u128 = kernel.iter().map(|&w| w as u128).sum();
        assert_eq!(total, ONE as u128);
    }
}

#[test]
fn kernel_has_the_side_of_its_sigma() {
    for sigma in sigmas() {
        let (_, size) = make_gaussian_kernel_2d(sigma);
        assert_eq!(size, side(sigma));
    }
}

#[test]
fn kernel_is_symmetric() {
    let (kernel, size) = make_gaussian_kernel_2d(1_500_000_000);
    for y in 0..size {
        for x in 0..size {
            let w = kernel[y * size + x];
            assert_eq!(w, kernel[x * size + y]);
            assert_eq!(w, kernel[(size - 1 - y) * size + x]);
            assert_eq!(w, kernel[y * size + (size - 1 - x)]);
        }
    }
}

#[test]
fn kernel_peaks_at_its_centre() {
    for sigma in sigmas() {
        let (kernel, size) = make_gaussian_kernel_2d(sigma);
        let centre = kernel[(size / 2) * size + size / 2];
        assert!(kernel.iter().all(|&w| w <= centre));
    }
}

#[test]
fn kernel_is_close_to_the_gaussian() {
    for sigma in [500_000_000u64, ONE, 3 * ONE, 5 * ONE] {
        let (kernel, size) = make_gaussian_kernel_2d(sigma);
        let s = as_real(sigma);
        let half = (size / 2) as f64;
        let mut exact = vec![0f64; size * size];
        let mut sum = 0f64;
        for y in 0..size {
            for x in 0..size {
                let dx = x as f64 - half;
                let dy = y as f64 - half;
                let v = (-(dx * dx + dy * dy) / (2.0 * s * s)).exp();
                exact[y * size + x] = v;
                sum += v;
            }
        }
        for j in 0..size * size {
            assert!((as_real(kernel[j]) - exact[j] / sum).abs() < 1e-4);
        }
    }
}

#[test]
fn narrow_kernel_is_a_point() {
    let (kernel, size) = make_gaussian_kernel_2d(1);
    assert_eq!(size, 3);
    assert_eq!(kernel, vec![0, 0, 0, 0, ONE, 0, 0, 0, 0]);
}

#[test]
fn gaussian_never_rises_with_distance() {
    for sigma in sigmas() {
        let mut last = gaussian(sigma, 0);
        for r2 in 1..400u64 {
            let now = gaussian(sigma, r2);
            assert!(now <= last);
            last = now;
        }
    }
}
