use filmgrain::fixed::ONE;
use filmgrain::halation::{convolve_2d, convolve_at, scale, simulate_halation_2d};
use filmgrain::kernel::make_gaussian_kernel_2d;

#[test]
fn point_kernel_changes_nothing() {
    let input: Vec<u64> = (0..12u64).map(|i| i * 100_000_000).collect();
    let kernel: Vec<u64> = vec![0, 0, 0, 0, ONE, 0, 0, 0, 0];
    assert_eq!(convolve_2d(4, 3, &input, &kernel, 3), input);
}

#[test]
fn single_entry_kernel_scales() {
    let input: Vec<u64> = vec![ONE, 2 * ONE, 3, 0];
    let kernel: Vec<u64> = vec![500_000_000];
    assert_eq!(convolve_2d(2, 2, &input, &kernel, 1), vec![500_000_000, ONE, 1, 0]);
}

#[test]
fn box_kernel_on_a_small_field() {
    // every weight a ninth, rounded down, the centre making up for it
    let ninth = ONE / 9;
    let mut kernel: Vec<u64> = vec![ninth; 9];
    kernel[4] = ONE - 8 * ninth;
    let input: Vec<u64> = vec![ONE; 9];
    let out = convolve_2d(3, 3, &input, &kernel, 3);
    // the centre sees all nine samples
    assert_eq!(out[4], ONE);
    // a corner sees the centre weight and three others
    assert_eq!(out[0], kernel[4] + 3 * ninth);
    // an edge sees the centre weight and five others
    assert_eq!(out[1], kernel[4] + 5 * ninth);
}

#[test]
fn shifting_kernel_looks_to_the_right_places() {
    // all weight on the entry left of the centre: each pixel takes its left neighbour
    let kernel: Vec<u64> = vec![0, 0, 0, ONE, 0, 0, 0, 0, 0];
    let input: Vec<u64> = vec![1, 2, 3, 4, 5, 6];
    assert_eq!(convolve_2d(3, 2, &input, &kernel, 3), vec![0, 1, 2, 0, 4, 5]);
    // all weight on the entry below the centre
    let kernel: Vec<u64> = vec![0, 0, 0, 0, 0, 0, 0, ONE, 0];
    assert_eq!(convolve_2d(3, 2, &input, &kernel, 3), vec![4, 5, 6, 0, 0, 0]);
}

#[test]
fn products_are_summed_before_rounding() {
    // three products of 0.4 billionths each: 1.2 billionths, rounded down once
    let kernel: Vec<u64> = vec![0, 0, 0, 400_000_000, 400_000_000, 400_000_000, 0, 0, 0];
    let input: Vec<u64> = vec![1, 1, 1];
    assert_eq!(convolve_2d(3, 1, &input, &kernel, 3), vec![0, 1, 0]);
}

#[test]
fn uniform_field_is_kept_inside() {
    for sigma in [500_000_000u64, ONE, 1_500_000_000] {
        let (kernel, size) = make_gaussian_kernel_2d(sigma);
        let half = size / 2;
        let (width, height) = (size + 3, size + 2);
        let value: u64 = 734_000_123;
        let input: Vec<u64> = vec![value; width * height];
        let out = convolve_2d(width, height, &input, &kernel, size);
        for y in 0..height {
            for x in 0..width {
                let inside = x >= half && x + half < width && y >= half && y + half < height;
                if inside {
                    assert_eq!(out[y * width + x], value);
                } else {
                    assert!(out[y * width + x] < value);
                }
            }
        }
    }
}

#[test]
fn convolve_at_agrees_with_convolve_2d() {
    let (kernel, size) = make_gaussian_kernel_2d(ONE);
    let (width, height) = (5usize, 4usize);
    let input: Vec<u64> = (0..20u64).map(|i| (i * 37 % 11) * 90_000_000).collect();
    let out = convolve_2d(width, height, &input, &kernel, size);
    for y in 0..height {
        for x in 0..width {
            assert_eq!(convolve_at(width, height, &input, &kernel, size, x, y), out[y * width + x]);
        }
    }
}

#[test]
fn convolution_saturates() {
    let kernel: Vec<u64> = vec![u64::MAX];
    let input: Vec<u64> = vec![u64::MAX, 1];
    assert_eq!(convolve_2d(2, 1, &input, &kernel, 1), vec![u64::MAX, u64::MAX / ONE]);
}

#[test]
fn scale_multiplies_every_sample() {
    assert_eq!(scale(&vec![ONE, 3, 0, 2 * ONE], 600_000_000), vec![600_000_000, 1, 0, 1_200_000_000]);
}

#[test]
fn halation_only_adds_light() {
    let (width, height) = (9usize, 7usize);
    let input: Vec<u64> = (0..63u64).map(|i| (i * 53 % 17) * 58_000_000).collect();
    let out = simulate_halation_2d(width, height, &input, 600_000_000, ONE, 1_500_000_000);
    assert_eq!(out.len(), input.len());
    for i in 0..input.len() {
        assert!(out[i] >= input[i]);
    }
    assert!(out.iter().zip(input.iter()).any(|(o, i)| o > i));
}

#[test]
fn halation_without_reflection_changes_nothing() {
    let input: Vec<u64> = (0..20u64).map(|i| i * 50_000_000).collect();
    assert_eq!(simulate_halation_2d(5, 4, &input, 0, ONE, ONE), input);
}

#[test]
fn halation_is_two_blurs_and_a_sum() {
    let (width, height) = (6usize, 5usize);
    let input: Vec<u64> = (0..30u64).map(|i| (i * 29 % 13) * 70_000_000).collect();
    let (down, down_size) = make_gaussian_kernel_2d(ONE);
    let (up, up_size) = make_gaussian_kernel_2d(500_000_000);
    let transmitted = convolve_2d(width, height, &input, &down, down_size);
    let reflected = scale(&transmitted, 600_000_000);
    let upward = convolve_2d(width, height, &reflected, &up, up_size);
    let out = simulate_halation_2d(width, height, &input, 600_000_000, ONE, 500_000_000);
    for i in 0..input.len() {
        assert_eq!(out[i], input[i] + upward[i]);
    }
}

#[test]
fn halation_of_a_uniform_field_inside() {
    // with full reflection the light comes back once more: twice the input
    let (width, height) = (15usize, 15usize);
    let input: Vec<u64> = vec![400_000_000; width * height];
    let out = simulate_halation_2d(width, height, &input, ONE, 500_000_000, 500_000_000);
    assert_eq!(out[7 * width + 7], 800_000_000);
    assert!(out[0] < 800_000_000);
}

#[test]
fn halation_of_a_point_spreads() {
    let (width, height) = (7usize, 7usize);
    let mut input: Vec<u64> = vec![0; 49];
    input[24] = ONE;
    let out = simulate_halation_2d(width, height, &input, 600_000_000, ONE, ONE);
    assert!(out[24] > ONE);
    assert!(out[23] > 0);
    assert!(out[23] < out[24] - ONE);
    assert_eq!(out[23], out[25]);
    assert_eq!(out[17], out[31]);
}
