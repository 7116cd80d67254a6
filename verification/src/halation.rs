//! Halation: light that passes through the emulsion, scatters, reflects off
//! the film base and scatters again on its way back up.
//!
//! An exposure field is a row-major `width * height` buffer of fixed-point
//! intensities. A kernel is a row-major `k_size * k_size` buffer of
//! fixed-point weights.
use crate::fixed::{product, product_of, saturated, sum, sum_of, ONE};
use crate::grid::lemma_row_major;
use crate::kernel::{gaussian_kernel, kernel_size, make_gaussian_kernel_2d, total, MAX_SIGMA};
use vstd::arithmetic::div_mod::lemma_div_is_ordered;
use vstd::prelude::*;

verus! {

/// What kernel entry `j` adds to the output pixel `(x, y)`: the weight times
/// the input sample it lies over, or nothing where it hangs off the canvas.
pub open spec fn tap(
    width: int,
    height: int,
    input: Seq<u64>,
    kernel: Seq<u64>,
    k_size: int,
    x: int,
    y: int,
    j: int,
) -> int {
    let nx = x + j % k_size - k_size / 2;
    let ny = y + j / k_size - k_size / 2;
    if 0 <= nx < width && 0 <= ny < height {
        input[ny * width + nx] * kernel[j]
    } else {
        0
    }
}

/// The sum of the first `n` taps at pixel `(x, y)`.
pub open spec fn taps_sum(
    width: int,
    height: int,
    input: Seq<u64>,
    kernel: Seq<u64>,
    k_size: int,
    x: int,
    y: int,
    n: int,
) -> int
    decreases n,
{
    if n <= 0 {
        0
    } else {
        taps_sum(width, height, input, kernel, k_size, x, y, n - 1) + tap(
            width,
            height,
            input,
            kernel,
            k_size,
            x,
            y,
            n - 1,
        )
    }
}

/// The convolved intensity at pixel `(x, y)`: all taps summed exactly, then
/// brought back to the fixed-point scale once.
pub open spec fn convolved_at(
    width: int,
    height: int,
    input: Seq<u64>,
    kernel: Seq<u64>,
    k_size: int,
    x: int,
    y: int,
) -> int {
    saturated(taps_sum(width, height, input, kernel, k_size, x, y, k_size * k_size) / (ONE as int))
}

/// The field that convolution with `kernel` makes of `input`.
pub open spec fn convolved(
    width: int,
    height: int,
    input: Seq<u64>,
    kernel: Seq<u64>,
    k_size: int,
) -> Seq<u64> {
    Seq::new(
        (width * height) as nat,
        |i: int| convolved_at(width, height, input, kernel, k_size, i % width, i / width) as u64,
    )
}

/// No tap is negative, so the running sum never shrinks.
pub proof fn lemma_taps_sum_nonnegative(
    width: int,
    height: int,
    input: Seq<u64>,
    kernel: Seq<u64>,
    k_size: int,
    x: int,
    y: int,
    n: int,
)
    ensures
        0 <= taps_sum(width, height, input, kernel, k_size, x, y, n),
        0 <= tap(width, height, input, kernel, k_size, x, y, n),
    decreases n,
{
    let nx = x + n % k_size - k_size / 2;
    let ny = y + n / k_size - k_size / 2;
    assert(0 <= input[ny * width + nx] * kernel[n]) by (nonlinear_arith)
        requires
            0 <= input[ny * width + nx],
            0 <= kernel[n],
    ;
    if n > 0 {
        lemma_taps_sum_nonnegative(width, height, input, kernel, k_size, x, y, n - 1);
    }
}

/// Convolves a `width * height` field with a `k_size * k_size` kernel that is
/// centred on each pixel in turn. Samples that a kernel entry would take from
/// outside the canvas are left out: nothing wraps around and nothing is
/// mirrored, so pixels near an edge lose a little energy.
pub fn convolve_2d(
    width: usize,
    height: usize,
    input: &[u64],
    kernel: &[u64],
    k_size: usize,
) -> (output: Vec<u64>)
    requires
        width > 0,
        height > 0,
        input@.len() == width * height,
        kernel@.len() == k_size * k_size,
    ensures
        output@ == convolved(width as int, height as int, input@, kernel@, k_size as int),
{
    let mut output: Vec<u64> = Vec::new();
    let mut y: usize = 0;
    while y < height
        invariant
            y <= height,
            input@.len() == width * height,
            kernel@.len() == k_size * k_size,
            output@.len() == y * width,
            forall|i: int|
                0 <= i < output@.len() ==> output@[i] == #[trigger] convolved_at(
                    width as int,
                    height as int,
                    input@,
                    kernel@,
                    k_size as int,
                    i % (width as int),
                    i / (width as int),
                ),
        decreases height - y,
    {
        let mut x: usize = 0;
        while x < width
            invariant
                x <= width,
                y < height,
                    input@.len() == width * height,
                kernel@.len() == k_size * k_size,
                output@.len() == y * width + x,
                forall|i: int|
                    0 <= i < output@.len() ==> output@[i] == #[trigger] convolved_at(
                        width as int,
                        height as int,
                        input@,
                        kernel@,
                        k_size as int,
                        i % (width as int),
                        i / (width as int),
                    ),
            decreases width - x,
        {
            let value: u64 = convolve_at(width, height, input, kernel, k_size, x, y);
            proof {
                lemma_row_major(y as int, x as int, width as int, height as int);
            }
            output.push(value);
            x += 1;
        }
        proof {
            assert(y * width + width == (y + 1) * width) by (nonlinear_arith);
        }
        y += 1;
    }
    proof {
        assert(height * width == width * height) by (nonlinear_arith);
        assert(y == height);
        assert(output@ =~= convolved(width as int, height as int, input@, kernel@, k_size as int));
    }
    output
}

/// The convolved intensity at one pixel.
pub fn convolve_at(
    width: usize,
    height: usize,
    input: &[u64],
    kernel: &[u64],
    k_size: usize,
    x: usize,
    y: usize,
) -> (value: u64)
    requires
        input@.len() == width * height,
        kernel@.len() == k_size * k_size,
        x < width,
        y < height,
    ensures
        value == convolved_at(width as int, height as int, input@, kernel@, k_size as int, x as int, y as int),
{
    let half: usize = k_size / 2;
    let taps: usize = kernel.len();
    let samples: usize = input.len();
    let mut acc: u128 = 0;
    let mut ky: usize = 0;
    while ky < k_size
        invariant
            ky <= k_size,
            taps == k_size * k_size,
            samples == width * height,
            half == k_size / 2,
            input@.len() == width * height,
            kernel@.len() == k_size * k_size,
            x < width,
            y < height,
            ky * k_size <= k_size * k_size,
            acc == wide_saturated(
                taps_sum(
                    width as int,
                    height as int,
                    input@,
                    kernel@,
                    k_size as int,
                    x as int,
                    y as int,
                    ky * k_size,
                ),
            ),
        decreases k_size - ky,
    {
        let mut kx: usize = 0;
        while kx < k_size
            invariant
                kx <= k_size,
                ky < k_size,
                taps == k_size * k_size,
                samples == width * height,
                half == k_size / 2,
                input@.len() == width * height,
                kernel@.len() == k_size * k_size,
                x < width,
                y < height,
                ky * k_size + kx <= k_size * k_size,
                acc == wide_saturated(
                    taps_sum(
                        width as int,
                        height as int,
                        input@,
                        kernel@,
                        k_size as int,
                        x as int,
                        y as int,
                        ky * k_size + kx,
                    ),
                ),
            decreases k_size - kx,
        {
            proof {
                lemma_row_major(ky as int, kx as int, k_size as int, k_size as int);
                lemma_taps_sum_nonnegative(
                    width as int,
                    height as int,
                    input@,
                    kernel@,
                    k_size as int,
                    x as int,
                    y as int,
                    ky * k_size + kx,
                );
            }
            let j: usize = ky * k_size + kx;
            let column: Option<usize> = shifted(x, kx, half, width);
            let row: Option<usize> = shifted(y, ky, half, height);
            let mut term: u128 = 0;
            if let (Some(nx), Some(ny)) = (column, row) {
                proof {
                    lemma_row_major(ny as int, nx as int, width as int, height as int);
                }
                let sample: u64 = input[ny * width + nx];
                let weight: u64 = kernel[j];
                assert(sample * weight <= u64::MAX * u64::MAX) by (nonlinear_arith);
                term = (sample as u128) * (weight as u128);
            }
            assert(term == tap(
                width as int,
                height as int,
                input@,
                kernel@,
                k_size as int,
                x as int,
                y as int,
                j as int,
            ));
            acc = acc.saturating_add(term);
            kx += 1;
        }
        proof {
            assert(ky * k_size + k_size == (ky + 1) * k_size) by (nonlinear_arith);
            assert((ky + 1) * k_size <= k_size * k_size) by (nonlinear_arith)
                requires
                    ky < k_size,
            ;
        }
        ky += 1;
    }
    let scaled: u128 = acc / (ONE as u128);
    proof {
        let total = taps_sum(
            width as int,
            height as int,
            input@,
            kernel@,
            k_size as int,
            x as int,
            y as int,
            k_size * k_size,
        );
        lemma_taps_sum_nonnegative(
            width as int,
            height as int,
            input@,
            kernel@,
            k_size as int,
            x as int,
            y as int,
            k_size * k_size,
        );
        if total > u128::MAX {
            lemma_div_is_ordered(u128::MAX as int, total, ONE as int);
        }
    }
    if scaled > u64::MAX as u128 {
        u64::MAX
    } else {
        scaled as u64
    }
}

/// `v`, or the largest 128-bit value where `v` lies above it.
pub open spec fn wide_saturated(v: int) -> int {
    if v > u128::MAX {
        u128::MAX as int
    } else {
        v
    }
}

/// The coordinate that kernel offset `k` reaches from `at`, for a kernel
/// whose centre has offset `half`, where it lies inside `0..extent`.
fn shifted(at: usize, k: usize, half: usize, extent: usize) -> (to: Option<usize>)
    requires
        at < extent,
    ensures
        to matches Some(n) ==> n == at + k - half && n < extent,
        to is None ==> !(0 <= at + k - half < extent),
{
    if k >= half {
        let forward: usize = k - half;
        if forward < extent - at {
            Some(at + forward)
        } else {
            None
        }
    } else {
        let back: usize = half - k;
        if back <= at {
            Some(at - back)
        } else {
            None
        }
    }
}

/// The field with every intensity multiplied by `factor`.
pub open spec fn scaled(field: Seq<u64>, factor: int) -> Seq<u64> {
    Seq::new(field.len(), |i: int| product_of(field[i] as int, factor) as u64)
}

/// The sum of two fields, pixel by pixel.
pub open spec fn added(field: Seq<u64>, other: Seq<u64>) -> Seq<u64> {
    Seq::new(field.len(), |i: int| sum_of(field[i] as int, other[i] as int) as u64)
}

/// The exposure that reaches the emulsion when halation is taken into
/// account: the light itself, and what comes back of it after it has
/// scattered on the way down, lost all but `reflection_factor` of itself at
/// the film base, and scattered again on the way up.
pub open spec fn halated(
    width: int,
    height: int,
    input: Seq<u64>,
    reflection_factor: int,
    sigma_down: int,
    sigma_up: int,
) -> Seq<u64> {
    let transmitted = convolved(
        width,
        height,
        input,
        gaussian_kernel(sigma_down),
        kernel_size(sigma_down),
    );
    let reflected = scaled(transmitted, reflection_factor);
    let upward = convolved(width, height, reflected, gaussian_kernel(sigma_up), kernel_size(sigma_up));
    added(input, upward)
}

/// Simulates halation in two passes. The input is blurred with a Gaussian of
/// `sigma_down`, the blurred field is multiplied by `reflection_factor`, the
/// product is blurred with a Gaussian of `sigma_up`, and the result is added
/// to the input. Nothing is clamped, and no pixel ends up darker than it was.
pub fn simulate_halation_2d(
    width: usize,
    height: usize,
    input_exposure: &[u64],
    reflection_factor: u64,
    sigma_down: u64,
    sigma_up: u64,
) -> (final_exposure: Vec<u64>)
    requires
        width > 0,
        height > 0,
        input_exposure@.len() == width * height,
        0 < sigma_down <= MAX_SIGMA,
        0 < sigma_up <= MAX_SIGMA,
    ensures
        final_exposure@ == halated(
            width as int,
            height as int,
            input_exposure@,
            reflection_factor as int,
            sigma_down as int,
            sigma_up as int,
        ),
        final_exposure@.len() == input_exposure@.len(),
        forall|i: int|
            0 <= i < input_exposure@.len() ==> final_exposure@[i] >= input_exposure@[i],
{
    let (kernel_down, kd_size) = make_gaussian_kernel_2d(sigma_down);
    let (kernel_up, ku_size) = make_gaussian_kernel_2d(sigma_up);
    let transmitted: Vec<u64> = convolve_2d(
        width,
        height,
        input_exposure,
        kernel_down.as_slice(),
        kd_size,
    );
    let reflected: Vec<u64> = scale(&transmitted, reflection_factor);
    let upward: Vec<u64> = convolve_2d(width, height, reflected.as_slice(), kernel_up.as_slice(), ku_size);
    let n: usize = input_exposure.len();
    let mut final_exposure: Vec<u64> = Vec::new();
    let mut i: usize = 0;
    while i < n
        invariant
            i <= n,
            n == input_exposure@.len(),
            n == upward@.len(),
            final_exposure@.len() == i,
            forall|j: int|
                0 <= j < i ==> final_exposure@[j] == sum_of(
                    input_exposure@[j] as int,
                    upward@[j] as int,
                ),
        decreases n - i,
    {
        final_exposure.push(sum(input_exposure[i], upward[i]));
        i += 1;
    }
    proof {
        assert(final_exposure@ =~= added(input_exposure@, upward@));
    }
    final_exposure
}

/// Every intensity of the field multiplied by `factor`.
pub fn scale(field: &Vec<u64>, factor: u64) -> (out: Vec<u64>)
    ensures
        out@ == scaled(field@, factor as int),
{
    let n: usize = field.len();
    let mut out: Vec<u64> = Vec::new();
    let mut i: usize = 0;
    while i < n
        invariant
            i <= n,
            n == field@.len(),
            out@.len() == i,
            forall|j: int| 0 <= j < i ==> out@[j] == product_of(field@[j] as int, factor as int),
        decreases n - i,
    {
        out.push(product(field[i], factor));
        i += 1;
    }
    proof {
        assert(out@ =~= scaled(field@, factor as int));
    }
    out
}

/// Whether the whole kernel lies over the canvas when it is centred on
/// pixel `(x, y)`.
pub open spec fn is_interior(width: int, height: int, k_size: int, x: int, y: int) -> bool {
    &&& k_size / 2 <= x
    &&& x + k_size - 1 - k_size / 2 < width
    &&& k_size / 2 <= y
    &&& y + k_size - 1 - k_size / 2 < height
}

/// Convolving a field that has the same value everywhere with a kernel
/// whose weights sum to one gives back that value at every pixel on which
/// the whole kernel lies over the canvas.
pub proof fn lemma_uniform_field_is_kept(
    width: int,
    height: int,
    input: Seq<u64>,
    kernel: Seq<u64>,
    k_size: int,
    value: u64,
    x: int,
    y: int,
)
    requires
        k_size > 0,
        kernel.len() == k_size * k_size,
        input.len() == width * height,
        total(kernel) == ONE,
        forall|i: int| 0 <= i < input.len() ==> input[i] == value,
        is_interior(width, height, k_size, x, y),
    ensures
        convolved_at(width, height, input, kernel, k_size, x, y) == value,
{
    lemma_uniform_taps(width, height, input, kernel, k_size, value, x, y, k_size * k_size);
    assert(kernel.take(k_size * k_size) =~= kernel);
    vstd::arithmetic::div_mod::lemma_div_multiples_vanish(value as int, ONE as int);
}

/// Over a uniform field the first `n` taps of an interior pixel sum to the
/// value times the first `n` weights.
proof fn lemma_uniform_taps(
    width: int,
    height: int,
    input: Seq<u64>,
    kernel: Seq<u64>,
    k_size: int,
    value: u64,
    x: int,
    y: int,
    n: int,
)
    requires
        k_size > 0,
        kernel.len() == k_size * k_size,
        input.len() == width * height,
        forall|i: int| 0 <= i < input.len() ==> input[i] == value,
        is_interior(width, height, k_size, x, y),
        0 <= n <= k_size * k_size,
    ensures
        taps_sum(width, height, input, kernel, k_size, x, y, n) == value * total(kernel.take(n)),
    decreases n,
{
    if n == 0 {
        assert(kernel.take(0) =~= Seq::<u64>::empty());
    } else {
        let j = n - 1;
        lemma_uniform_taps(width, height, input, kernel, k_size, value, x, y, j);
        assert(kernel.take(n).drop_last() =~= kernel.take(j));
        let kx = j % k_size;
        let ky = j / k_size;
        vstd::arithmetic::div_mod::lemma_fundamental_div_mod(j, k_size);
        vstd::arithmetic::div_mod::lemma_div_pos_is_pos(j, k_size);
        assert(ky < k_size) by (nonlinear_arith)
            requires
                j < k_size * k_size,
                j == k_size * ky + kx,
                0 <= kx,
                k_size > 0,
        ;
        let nx = x + kx - k_size / 2;
        let ny = y + ky - k_size / 2;
        lemma_row_major(ny, nx, width, height);
        assert(input[ny * width + nx] == value);
        let before = total(kernel.take(j));
        assert(value * before + value * kernel[j] == value * (before + kernel[j]))
            by (nonlinear_arith);
    }
}

} // verus!
