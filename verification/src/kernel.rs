//! Gaussian blur kernels.
//!
//! A kernel is a square, row-major buffer of fixed-point weights with an odd
//! side, centred on its middle entry.
use crate::exponent::{exp_neg, exp_neg_of, lemma_exp_neg_bounds};
use crate::fixed::ONE;
use crate::grid::lemma_row_major;
use vstd::arithmetic::div_mod::{lemma_div_is_ordered, lemma_div_pos_is_pos, lemma_fundamental_div_mod};
use vstd::prelude::*;

verus! {

/// The widest blur that a kernel is built for: a thousand pixels. Its kernel
/// has 6001 entries a side.
pub const MAX_SIGMA: u64 = 1_000_000_000_000;

/// How many pixels a kernel reaches from its centre: three standard
/// deviations, rounded up to whole pixels.
pub open spec fn kernel_radius(sigma: int) -> int {
    (3 * sigma + ONE - 1) / (ONE as int)
}

/// The side of the kernel for `sigma`: the centre and the radius to either
/// side of it, and never less than three.
pub open spec fn kernel_size(sigma: int) -> int {
    if kernel_radius(sigma) < 1 {
        3
    } else {
        2 * kernel_radius(sigma) + 1
    }
}

/// The squared distance, in pixels, of entry `j` from the centre of a kernel
/// of side `size`.
pub open spec fn squared_distance(size: int, j: int) -> int {
    let dx = j % size - size / 2;
    let dy = j / size - size / 2;
    dx * dx + dy * dy
}

/// The Gaussian `e^(-r2 / (2 sigma^2))` at squared distance `r2`.
pub open spec fn gaussian_weight(sigma: int, r2: int) -> int {
    exp_neg_of(r2 * ONE * ONE * ONE / (2 * sigma * sigma))
}

/// The sum of all weights.
pub open spec fn total(weights: Seq<u64>) -> int
    decreases weights.len(),
{
    if weights.len() == 0 {
        0
    } else {
        total(weights.drop_last()) + weights.last()
    }
}

/// The Gaussian at every entry of the kernel for `sigma`, before it is
/// normalized.
pub open spec fn unscaled_kernel(sigma: int) -> Seq<u64> {
    let size = kernel_size(sigma);
    Seq::new(
        (size * size) as nat,
        |j: int| gaussian_weight(sigma, squared_distance(size, j)) as u64,
    )
}

/// Each weight as its share of the total, rounded down.
pub open spec fn shares(weights: Seq<u64>) -> Seq<u64> {
    Seq::new(weights.len(), |j: int| (weights[j] * ONE / total(weights)) as u64)
}

/// The weights normalized: every weight is its share of the total, rounded
/// down, and the middle entry takes up what the rounding has lost, so that
/// the weights sum to exactly one.
pub open spec fn normalized(weights: Seq<u64>) -> Seq<u64> {
    let parts = shares(weights);
    let centre = parts.len() / 2;
    parts.update(centre as int, (parts[centre as int] + ONE - total(parts)) as u64)
}

/// The normalized Gaussian kernel for `sigma`.
pub open spec fn gaussian_kernel(sigma: int) -> Seq<u64> {
    normalized(unscaled_kernel(sigma))
}

/// Adding a weight at the end adds it to the total.
pub proof fn lemma_total_push(weights: Seq<u64>, weight: u64)
    ensures
        total(weights.push(weight)) == total(weights) + weight,
{
    assert(weights.push(weight).drop_last() =~= weights);
}

/// The total is at least any one weight, and the total of any leading part.
pub proof fn lemma_total_bounds(weights: Seq<u64>, n: int)
    requires
        0 <= n <= weights.len(),
    ensures
        0 <= total(weights.take(n)) <= total(weights),
        n < weights.len() ==> weights[n] <= total(weights),
    decreases weights.len() - n,
{
    if n == weights.len() {
        assert(weights.take(n) =~= weights);
        lemma_total_nonnegative(weights);
    } else {
        lemma_total_bounds(weights, n + 1);
        assert(weights.take(n + 1).drop_last() =~= weights.take(n));
        lemma_total_nonnegative(weights.take(n));
    }
}

proof fn lemma_total_nonnegative(weights: Seq<u64>)
    ensures
        0 <= total(weights),
    decreases weights.len(),
{
    if weights.len() > 0 {
        lemma_total_nonnegative(weights.drop_last());
    }
}

/// Changing one weight changes the total by as much.
pub proof fn lemma_total_update(weights: Seq<u64>, i: int, weight: u64)
    requires
        0 <= i < weights.len(),
    ensures
        total(weights.update(i, weight)) == total(weights) - weights[i] + weight,
    decreases weights.len(),
{
    let last = weights.len() - 1;
    if i == last {
        assert(weights.update(i, weight).drop_last() =~= weights.drop_last());
    } else {
        lemma_total_update(weights.drop_last(), i, weight);
        assert(weights.update(i, weight).drop_last() =~= weights.drop_last().update(i, weight));
    }
}

/// Shares that are rounded down sum to one at most.
pub proof fn lemma_shares_total(weights: Seq<u64>, n: int)
    requires
        0 <= n <= weights.len(),
        total(weights) > 0,
    ensures
        total(shares(weights).take(n)) * total(weights) <= total(weights.take(n)) * ONE,
        n == weights.len() ==> total(shares(weights)) <= ONE,
    decreases n,
{
    let sum = total(weights);
    let parts = shares(weights);
    if n > 0 {
        lemma_shares_total(weights, n - 1);
        assert(parts.take(n).drop_last() =~= parts.take(n - 1));
        assert(weights.take(n).drop_last() =~= weights.take(n - 1));
        let w = weights[n - 1] as int;
        lemma_fundamental_div_mod(w * ONE, sum);
        let before = total(parts.take(n - 1));
        let share = w * ONE / sum;
        lemma_div_pos_is_pos(w * ONE, sum);
        lemma_total_bounds(weights, n - 1);
        assert(w * ONE <= sum * ONE) by (nonlinear_arith)
            requires
                0 <= w <= sum,
        ;
        lemma_div_is_ordered(w * ONE, sum * ONE, sum);
        assert(sum * ONE == ONE * sum) by (nonlinear_arith);
        vstd::arithmetic::div_mod::lemma_div_multiples_vanish(ONE as int, sum);
        assert(parts[n - 1] == share);
        assert((before + share) * sum <= (total(weights.take(n - 1)) + w) * ONE)
            by (nonlinear_arith)
            requires
                before * sum <= total(weights.take(n - 1)) * ONE,
                sum * share <= w * ONE,
        ;
    }
    if n == weights.len() {
        assert(parts.take(n) =~= parts);
        assert(weights.take(n) =~= weights);
        assert(total(parts) <= ONE) by (nonlinear_arith)
            requires
                total(parts) * sum <= sum * ONE,
                sum > 0,
        ;
    }
}

/// The Gaussian `e^(-r2 / (2 sigma^2))` at squared distance `r2`, in whole
/// pixels, as far out as 128-bit arithmetic reaches.
pub fn gaussian(sigma: u64, r2: u64) -> (weight: u64)
    requires
        0 < sigma <= MAX_SIGMA,
        r2 * ONE * ONE * ONE <= u128::MAX,
    ensures
        weight == gaussian_weight(sigma as int, r2 as int),
        weight <= ONE,
        r2 == 0 ==> weight == ONE,
{
    let cube: u128 = 1_000_000_000_000_000_000_000_000_000;
    assert(r2 * ONE * ONE * ONE == r2 * cube) by (nonlinear_arith)
        requires
            ONE == 1_000_000_000,
            cube == 1_000_000_000_000_000_000_000_000_000,
    ;
    assert(r2 * cube <= u128::MAX);
    assert(0 < 2 * sigma * sigma <= 2 * MAX_SIGMA * MAX_SIGMA) by (nonlinear_arith)
        requires
            0 < sigma <= MAX_SIGMA,
    ;
    let spread: u128 = 2 * (sigma as u128) * (sigma as u128);
    let t: u128 = (r2 as u128) * cube / spread;
    proof {
        lemma_exp_neg_bounds(t as int);
        if r2 == 0 {
            assert(0 * cube / (spread as int) == 0);
        }
    }
    if t >= 31 * (ONE as u128) {
        0
    } else {
        exp_neg(t as u64)
    }
}

/// Normalized weights sum to exactly one.
pub proof fn lemma_normalized_total(weights: Seq<u64>)
    requires
        weights.len() > 0,
        total(weights) > 0,
    ensures
        total(normalized(weights)) == ONE,
        normalized(weights).len() == weights.len(),
{
    let parts = shares(weights);
    let centre = (parts.len() / 2) as int;
    lemma_shares_total(weights, weights.len() as int);
    lemma_total_bounds(parts, centre);
    lemma_total_update(parts, centre, (parts[centre] + ONE - total(parts)) as u64);
}

/// The Gaussian never rises with the distance from the centre.
pub proof fn lemma_gaussian_never_rises(sigma: int, nearer: int, further: int)
    requires
        sigma > 0,
        0 <= nearer <= further,
    ensures
        gaussian_weight(sigma, nearer) >= gaussian_weight(sigma, further),
{
    let spread = 2 * sigma * sigma;
    assert(spread > 0) by (nonlinear_arith)
        requires
            spread == 2 * sigma * sigma,
            sigma > 0,
    ;
    assert(0 <= nearer * ONE * ONE * ONE <= further * ONE * ONE * ONE) by (nonlinear_arith)
        requires
            0 <= nearer <= further,
    ;
    lemma_div_is_ordered(nearer * ONE * ONE * ONE, further * ONE * ONE * ONE, spread);
    lemma_div_pos_is_pos(nearer * ONE * ONE * ONE, spread);
    crate::exponent::lemma_exp_neg_never_rises(
        nearer * ONE * ONE * ONE / spread,
        further * ONE * ONE * ONE / spread,
    );
}

/// The Gaussian kernel of any positive `sigma` sums to exactly one: its
/// centre has weight one before it is normalized, so there is a total to
/// divide by, and normalizing does the rest.
pub proof fn lemma_gaussian_kernel_sums_to_one(sigma: int)
    requires
        sigma > 0,
    ensures
        total(gaussian_kernel(sigma)) == ONE,
        total(unscaled_kernel(sigma)) > 0,
        gaussian_kernel(sigma).len() == kernel_size(sigma) * kernel_size(sigma),
{
    let size = kernel_size(sigma);
    let half = size / 2;
    let centre = half * size + half;
    let weights = unscaled_kernel(sigma);
    assert(3 * sigma + ONE - 1 >= 0);
    lemma_div_pos_is_pos(3 * sigma + ONE - 1, ONE as int);
    assert(size * size > 0) by (nonlinear_arith)
        requires
            size >= 3,
    ;
    lemma_row_major(half, half, size, size);
    let dx = centre % size - size / 2;
    let dy = centre / size - size / 2;
    assert(dx * dx + dy * dy == 0) by (nonlinear_arith)
        requires
            dx == 0,
            dy == 0,
    ;
    assert(squared_distance(size, centre) == 0);
    assert(0 * ONE * ONE * ONE / (2 * sigma * sigma) == 0) by (nonlinear_arith)
        requires
            sigma > 0,
    ;
    lemma_exp_neg_bounds(0);
    assert(weights[centre] == ONE);
    lemma_total_bounds(weights, centre);
    lemma_normalized_total(weights);
}

/// The side of the kernel for `sigma`.
pub fn side(sigma: u64) -> (size: usize)
    requires
        0 < sigma <= MAX_SIGMA,
    ensures
        size == kernel_size(sigma as int),
        3 <= size <= 6001,
        size % 2 == 1,
{
    let radius: u64 = (3 * sigma + ONE - 1) / ONE;
    if radius < 1 {
        3
    } else {
        2 * (radius as usize) + 1
    }
}

/// The distance between two coordinates.
fn apart(a: usize, b: usize) -> (d: usize)
    ensures
        d == if a >= b { a - b } else { b - a },
{
    if a >= b {
        a - b
    } else {
        b - a
    }
}

/// The Gaussian at every entry of the kernel for `sigma`, and its total.
fn unscaled(sigma: u64, size: usize) -> (raw: (Vec<u64>, u64))
    requires
        0 < sigma <= MAX_SIGMA,
        size == kernel_size(sigma as int),
        3 <= size <= 6001,
    ensures
        raw.0@ == unscaled_kernel(sigma as int),
        raw.0@.len() == size * size,
        raw.1 == total(raw.0@),
        raw.1 > 0,
{
    let half: usize = size / 2;
    let mut weights: Vec<u64> = Vec::new();
    let mut sum: u64 = 0;
    let mut y: usize = 0;
    assert(size * size <= 6001 * 6001) by (nonlinear_arith)
        requires
            size <= 6001,
    ;
    while y < size
        invariant
            y <= size,
            half == size / 2,
            0 < sigma <= MAX_SIGMA,
            3 <= size <= 6001,
            size * size <= 6001 * 6001,
            weights@.len() == y * size,
            sum == total(weights@),
            sum <= weights@.len() * ONE,
            forall|j: int|
                0 <= j < weights@.len() ==> weights@[j] == #[trigger] gaussian_weight(
                    sigma as int,
                    squared_distance(size as int, j),
                ),
        decreases size - y,
    {
        let mut x: usize = 0;
        while x < size
            invariant
                x <= size,
                y < size,
                half == size / 2,
                0 < sigma <= MAX_SIGMA,
                3 <= size <= 6001,
                size * size <= 6001 * 6001,
                weights@.len() == y * size + x,
                sum == total(weights@),
                sum <= weights@.len() * ONE,
                forall|j: int|
                    0 <= j < weights@.len() ==> weights@[j] == #[trigger] gaussian_weight(
                        sigma as int,
                        squared_distance(size as int, j),
                    ),
            decreases size - x,
        {
            let dx: usize = apart(x, half);
            let dy: usize = apart(y, half);
            proof {
                lemma_row_major(y as int, x as int, size as int, size as int);
                assert(dx * dx + dy * dy <= 2 * 3000 * 3000 && dx * dx == (x - half) * (x - half)
                    && dy * dy == (y - half) * (y - half)) by (nonlinear_arith)
                    requires
                        dx <= 3000,
                        dy <= 3000,
                        dx == x - half || dx == half - x,
                        dy == y - half || dy == half - y,
                ;
                assert((dx * dx + dy * dy) * ONE * ONE * ONE <= u128::MAX) by (nonlinear_arith)
                    requires
                        dx * dx + dy * dy <= 2 * 3000 * 3000,
                        ONE == 1_000_000_000,
                ;
                lemma_total_push(
                    weights@,
                    gaussian_weight(sigma as int, (dx * dx + dy * dy) as int) as u64,
                );
            }
            let r2: u64 = (dx * dx + dy * dy) as u64;
            let weight: u64 = gaussian(sigma, r2);
            weights.push(weight);
            sum += weight;
            x += 1;
        }
        proof {
            assert(y * size + size == (y + 1) * size) by (nonlinear_arith);
        }
        y += 1;
    }
    proof {
        assert(weights@ =~= unscaled_kernel(sigma as int));
        lemma_gaussian_kernel_sums_to_one(sigma as int);
    }
    (weights, sum)
}

/// The weights as shares of `sum`, their total, with the rounding loss added
/// to the middle entry.
fn normalize(weights: &Vec<u64>, sum: u64) -> (kernel: Vec<u64>)
    requires
        weights@.len() > 0,
        sum == total(weights@),
        sum > 0,
    ensures
        kernel@ == normalized(weights@),
        kernel@.len() == weights@.len(),
        total(kernel@) == ONE,
{
    let n: usize = weights.len();
    let mut kernel: Vec<u64> = Vec::new();
    let mut shared: u64 = 0;
    let mut j: usize = 0;
    proof {
        lemma_shares_total(weights@, n as int);
        assert(shares(weights@).take(0) =~= Seq::<u64>::empty());
    }
    while j < n
        invariant
            j <= n,
            n == weights@.len(),
            sum == total(weights@),
            sum > 0,
            kernel@ == shares(weights@).take(j as int),
            shared == total(kernel@),
            total(shares(weights@)) <= ONE,
        decreases n - j,
    {
        let w: u64 = weights[j];
        proof {
            lemma_total_bounds(weights@, j as int);
            assert(w * ONE <= sum * ONE) by (nonlinear_arith)
                requires
                    0 <= w <= sum,
            ;
            lemma_div_is_ordered(w * ONE, sum * ONE, sum as int);
            assert(sum * ONE == ONE * sum) by (nonlinear_arith);
            vstd::arithmetic::div_mod::lemma_div_multiples_vanish(ONE as int, sum as int);
            assert(w * ONE <= u64::MAX * ONE) by (nonlinear_arith)
                requires
                    w <= u64::MAX,
            ;
        }
        let share: u64 = ((w as u128) * (ONE as u128) / (sum as u128)) as u64;
        proof {
            lemma_total_push(kernel@, share);
            assert(shares(weights@).take(j + 1) =~= shares(weights@).take(j as int).push(share));
            lemma_total_bounds(shares(weights@), j + 1);
        }
        kernel.push(share);
        shared += share;
        j += 1;
    }
    proof {
        assert(shares(weights@).take(n as int) =~= shares(weights@));
        lemma_total_bounds(kernel@, n as int / 2);
        lemma_normalized_total(weights@);
    }
    let centre: usize = n / 2;
    let lifted: u64 = kernel[centre] + (ONE - shared);
    kernel.set(centre, lifted);
    kernel
}

/// Builds the normalized Gaussian kernel for a blur of standard deviation
/// `sigma`, in pixels. The kernel reaches three standard deviations from its
/// centre, rounded up, so its side is `2 * ceil(3 * sigma) + 1`. Its weights
/// are `e^(-r^2 / (2 sigma^2))` for the distance `r` from the centre, divided
/// by their total. Returns the weights, row by row, and the side.
pub fn make_gaussian_kernel_2d(sigma: u64) -> (kernel: (Vec<u64>, usize))
    requires
        0 < sigma <= MAX_SIGMA,
    ensures
        kernel.1 == kernel_size(sigma as int),
        kernel.0@ == gaussian_kernel(sigma as int),
        kernel.0@.len() == kernel.1 * kernel.1,
        total(kernel.0@) == ONE,
{
    let size: usize = side(sigma);
    let (weights, sum) = unscaled(sigma, size);
    assert(size * size > 0) by (nonlinear_arith)
        requires
            size >= 3,
    ;
    let kernel: Vec<u64> = normalize(&weights, sum);
    (kernel, size)
}

} // verus!
