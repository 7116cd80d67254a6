//! The emulsion: a population of grains, and the picture it leaves.
use crate::canvas::{canvas_dimensions, canvas_pixels, Canvas, Rgba};
use crate::density::{
    film_density, lemma_undeveloped_is_white, DensityCurveParams, FAINTEST_SHOWING,
};
use crate::developer::Developer;
use crate::grid::lemma_row_major;
use crate::fixed::ONE;
use crate::halide::{photons_of, GrainRanges, Halide, LATENT_THRESHOLD, RADIUS_MAX, RADIUS_MIN};
use rayon::iter::{IntoParallelIterator, ParallelIterator};
use vstd::prelude::*;

verus! {

/// An ordered collection of grains.
pub struct Emulsion {
    /// the grains, in the order in which they are rendered
    pub grains: Vec<Halide>,
}

/// How an emulsion is populated.
#[derive(Debug, Clone, Copy, PartialEq, Eq, Structural)]
pub enum Strategy {
    /// This many grains, scattered at random.
    RandomScatter(usize),
    /// One grain for each pixel, from this many exposure trials.
    PerPixelGrid(usize),
}

impl Strategy {
    /// The number of grains that the strategy puts on a canvas of the given
    /// size.
    pub open spec fn population(&self, width: int, height: int) -> int {
        match *self {
            Strategy::RandomScatter(count) => count as int,
            Strategy::PerPixelGrid(_) => width * height,
        }
    }
}

/// Whether a grain could be the one that a pixel grid puts at index `i` of
/// an emulsion for a canvas of the given width: what the given number of
/// exposure trials leave at that pixel, under the light that `field` has
/// there.
pub open spec fn is_grid_grain(
    grain: Halide,
    i: int,
    width: int,
    field: Seq<u64>,
    exposure_time: u64,
    samples: usize,
) -> bool {
    &&& grain.x < width
    &&& RADIUS_MIN <= grain.radius < RADIUS_MAX
    &&& grain.is_sample(
        (i % width) as usize,
        (i / width) as usize,
        field[i],
        exposure_time,
        samples,
    )
    &&& grain == (Halide {
        silver_count: grain.silver_count,
        activated: grain.activated,
        ..Halide::fresh((i % width) as usize, (i / width) as usize, grain.radius)
    })
    &&& grain.silver_count <= LATENT_THRESHOLD
}

/// Whether a grain lies on a canvas of the given size, is a grain at all,
/// holds no more silver than activates it and has not developed yet.
pub open spec fn is_undeveloped_on(grain: Halide, width: int, height: int) -> bool {
    &&& grain.x < width
    &&& grain.y < height
    &&& grain.is_valid()
    &&& grain.silver_count <= grain.latent_threshold
    &&& grain.developed_fraction == 0
}

/// Whether `after` could be what exposure makes of the grain `before`: the
/// same grain with no less silver, at most up to its threshold. An activated
/// grain is what it was. Any other is activated exactly when it holds enough
/// silver.
pub open spec fn is_exposure_of(after: Halide, before: Halide) -> bool {
    &&& after == (Halide { silver_count: after.silver_count, activated: after.activated, ..before })
    &&& before.silver_count <= after.silver_count
    &&& after.silver_count <= before.silver_count || after.silver_count <= before.latent_threshold
    &&& before.activated ==> after == before
    &&& !before.activated ==> after.is_consistent()
    &&& before.is_consistent() ==> after.is_consistent()
}

/// The light that falls on a grain: the intensity that `field` has at the
/// grain's pixel, and none where the grain lies outside the canvas.
pub open spec fn light_at(grain: Halide, width: int, height: int, field: Seq<u64>) -> u64 {
    if grain.x < width && grain.y < height {
        field[grain.y * width + grain.x]
    } else {
        0
    }
}

/// Whether `after` is what the light of `field` can make of the grain
/// `before` in the given time: what exposure to the light that falls on the
/// grain can make of it.
pub open spec fn is_lit_by(
    before: Halide,
    after: Halide,
    width: int,
    height: int,
    field: Seq<u64>,
    exposure_time: u64,
) -> bool {
    before.may_expose_to(
        after,
        photons_of(
            before.radius as int,
            light_at(before, width, height, field) as int,
            exposure_time as int,
        ),
    )
}

/// Whether the grains are what the light of `field` can make of the
/// scattered grains `fresh` in the given time, grain by grain.
pub open spec fn is_scatter_lit(
    fresh: Seq<Halide>,
    grains: Seq<Halide>,
    width: u32,
    height: u32,
    field: Seq<u64>,
    ranges: GrainRanges,
    exposure_time: u64,
) -> bool {
    &&& fresh.len() == grains.len()
    &&& forall|i: int|
        0 <= i < fresh.len() ==> is_scattered(#[trigger] fresh[i], width, height, ranges)
    &&& forall|i: int|
        0 <= i < fresh.len() ==> is_lit_by(
            fresh[i],
            #[trigger] grains[i],
            width as int,
            height as int,
            field,
            exposure_time,
        )
}

/// Whether the grains could be the emulsion that the strategy generates for
/// a canvas of the given size under the light of `field`. A random scatter
/// gives as many grains as it names: scattered grains, each exposed to the
/// light at its pixel. A pixel grid gives one grain for each pixel, row by
/// row: what the exposure trials at that pixel leave.
pub open spec fn is_generated(
    grains: Seq<Halide>,
    width: u32,
    height: u32,
    field: Seq<u64>,
    strategy: Strategy,
    ranges: GrainRanges,
    exposure_time: u64,
) -> bool {
    match strategy {
        Strategy::RandomScatter(count) => {
            &&& grains.len() == count
            &&& exists|fresh: Seq<Halide>| #[trigger]
                is_scatter_lit(fresh, grains, width, height, field, ranges, exposure_time)
        },
        Strategy::PerPixelGrid(samples) => {
            &&& grains.len() == width * height
            &&& forall|i: int|
                0 <= i < grains.len() ==> is_grid_grain(
                    #[trigger] grains[i],
                    i,
                    width as int,
                    field,
                    exposure_time,
                    samples,
                )
        },
    }
}

/// The grains after one development step of length `dt` each.
pub open spec fn developed_all(grains: Seq<Halide>, dev: Developer, dt: int) -> Seq<Halide> {
    Seq::new(grains.len(), |i: int| grains[i].developed(dev, dt))
}

/// The pixel of bare film base: opaque white.
pub open spec fn white() -> Rgba {
    (255u8, 255u8, 255u8, 255u8)
}

/// The opaque gray pixel of the given shade.
pub open spec fn gray(shade: int) -> Rgba {
    (shade as u8, shade as u8, shade as u8, 255u8)
}

/// A canvas of bare film base.
pub open spec fn blank(width: int, height: int) -> Seq<Rgba> {
    Seq::new((width * height) as nat, |i: int| white())
}

/// The picture that the grains leave on a canvas of the given size. The
/// canvas starts white. Each grain in turn paints the pixel at its position
/// in the shade that the curve gives its developed fraction; a grain outside
/// the canvas paints nothing. Where grains share a pixel, the last one shows.
pub open spec fn painted(
    grains: Seq<Halide>,
    width: int,
    height: int,
    curve: DensityCurveParams,
) -> Seq<Rgba>
    decreases grains.len(),
{
    if grains.len() == 0 {
        blank(width, height)
    } else {
        let before = painted(grains.drop_last(), width, height, curve);
        let grain = grains.last();
        if grain.x < width && grain.y < height {
            before.update(
                grain.y * width + grain.x,
                gray(curve.shade_of(grain.developed_fraction as int)),
            )
        } else {
            before
        }
    }
}

/// Whether a grain could have come out of scattering over a canvas of the
/// given size with the given ranges.
pub open spec fn is_scattered(grain: Halide, width: u32, height: u32, ranges: GrainRanges) -> bool {
    &&& grain.x < width
    &&& grain.y < height
    &&& ranges.admits(grain)
    &&& grain.is_fresh()
}

/// Scatters `count` grains in parallel: `rayon` maps `Halide::scattered` over
/// the range `0..count` and collects the results into a vector, which by
/// `rayon`'s `collect` has one item for each index. What is claimed of each
/// grain is what `Halide::scattered` ensures of every grain it returns.
#[verifier::external_body]
fn scatter_in_parallel(width: u32, height: u32, ranges: &GrainRanges, count: usize) -> (grains:
    Vec<Halide>)
    requires
        width > 0,
        height > 0,
        ranges.is_valid(),
    ensures
        grains@.len() == count,
        forall|i: int| 0 <= i < count ==> is_scattered(#[trigger] grains@[i], width, height, *ranges),
{
    (0..count).into_par_iter().map(|_| Halide::scattered(width, height, ranges)).collect()
}

impl Emulsion {
    /// The emulsion of the given grains.
    pub fn from(grains: Vec<Halide>) -> (emulsion: Emulsion)
        ensures
            emulsion.grains == grains,
    {
        Emulsion { grains }
    }

    /// `count` fresh grains scattered over a canvas of the given size, with
    /// radius, threshold and probability drawn from `ranges`. Positions may
    /// repeat.
    pub fn scatter(width: u32, height: u32, count: usize, ranges: &GrainRanges) -> (emulsion:
        Emulsion)
        requires
            width > 0,
            height > 0,
            ranges.is_valid(),
        ensures
            emulsion.grains@.len() == count,
            forall|i: int|
                0 <= i < count ==> is_scattered(
                    #[trigger] emulsion.grains@[i],
                    width,
                    height,
                    *ranges,
                ),
    {
        Emulsion { grains: scatter_in_parallel(width, height, ranges, count) }
    }

    /// `num_grains` fresh grains scattered over a canvas of the given size,
    /// with radius, threshold and probability drawn from the standard ranges.
    pub fn create_random_emulsion(width: u32, height: u32, num_grains: usize) -> (emulsion:
        Emulsion)
        requires
            width > 0,
            height > 0,
        ensures
            emulsion.grains@.len() == num_grains,
            forall|i: int|
                0 <= i < num_grains ==> is_scattered(
                    #[trigger] emulsion.grains@[i],
                    width,
                    height,
                    GrainRanges::standard(),
                ),
    {
        let ranges = GrainRanges::standard();
        Emulsion::scatter(width, height, num_grains, &ranges)
    }

    /// Renders the emulsion on a canvas of the given size with the standard
    /// characteristic curve.
    pub fn render_emulsion(&self, width: u32, height: u32) -> (output: Canvas)
        requires
            width > 0,
            height > 0,
            4 * width * height <= isize::MAX,
        ensures
            canvas_dimensions(output) == (width as nat, height as nat),
            canvas_pixels(output) == painted(
                self.grains@,
                width as int,
                height as int,
                DensityCurveParams::standard(),
            ),
    {
        let curve = DensityCurveParams::standard();
        self.render_with(width, height, &curve)
    }

    /// Renders the emulsion on a canvas of the given size: white, with the
    /// pixel of each grain that lies on the canvas painted in the shade that
    /// `curve` gives the grain's developed fraction. Later grains paint over
    /// earlier ones.
    pub fn render_with(&self, width: u32, height: u32, curve: &DensityCurveParams) -> (output:
        Canvas)
        requires
            width > 0,
            height > 0,
            4 * width * height <= isize::MAX,
            curve.is_valid(),
        ensures
            canvas_dimensions(output) == (width as nat, height as nat),
            canvas_pixels(output) == painted(self.grains@, width as int, height as int, *curve),
    {
        let mut output = Canvas::filled(width, height, (255, 255, 255, 255));
        let n: usize = self.grains.len();
        let mut i: usize = 0;
        proof {
            assert(self.grains@.take(0) =~= Seq::<Halide>::empty());
        }
        while i < n
            invariant
                i <= n,
                n == self.grains@.len(),
                curve.is_valid(),
                canvas_dimensions(output) == (width as nat, height as nat),
                canvas_pixels(output) == painted(
                    self.grains@.take(i as int),
                    width as int,
                    height as int,
                    *curve,
                ),
            decreases n - i,
        {
            let grain: Halide = self.grains[i];
            proof {
                assert(self.grains@.take(i + 1).drop_last() =~= self.grains@.take(i as int));
            }
            if grain.x < width as usize && grain.y < height as usize {
                let density: u64 = film_density(grain.developed_fraction, curve);
                let intensity: u8 = curve.shade(density);
                output.put(grain.x as u32, grain.y as u32, (intensity, intensity, intensity, 255));
            }
            i += 1;
        }
        proof {
            assert(self.grains@.take(n as int) =~= self.grains@);
        }
        output
    }

    /// One grain for each pixel of the canvas, row by row, each from
    /// `samples_per_pixel` exposure trials under the intensity that `field`
    /// has at the pixel.
    pub fn per_pixel(
        width: u32,
        height: u32,
        field: &[u64],
        samples_per_pixel: usize,
        exposure_time: u64,
    ) -> (emulsion: Emulsion)
        requires
            width > 0,
            height > 0,
            field@.len() == width * height,
        ensures
            emulsion.grains@.len() == width * height,
            forall|i: int|
                0 <= i < width * height ==> is_grid_grain(
                    #[trigger] emulsion.grains@[i],
                    i,
                    width as int,
                    field@,
                    exposure_time,
                    samples_per_pixel,
                ),
            samples_per_pixel == 0 ==> forall|i: int|
                0 <= i < width * height ==> (#[trigger] emulsion.grains@[i]).is_fresh(),
    {
        let cells: usize = field.len();
        let mut grains: Vec<Halide> = Vec::new();
        let mut y: usize = 0;
        while y < height as usize
            invariant
                y <= height,
                cells == width * height,
                field@.len() == width * height,
                grains@.len() == y * width,
                forall|i: int|
                    0 <= i < grains@.len() ==> is_grid_grain(
                        #[trigger] grains@[i],
                        i,
                        width as int,
                        field@,
                        exposure_time,
                        samples_per_pixel,
                    ),
                samples_per_pixel == 0 ==> forall|i: int|
                    0 <= i < grains@.len() ==> (#[trigger] grains@[i]).is_fresh(),
            decreases height - y,
        {
            let mut x: usize = 0;
            while x < width as usize
                invariant
                    x <= width,
                    y < height,
                    cells == width * height,
                    field@.len() == width * height,
                    grains@.len() == y * width + x,
                    forall|i: int|
                        0 <= i < grains@.len() ==> is_grid_grain(
                            #[trigger] grains@[i],
                            i,
                            width as int,
                            field@,
                            exposure_time,
                            samples_per_pixel,
                        ),
                    samples_per_pixel == 0 ==> forall|i: int|
                        0 <= i < grains@.len() ==> (#[trigger] grains@[i]).is_fresh(),
                decreases width - x,
            {
                proof {
                    lemma_row_major(y as int, x as int, width as int, height as int);
                }
                let intensity: u64 = field[y * (width as usize) + x];
                let grain = Halide::sampled(x, y, intensity, exposure_time, samples_per_pixel);
                grains.push(grain);
                x += 1;
            }
            proof {
                assert(y * width + width == (y + 1) * width) by (nonlinear_arith);
            }
            y += 1;
        }
        proof {
            assert(height * width == width * height) by (nonlinear_arith);
        }
        Emulsion { grains }
    }

    /// Exposes every grain to the light that falls on it: the intensity that
    /// `field` has at the grain's pixel, and none where the grain lies
    /// outside the canvas.
    pub fn expose(&mut self, width: u32, height: u32, field: &[u64], exposure_time: u64)
        requires
            width > 0,
            height > 0,
            field@.len() == width * height,
        ensures
            final(self).grains@.len() == old(self).grains@.len(),
            forall|i: int|
                0 <= i < old(self).grains@.len() ==> is_exposure_of(
                    #[trigger] final(self).grains@[i],
                    old(self).grains@[i],
                ),
            forall|i: int|
                0 <= i < old(self).grains@.len() ==> is_lit_by(
                    old(self).grains@[i],
                    #[trigger] final(self).grains@[i],
                    width as int,
                    height as int,
                    field@,
                    exposure_time,
                ),
    {
        let cells: usize = field.len();
        let n: usize = self.grains.len();
        let mut i: usize = 0;
        while i < n
            invariant
                i <= n,
                n == self.grains@.len(),
                n == old(self).grains@.len(),
                cells == width * height,
                field@.len() == width * height,
                forall|j: int|
                    0 <= j < i ==> is_exposure_of(
                        #[trigger] self.grains@[j],
                        old(self).grains@[j],
                    ),
                forall|j: int|
                    0 <= j < i ==> is_lit_by(
                        old(self).grains@[j],
                        #[trigger] self.grains@[j],
                        width as int,
                        height as int,
                        field@,
                        exposure_time,
                    ),
                forall|j: int| i <= j < n ==> #[trigger] self.grains@[j] == old(self).grains@[j],
            decreases n - i,
        {
            let mut grain: Halide = self.grains[i];
            let mut intensity: u64 = 0;
            if grain.x < width as usize && grain.y < height as usize {
                proof {
                    lemma_row_major(grain.y as int, grain.x as int, width as int, height as int);
                }
                intensity = field[grain.y * (width as usize) + grain.x];
            }
            grain.expose(intensity, exposure_time);
            self.grains.set(i, grain);
            i += 1;
        }
    }

    /// Whether every grain has a positive latent threshold, as development
    /// needs it.
    pub open spec fn is_developable(&self) -> bool {
        forall|i: int| 0 <= i < self.grains@.len() ==> (#[trigger] self.grains@[i]).latent_threshold > 0
    }

    /// Takes every grain through one development step of length `dt`.
    pub fn develop(&mut self, dev: &Developer, dt: u64)
        requires
            old(self).is_developable(),
        ensures
            final(self).grains@ == developed_all(old(self).grains@, *dev, dt as int),
    {
        let n: usize = self.grains.len();
        let mut i: usize = 0;
        while i < n
            invariant
                i <= n,
                n == self.grains@.len(),
                n == old(self).grains@.len(),
                old(self).is_developable(),
                forall|j: int|
                    0 <= j < i ==> #[trigger] self.grains@[j] == old(self).grains@[j].developed(
                        *dev,
                        dt as int,
                    ),
                forall|j: int| i <= j < n ==> #[trigger] self.grains@[j] == old(self).grains@[j],
            decreases n - i,
        {
            let mut grain: Halide = self.grains[i];
            Halide::develop_grain(&mut grain, dev, dt);
            self.grains.set(i, grain);
            i += 1;
        }
        proof {
            assert(self.grains@ =~= developed_all(old(self).grains@, *dev, dt as int));
        }
    }

    /// Populates an emulsion for a canvas of the given size and exposes it
    /// to `field` for `exposure_time`. A random scatter draws its grains from
    /// `ranges` and then exposes each to the light at its pixel. A pixel grid
    /// makes each pixel's grain from exposure trials.
    pub fn generate(
        width: u32,
        height: u32,
        field: &[u64],
        strategy: Strategy,
        ranges: &GrainRanges,
        exposure_time: u64,
    ) -> (emulsion: Emulsion)
        requires
            width > 0,
            height > 0,
            field@.len() == width * height,
            ranges.is_valid(),
        ensures
            is_generated(
                emulsion.grains@,
                width,
                height,
                field@,
                strategy,
                *ranges,
                exposure_time,
            ),
            emulsion.grains@.len() == strategy.population(width as int, height as int),
            emulsion.is_developable(),
            forall|i: int|
                0 <= i < emulsion.grains@.len() ==> is_undeveloped_on(
                    #[trigger] emulsion.grains@[i],
                    width as int,
                    height as int,
                ),
            strategy matches Strategy::RandomScatter(_) ==> forall|i: int|
                0 <= i < emulsion.grains@.len() ==> {
                    &&& ranges.admits(#[trigger] emulsion.grains@[i])
                    &&& emulsion.grains@[i].spectral_sensitivity == 0
                    &&& emulsion.grains@[i].is_consistent()
                },
            strategy matches Strategy::PerPixelGrid(samples) ==> samples == 0 ==> forall|i: int|
                0 <= i < emulsion.grains@.len() ==> (#[trigger] emulsion.grains@[i]).is_fresh(),
    {
        match strategy {
            Strategy::RandomScatter(count) => {
                let mut emulsion = Emulsion::scatter(width, height, count, ranges);
                let ghost fresh = emulsion.grains@;
                emulsion.expose(width, height, field, exposure_time);
                proof {
                    assert forall|i: int| 0 <= i < emulsion.grains@.len() implies {
                        &&& is_undeveloped_on(
                            #[trigger] emulsion.grains@[i],
                            width as int,
                            height as int,
                        )
                        &&& ranges.admits(emulsion.grains@[i])
                        &&& emulsion.grains@[i].spectral_sensitivity == 0
                        &&& emulsion.grains@[i].is_consistent()
                    } by {
                        assert(is_scattered(fresh[i], width, height, *ranges));
                        assert(is_exposure_of(emulsion.grains@[i], fresh[i]));
                    }
                    assert(is_scatter_lit(
                        fresh,
                        emulsion.grains@,
                        width,
                        height,
                        field@,
                        *ranges,
                        exposure_time,
                    ));
                }
                emulsion
            },
            Strategy::PerPixelGrid(samples) => {
                let emulsion = Emulsion::per_pixel(width, height, field, samples, exposure_time);
                proof {
                    assert forall|i: int| 0 <= i < emulsion.grains@.len() implies is_undeveloped_on(
                        #[trigger] emulsion.grains@[i],
                        width as int,
                        height as int,
                    ) by {
                        assert(is_grid_grain(
                            emulsion.grains@[i],
                            i,
                            width as int,
                            field@,
                            exposure_time,
                            samples,
                        ));
                        vstd::arithmetic::div_mod::lemma_fundamental_div_mod(i, width as int);
                        let row = i / (width as int);
                        if row >= height {
                            assert(width * row >= width * height) by (nonlinear_arith)
                                requires
                                    row >= height,
                                    width > 0,
                            ;
                        }
                    }
                }
                emulsion
            },
        }
    }
}

/// The picture has one pixel for each position of the canvas, and the last
/// grain shows: where it lies on the canvas, its pixel has the shade that the
/// curve gives its developed fraction, whatever the grains before it painted
/// there.
pub proof fn lemma_last_grain_shows(
    grains: Seq<Halide>,
    width: int,
    height: int,
    curve: DensityCurveParams,
)
    requires
        0 < width,
        0 < height,
    ensures
        painted(grains, width, height, curve).len() == width * height,
        grains.len() > 0 && grains.last().x < width && grains.last().y < height ==> painted(
            grains,
            width,
            height,
            curve,
        )[grains.last().y * width + grains.last().x] == gray(
            curve.shade_of(grains.last().developed_fraction as int),
        ),
    decreases grains.len(),
{
    assert(0 <= width * height) by (nonlinear_arith)
        requires
            0 < width,
            0 < height,
    ;
    if grains.len() > 0 {
        lemma_last_grain_shows(grains.drop_last(), width, height, curve);
        let grain = grains.last();
        if grain.x < width && grain.y < height {
            lemma_row_major(grain.y as int, grain.x as int, width, height);
        }
    }
}

/// One grain on a canvas of one pixel, from light to picture. The grain
/// needs a single atom and absorbs every photon, and at least one photon
/// arrives: exposure activates it. A developer of strength 0.1 then takes it,
/// in a step of length one, to a developed fraction of 0.1 or to the
/// developer's ceiling, which is above zero. Under the standard curve the
/// grain then paints its pixel darker than bare film base, provided that the
/// ceiling is not so low that the grain is rounded to white.
pub proof fn lemma_lone_grain_shows(grain: Halide, exposed: Halide, photons: int, dev: Developer)
    requires
        grain.x == 0,
        grain.y == 0,
        grain.latent_threshold == 1,
        grain.absorption_probability == ONE,
        grain.is_fresh(),
        photons >= 1,
        grain.may_expose_to(exposed, photons),
        dev.strength == 100_000_000,
        dev.max_development >= FAINTEST_SHOWING,
    ensures
        exposed.activated,
        exposed.developed(dev, ONE as int).developed_fraction == if dev.max_development
            < 100_000_000 {
            dev.max_development
        } else {
            100_000_000
        },
        exposed.developed(dev, ONE as int).developed_fraction > 0,
        painted(
            seq![exposed.developed(dev, ONE as int)],
            1,
            1,
            DensityCurveParams::standard_curve(),
        ) == seq![
            gray(
                DensityCurveParams::standard_curve().shade_of(
                    exposed.developed(dev, ONE as int).developed_fraction as int,
                ),
            ),
        ],
        DensityCurveParams::standard_curve().shade_of(
            exposed.developed(dev, ONE as int).developed_fraction as int,
        ) < 255,
{
    let curve = DensityCurveParams::standard_curve();
    crate::halide::lemma_first_photon_activates(grain, exposed, photons);
    assert(exposed.has_latent_image());
    assert(1 * ONE / 1 == ONE);
    assert(exposed.latent_ratio() == ONE);
    assert(100_000_000 * ONE / (ONE as int) == 100_000_000);
    assert(exposed.development_gain(dev, ONE as int) == 100_000_000);
    let developed = exposed.developed(dev, ONE as int);
    crate::density::lemma_standard_curve_shows(developed.developed_fraction);
    let grains = seq![developed];
    assert(grains.len() == 1);
    assert(grains.drop_last() =~= Seq::<Halide>::empty());
    assert(grains.last() == developed);
    assert(developed.x == 0 && developed.y == 0);
    assert(painted(grains.drop_last(), 1, 1, curve) == blank(1, 1));
    assert(blank(1, 1).len() == 1);
    assert(developed.y * 1 + developed.x == 0);
    assert(painted(grains, 1, 1, curve) == blank(1, 1).update(
        0,
        gray(curve.shade_of(developed.developed_fraction as int)),
    ));
    assert(painted(grains, 1, 1, curve) =~= seq![
        gray(curve.shade_of(developed.developed_fraction as int)),
    ]);
}

/// An emulsion without grains leaves the canvas blank.
pub proof fn lemma_no_grains_leave_blank(width: int, height: int, curve: DensityCurveParams)
    ensures
        painted(Seq::<Halide>::empty(), width, height, curve) == blank(width, height),
{
}

/// Grains that have not developed at all leave the canvas blank, however
/// many there are.
pub proof fn lemma_undeveloped_grains_leave_blank(
    grains: Seq<Halide>,
    width: int,
    height: int,
    curve: DensityCurveParams,
)
    requires
        curve.is_valid(),
        0 <= width,
        0 <= height,
        forall|i: int| 0 <= i < grains.len() ==> (#[trigger] grains[i]).developed_fraction == 0,
    ensures
        painted(grains, width, height, curve) == blank(width, height),
    decreases grains.len(),
{
    if grains.len() > 0 {
        lemma_undeveloped_grains_leave_blank(grains.drop_last(), width, height, curve);
        lemma_undeveloped_is_white(curve);
        let grain = grains.last();
        if grain.x < width && grain.y < height {
            lemma_row_major(grain.y as int, grain.x as int, width, height);
            assert(blank(width, height).update(grain.y * width + grain.x, white()) =~= blank(
                width,
                height,
            ));
        }
    }
}

} // verus!
