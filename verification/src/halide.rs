//! Silver halide grains: how they take up light and how they develop.
use crate::chance::draw_between;
use crate::developer::Developer;
use crate::fixed::{
    lemma_product_monotone, product, product_of, quotient, quotient_of, sum, sum_of, ONE,
};
use vstd::arithmetic::div_mod::{
    lemma_div_is_ordered, lemma_div_pos_is_pos, lemma_fundamental_div_mod,
};
use vstd::prelude::*;

verus! {

/// The circle constant, in fixed point.
pub const PI: u64 = 3_141_592_654;

/// The smallest radius that a fresh grain is given: a tenth of a micron.
pub const RADIUS_MIN: u64 = 100_000_000;

/// The bound below which the radius of a fresh grain lies: half a micron.
pub const RADIUS_MAX: u64 = 500_000_000;

/// The number of silver atoms that activate a fresh grain.
pub const LATENT_THRESHOLD: usize = 20;

/// The probability with which a fresh grain absorbs a photon: nine in ten.
pub const ABSORPTION_PROBABILITY: u64 = 900_000_000;

/// The latent ratio up to which a grain counts as unexposed and does not
/// develop: a millionth.
pub const LATENT_EPSILON: u64 = 1_000;

/// Individual silver halide grain in a photographic emulsion. Radius,
/// sensitivity, probability and developed fraction are fixed-point numbers.
#[derive(Debug, Clone, Copy, PartialEq, Eq, Structural)]
pub struct Halide {
    /// x position of grain in emulsion
    pub x: usize,
    /// y position of grain in emulsion
    pub y: usize,
    /// radius of grain in microns
    pub radius: u64,
    /// number of metallic silver atoms in the grain
    pub silver_count: usize,
    /// number of silver atoms needed to activate grain
    pub latent_threshold: usize,
    /// whether the grain has been activated
    pub activated: bool,
    /// sensitivity of the grain to certain wavelengths of light
    pub spectral_sensitivity: u64,
    /// probability of a photon being absorbed by the grain
    pub absorption_probability: u64,
    /// fraction of maximum development achieved
    pub developed_fraction: u64,
}

/// The ranges from which a scattered grain's radius, threshold and
/// probability are drawn. Each is a pair of a lowest value and a bound that
/// the values stay below.
#[derive(Debug, Clone, Copy)]
pub struct GrainRanges {
    /// radius in microns, fixed point
    pub radius: (u64, u64),
    /// number of silver atoms needed to activate a grain
    pub latent_threshold: (usize, usize),
    /// probability of a photon being absorbed, fixed point
    pub absorption_probability: (u64, u64),
}

impl GrainRanges {
    /// Whether no range is empty, radii and thresholds are positive, and the
    /// probabilities lie above zero and do not exceed one.
    pub open spec fn is_valid(&self) -> bool {
        &&& 0 < self.radius.0 < self.radius.1
        &&& 0 < self.latent_threshold.0 < self.latent_threshold.1
        &&& 0 < self.absorption_probability.0 < self.absorption_probability.1 <= ONE + 1
    }

    /// Whether the grain's radius, threshold and probability lie in the
    /// ranges.
    pub open spec fn admits(&self, grain: Halide) -> bool {
        &&& self.radius.0 <= grain.radius < self.radius.1
        &&& self.latent_threshold.0 <= grain.latent_threshold < self.latent_threshold.1
        &&& self.absorption_probability.0 <= grain.absorption_probability
            < self.absorption_probability.1
    }

    /// The ranges of a common emulsion, for use in contracts.
    pub open spec fn standard_ranges() -> GrainRanges {
        GrainRanges {
            radius: (RADIUS_MIN, RADIUS_MAX),
            latent_threshold: (5, 20),
            absorption_probability: (300_000_000, 600_000_000),
        }
    }

    /// The ranges of a common emulsion: radii from a tenth to half a micron,
    /// thresholds from 5 to 19 atoms, probabilities from 0.3 up to 0.6.
    #[verifier::when_used_as_spec(standard_ranges)]
    pub fn standard() -> (ranges: GrainRanges)
        ensures
            ranges == GrainRanges::standard_ranges(),
            ranges.is_valid(),
    {
        GrainRanges {
            radius: (RADIUS_MIN, RADIUS_MAX),
            latent_threshold: (5, 20),
            absorption_probability: (300_000_000, 600_000_000),
        }
    }
}

/// The number of photons that fall on a grain of the given radius:
/// intensity times the grain's cross-section `pi * radius^2` times the
/// exposure time, each product rounded down in fixed point, and the whole
/// rounded down to a count.
pub open spec fn photons_of(radius: int, intensity: int, exposure_time: int) -> int {
    let area = product_of(PI as int, product_of(radius, radius));
    product_of(product_of(intensity, area), exposure_time) / (ONE as int)
}

impl Halide {
    /// Whether the grain is activated exactly when it holds enough silver.
    pub open spec fn is_consistent(&self) -> bool {
        self.activated == (self.silver_count >= self.latent_threshold)
    }

    /// Whether what is fixed about the grain is that of a grain: a
    /// positive radius, a positive latent threshold and an absorption
    /// probability above zero and not above one.
    pub open spec fn is_valid(&self) -> bool {
        &&& self.radius > 0
        &&& self.latent_threshold > 0
        &&& 0 < self.absorption_probability <= ONE
    }

    /// Whether the grain is fresh: no silver, not activated, not developed.
    pub open spec fn is_fresh(&self) -> bool {
        &&& self.silver_count == 0
        &&& !self.activated
        &&& self.developed_fraction == 0
        &&& self.spectral_sensitivity == 0
    }

    /// The fresh grain of the given radius at `(x, y)`, with a latent
    /// threshold of twenty atoms and an absorption probability of nine in
    /// ten.
    pub open spec fn fresh(x: usize, y: usize, radius: u64) -> Halide {
        Halide {
            x,
            y,
            radius,
            silver_count: 0,
            latent_threshold: LATENT_THRESHOLD,
            activated: false,
            spectral_sensitivity: 0,
            absorption_probability: ABSORPTION_PROBABILITY,
            developed_fraction: 0,
        }
    }

    /// The grain after one photon has arrived, where `draw` is the chance
    /// outcome of that arrival: the photon is absorbed if `draw` lies below
    /// the grain's absorption probability. Absorption adds one silver atom.
    /// A grain whose silver has reached its threshold becomes activated, and
    /// an activated grain takes up nothing more.
    pub open spec fn absorbed(self, draw: u64) -> Halide {
        if self.activated {
            self
        } else if self.silver_count >= self.latent_threshold {
            Halide { activated: true, ..self }
        } else if draw < self.absorption_probability {
            Halide {
                silver_count: (self.silver_count + 1) as usize,
                activated: self.silver_count + 1 >= self.latent_threshold,
                ..self
            }
        } else {
            self
        }
    }

    /// The grain as exposure finds it: a grain that is not activated although
    /// its silver already stands at its threshold becomes activated, and any
    /// other grain is taken as it is.
    pub open spec fn latched(self) -> Halide {
        if !self.activated && self.silver_count >= self.latent_threshold {
            Halide { activated: true, ..self }
        } else {
            self
        }
    }

    /// The grain after an exposure in which photons have arrived with the
    /// chance outcomes `draws`, in this order. Before the first photon the
    /// grain is latched, so a grain that is not activated on entry is
    /// activated afterwards exactly when it holds enough silver, even where
    /// no photon arrives.
    pub open spec fn exposed(self, draws: Seq<u64>) -> Halide
        decreases draws.len(),
    {
        if draws.len() == 0 {
            self.latched()
        } else {
            self.exposed(draws.drop_last()).absorbed(draws.last())
        }
    }

    /// Whether `after` is what exposure to `photons` photons can make of the
    /// grain: there are chance outcomes, one for each photon that arrives,
    /// which take the latched grain to `after`, and photons stop arriving
    /// only when they are used up or the grain is activated.
    pub open spec fn may_expose_to(self, after: Halide, photons: int) -> bool {
        exists|draws: Seq<u64>|
            {
                &&& draws.len() <= photons
                &&& forall|i: int| 0 <= i < draws.len() ==> draws[i] < ONE
                &&& after == #[trigger] self.exposed(draws)
                &&& (after.activated || draws.len() == photons)
            }
    }

    /// Whether the grain could have come out of an exposure trial at pixel
    /// `(x, y)`: a fresh grain with a radius from a tenth to half a micron,
    /// and what exposure to light of the given intensity for the given time
    /// can make of it.
    pub open spec fn is_trial(
        self,
        x: usize,
        y: usize,
        intensity: u64,
        exposure_time: u64,
    ) -> bool {
        &&& RADIUS_MIN <= self.radius < RADIUS_MAX
        &&& Halide::fresh(x, y, self.radius).may_expose_to(
            self,
            photons_of(self.radius as int, intensity as int, exposure_time as int),
        )
    }

    /// The grain with the mean of its own silver count and the other
    /// grain's, rounded down, in place of its own.
    pub open spec fn averaged_with(self, other: Halide) -> Halide {
        Halide { silver_count: ((self.silver_count + other.silver_count) / 2) as usize, ..self }
    }

    /// The grain that is kept of several exposure trials: the first, which
    /// has been averaged with each of the others in turn.
    pub open spec fn pooled(trials: Seq<Halide>) -> Halide
        decreases trials.len(),
    {
        if trials.len() <= 1 {
            trials[0]
        } else {
            Halide::pooled(trials.drop_last()).averaged_with(trials.last())
        }
    }

    /// Whether the grain could be the one that `samples` exposure trials at
    /// pixel `(x, y)` leave: without a trial a fresh grain, and else what is
    /// kept of that many trials.
    pub open spec fn is_sample(
        self,
        x: usize,
        y: usize,
        intensity: u64,
        exposure_time: u64,
        samples: usize,
    ) -> bool {
        if samples == 0 {
            RADIUS_MIN <= self.radius < RADIUS_MAX && self == Halide::fresh(x, y, self.radius)
        } else {
            exists|trials: Seq<Halide>|
                {
                    &&& trials.len() == samples
                    &&& forall|k: int|
                        0 <= k < trials.len() ==> (#[trigger] trials[k]).is_trial(
                            x,
                            y,
                            intensity,
                            exposure_time,
                        )
                    &&& self == #[trigger] Halide::pooled(trials)
                }
        }
    }

    /// The silver that the grain holds after `photons` photons have arrived
    /// and each was absorbed while the grain still took any: all of them, or
    /// as many as it takes to reach the threshold.
    pub open spec fn silver_if_all_absorbed(self, photons: int) -> int {
        if self.activated || self.silver_count >= self.latent_threshold {
            self.silver_count as int
        } else if self.silver_count + photons <= self.latent_threshold {
            self.silver_count + photons
        } else {
            self.latent_threshold as int
        }
    }

    /// The share of its latent threshold that the grain's silver has reached.
    pub open spec fn latent_ratio(self) -> int
        recommends
            self.latent_threshold > 0,
    {
        quotient_of(self.silver_count as int, self.latent_threshold as int)
    }

    /// Whether the grain holds a latent image that can develop: its silver
    /// is more than a millionth of its threshold.
    pub open spec fn has_latent_image(self) -> bool {
        self.silver_count * ONE > LATENT_EPSILON * self.latent_threshold
    }

    /// How much a development step of length `dt` adds to the developed
    /// fraction, before the ceiling is applied.
    pub open spec fn development_gain(self, dev: Developer, dt: int) -> int {
        product_of(product_of(dev.strength as int, self.latent_ratio()), dt)
    }

    /// The grain after one development step of length `dt`. A grain without
    /// a latent image, whose latent ratio is a millionth or less, stays as it
    /// is. Any other gains `strength * latent_ratio * dt` of developed
    /// fraction, up to the developer's ceiling.
    pub open spec fn developed(self, dev: Developer, dt: int) -> Halide {
        if !self.has_latent_image() {
            self
        } else {
            let grown = sum_of(self.developed_fraction as int, self.development_gain(dev, dt));
            Halide {
                developed_fraction: if grown > dev.max_development {
                    dev.max_development
                } else {
                    grown as u64
                },
                ..self
            }
        }
    }

    /// The grain after development steps of the lengths `steps`, in this
    /// order.
    pub open spec fn developed_through(self, dev: Developer, steps: Seq<u64>) -> Halide
        decreases steps.len(),
    {
        if steps.len() == 0 {
            self
        } else {
            self.developed_through(dev, steps.drop_last()).developed(dev, steps.last() as int)
        }
    }

    /// The grain after `steps` development steps of length `dt` each.
    pub open spec fn developed_repeatedly(self, dev: Developer, dt: int, steps: nat) -> Halide
        decreases steps,
    {
        if steps == 0 {
            self
        } else {
            self.developed_repeatedly(dev, dt, (steps - 1) as nat).developed(dev, dt)
        }
    }

    /// A fresh grain at `(x, y)`: a radius drawn from a tenth to half a
    /// micron, a latent threshold of twenty atoms and an absorption
    /// probability of nine in ten.
    pub fn new(x: usize, y: usize) -> (grain: Halide)
        ensures
            grain == Halide::fresh(x, y, grain.radius),
            RADIUS_MIN <= grain.radius < RADIUS_MAX,
            grain.is_valid(),
            grain.is_fresh(),
    {
        let radius: u64 = draw_between(RADIUS_MIN, RADIUS_MAX);
        Halide {
            x,
            y,
            radius,
            silver_count: 0,
            latent_threshold: LATENT_THRESHOLD,
            activated: false,
            spectral_sensitivity: 0,
            absorption_probability: ABSORPTION_PROBABILITY,
            developed_fraction: 0,
        }
    }

    /// A fresh grain somewhere on a canvas of the given size, with radius,
    /// latent threshold and absorption probability drawn from `ranges`.
    pub fn scattered(width: u32, height: u32, ranges: &GrainRanges) -> (grain: Halide)
        requires
            width > 0,
            height > 0,
            ranges.is_valid(),
        ensures
            grain.x < width,
            grain.y < height,
            ranges.admits(grain),
            grain.is_valid(),
            grain.is_fresh(),
    {
        let x: u64 = draw_between(0, width as u64);
        let y: u64 = draw_between(0, height as u64);
        let radius: u64 = draw_between(ranges.radius.0, ranges.radius.1);
        let latent_threshold: u64 = draw_between(
            ranges.latent_threshold.0 as u64,
            ranges.latent_threshold.1 as u64,
        );
        let absorption_probability: u64 = draw_between(
            ranges.absorption_probability.0,
            ranges.absorption_probability.1,
        );
        Halide {
            x: x as usize,
            y: y as usize,
            radius,
            silver_count: 0,
            latent_threshold: latent_threshold as usize,
            activated: false,
            spectral_sensitivity: 0,
            absorption_probability,
            developed_fraction: 0,
        }
    }

    /// The number of photons that fall on the grain under light of the given
    /// intensity for the given time.
    pub fn photon_count(&self, intensity: u64, exposure_time: u64) -> (photons: u64)
        ensures
            photons == photons_of(self.radius as int, intensity as int, exposure_time as int),
    {
        let area: u64 = product(PI, product(self.radius, self.radius));
        product(product(intensity, area), exposure_time) / ONE
    }

    /// Lets one photon arrive at the grain, with `draw` as the chance outcome
    /// of the arrival.
    pub fn absorb(&mut self, draw: u64)
        ensures
            *final(self) == old(self).absorbed(draw),
    {
        if self.activated {
        } else if self.silver_count >= self.latent_threshold {
            self.activated = true;
        } else if draw < self.absorption_probability {
            self.silver_count = self.silver_count + 1;
            self.activated = self.silver_count >= self.latent_threshold;
        }
    }

    /// Exposes the grain to light of the given intensity for the given time.
    /// An activated grain is left as it is. Any other is first activated if
    /// its silver already stands at its threshold. Then one photon after the
    /// other arrives, each absorbed with the grain's absorption probability,
    /// until the grain is activated or the photons are used up.
    pub fn expose(&mut self, intensity: u64, exposure_time: u64)
        ensures
            old(self).activated ==> *final(self) == *old(self),
            !old(self).activated ==> final(self).is_consistent(),
            old(self).is_consistent() ==> final(self).is_consistent(),
            old(self).may_expose_to(
                *final(self),
                photons_of(old(self).radius as int, intensity as int, exposure_time as int),
            ),
            *final(self) == (Halide {
                silver_count: final(self).silver_count,
                activated: final(self).activated,
                ..*old(self)
            }),
            old(self).silver_count <= final(self).silver_count,
            final(self).silver_count <= old(self).silver_count + photons_of(
                old(self).radius as int,
                intensity as int,
                exposure_time as int,
            ),
            final(self).silver_count <= old(self).silver_count || final(self).silver_count
                <= old(self).latent_threshold,
            old(self).absorption_probability >= ONE ==> final(self).silver_count == old(self)
                .silver_if_all_absorbed(
                photons_of(old(self).radius as int, intensity as int, exposure_time as int),
            ),
            old(self).absorption_probability == 0 ==> final(self).silver_count == old(self)
                .silver_count,
    {
        let photons: u64 = self.photon_count(intensity, exposure_time);
        if !self.activated && self.silver_count >= self.latent_threshold {
            self.activated = true;
        }
        let ghost mut draws: Seq<u64> = Seq::empty();
        let mut arrived: u64 = 0;
        while arrived < photons && !self.activated
            invariant
                arrived <= photons,
                draws.len() == arrived,
                forall|i: int| 0 <= i < draws.len() ==> draws[i] < ONE,
                *self == old(self).exposed(draws),
                *self == (Halide {
                    silver_count: self.silver_count,
                    activated: self.activated,
                    ..*old(self)
                }),
                old(self).silver_count <= self.silver_count <= old(self).silver_count + arrived,
                self.silver_count <= old(self).silver_count || self.silver_count
                    <= old(self).latent_threshold,
                old(self).activated ==> *self == *old(self),
                !old(self).activated ==> self.is_consistent(),
                old(self).absorption_probability >= ONE && !self.activated ==> self.silver_count
                    == old(self).silver_count + arrived,
                old(self).absorption_probability == 0 ==> self.silver_count == old(self)
                    .silver_count,
            decreases photons - arrived,
        {
            let draw: u64 = draw_between(0, ONE);
            proof {
                assert(draws.push(draw).drop_last() =~= draws);
                draws = draws.push(draw);
            }
            self.absorb(draw);
            arrived += 1;
        }
        assert(*self == old(self).exposed(draws));
    }

    /// Takes the grain through one development step of length `dt`.
    pub fn develop_grain(grain: &mut Halide, dev: &Developer, dt: u64)
        requires
            old(grain).latent_threshold > 0,
        ensures
            *final(grain) == old(grain).developed(*dev, dt as int),
            old(grain).developed_fraction <= dev.max_development ==> old(grain).developed_fraction
                <= final(grain).developed_fraction <= dev.max_development,
    {
        let silver: u128 = grain.silver_count as u128;
        let threshold: u128 = grain.latent_threshold as u128;
        assert(silver * ONE <= u64::MAX * ONE && LATENT_EPSILON * threshold <= LATENT_EPSILON
            * u64::MAX) by (nonlinear_arith)
            requires
                silver <= u64::MAX,
                threshold <= u64::MAX,
        ;
        if silver * (ONE as u128) > (LATENT_EPSILON as u128) * threshold {
            let latent_ratio: u64 = quotient(
                grain.silver_count as u64,
                grain.latent_threshold as u64,
            );
            let rate: u64 = product(dev.strength, latent_ratio);
            let grown: u64 = sum(grain.developed_fraction, product(rate, dt));
            grain.developed_fraction = if grown > dev.max_development {
                dev.max_development
            } else {
                grown
            };
        }
    }

    /// A fresh grain at `(x, y)`, exposed to light of the given intensity
    /// for the given time.
    pub fn from_pixel(x: usize, y: usize, intensity: u64, exposure_time: u64) -> (grain: Halide)
        ensures
            grain.is_trial(x, y, intensity, exposure_time),
            grain == (Halide {
                silver_count: grain.silver_count,
                activated: grain.activated,
                ..Halide::fresh(x, y, grain.radius)
            }),
            grain.silver_count <= LATENT_THRESHOLD,
            grain.silver_count <= photons_of(
                grain.radius as int,
                intensity as int,
                exposure_time as int,
            ),
            grain.is_consistent(),
            grain.is_valid(),
    {
        let mut grain = Halide::new(x, y);
        grain.expose(intensity, exposure_time);
        grain
    }

    /// The grain of pixel `(x, y)` from `samples` exposure trials. Each trial
    /// is a fresh grain exposed to light of the given intensity for the given
    /// time. The first trial's grain is kept and takes, for each further
    /// trial in turn, the mean of its own silver count and the trial's.
    /// Without a trial the grain stays fresh.
    pub fn sampled(x: usize, y: usize, intensity: u64, exposure_time: u64, samples: usize) -> (grain:
        Halide)
        ensures
            grain.is_sample(x, y, intensity, exposure_time, samples),
            RADIUS_MIN <= grain.radius < RADIUS_MAX,
            grain == (Halide {
                silver_count: grain.silver_count,
                activated: grain.activated,
                ..Halide::fresh(x, y, grain.radius)
            }),
            grain.silver_count <= LATENT_THRESHOLD,
            grain.is_valid(),
            samples <= 1 ==> grain.is_consistent(),
    {
        if samples == 0 {
            return Halide::new(x, y);
        }
        let mut grain = Halide::from_pixel(x, y, intensity, exposure_time);
        let ghost mut trials: Seq<Halide> = seq![grain];
        let mut trial: usize = 1;
        while trial < samples
            invariant
                1 <= trial <= samples,
                trials.len() == trial,
                forall|k: int|
                    0 <= k < trials.len() ==> (#[trigger] trials[k]).is_trial(
                        x,
                        y,
                        intensity,
                        exposure_time,
                    ),
                grain == Halide::pooled(trials),
                RADIUS_MIN <= grain.radius < RADIUS_MAX,
                grain == (Halide {
                    silver_count: grain.silver_count,
                    activated: grain.activated,
                    ..Halide::fresh(x, y, grain.radius)
                }),
                grain.silver_count <= LATENT_THRESHOLD,
                trial == 1 ==> grain.is_consistent(),
            decreases samples - trial,
        {
            let sub = Halide::from_pixel(x, y, intensity, exposure_time);
            proof {
                assert(trials.push(sub).drop_last() =~= trials);
                trials = trials.push(sub);
            }
            grain.average_with_halide(&sub);
            trial += 1;
        }
        grain
    }

    /// Replaces the grain's silver count by its mean with the other grain's,
    /// rounded down. Nothing else changes.
    pub fn average_with_halide(&mut self, other: &Halide)
        ensures
            *final(self) == old(self).averaged_with(*other),
            final(self).silver_count == (old(self).silver_count + other.silver_count) / 2,
    {
        let halves: usize = self.silver_count / 2 + other.silver_count / 2;
        let carry: usize = (self.silver_count % 2 + other.silver_count % 2) / 2;
        self.silver_count = halves + carry;
    }
}

/// Exposure respects activation, whatever the chance outcomes and however
/// many photons arrive, none included: an activated grain stays as it is,
/// and any other grain is activated afterwards exactly when it holds enough
/// silver.
pub proof fn lemma_exposure_respects_activation(grain: Halide, draws: Seq<u64>)
    ensures
        grain.activated ==> grain.exposed(draws) == grain,
        !grain.activated ==> grain.exposed(draws).is_consistent(),
        grain.is_consistent() ==> grain.exposed(draws).is_consistent(),
        grain.exposed(draws).developed_fraction == grain.developed_fraction,
    decreases draws.len(),
{
    if draws.len() > 0 {
        lemma_exposure_respects_activation(grain, draws.drop_last());
    }
}

/// A grain that needs a single atom and absorbs every photon is activated
/// by the first photon that arrives, and takes up that one atom.
pub proof fn lemma_first_photon_activates(grain: Halide, after: Halide, photons: int)
    requires
        !grain.activated,
        grain.silver_count == 0,
        grain.latent_threshold == 1,
        grain.absorption_probability >= ONE,
        photons >= 1,
        grain.may_expose_to(after, photons),
    ensures
        after == (Halide { silver_count: 1, activated: true, ..grain }),
{
    let draws = choose|draws: Seq<u64>|
        {
            &&& draws.len() <= photons
            &&& forall|i: int| 0 <= i < draws.len() ==> draws[i] < ONE
            &&& after == #[trigger] grain.exposed(draws)
            &&& (after.activated || draws.len() == photons)
        };
    lemma_sure_photons(grain, draws);
}

/// What photons that are all absorbed make of a grain that needs a single
/// atom.
proof fn lemma_sure_photons(grain: Halide, draws: Seq<u64>)
    requires
        !grain.activated,
        grain.silver_count == 0,
        grain.latent_threshold == 1,
        grain.absorption_probability >= ONE,
        forall|i: int| 0 <= i < draws.len() ==> draws[i] < ONE,
    ensures
        draws.len() == 0 ==> grain.exposed(draws) == grain,
        draws.len() >= 1 ==> grain.exposed(draws) == (Halide {
            silver_count: 1,
            activated: true,
            ..grain
        }),
    decreases draws.len(),
{
    if draws.len() > 0 {
        lemma_sure_photons(grain, draws.drop_last());
    }
}

/// However many development steps a grain goes through, and of whatever
/// lengths, its developed fraction never falls and never passes the
/// developer's ceiling, if it started at or below it.
pub proof fn lemma_development_stays_in_range(grain: Halide, dev: Developer, steps: Seq<u64>)
    requires
        grain.latent_threshold > 0,
        grain.developed_fraction <= dev.max_development,
    ensures
        grain.developed_fraction <= grain.developed_through(dev, steps).developed_fraction
            <= dev.max_development,
        grain.developed_through(dev, steps) == (Halide {
            developed_fraction: grain.developed_through(dev, steps).developed_fraction,
            ..grain
        }),
    decreases steps.len(),
{
    if steps.len() > 0 {
        lemma_development_stays_in_range(grain, dev, steps.drop_last());
        let before = grain.developed_through(dev, steps.drop_last());
        if before.has_latent_image() {
            lemma_developed_fraction(before, dev, steps.last() as int);
        }
    }
}

/// The longer the exposure, the more photons arrive.
pub proof fn lemma_photons_grow_with_time(radius: u64, intensity: u64, shorter: u64, longer: u64)
    requires
        shorter <= longer,
    ensures
        0 <= photons_of(radius as int, intensity as int, shorter as int) <= photons_of(
            radius as int,
            intensity as int,
            longer as int,
        ),
{
    let square = product_of(radius as int, radius as int);
    lemma_product_monotone(radius as int, radius as int, radius as int, radius as int);
    lemma_product_monotone(PI as int, square, PI as int, square);
    let area = product_of(PI as int, square);
    lemma_product_monotone(intensity as int, area, intensity as int, area);
    let flux = product_of(intensity as int, area);
    lemma_product_monotone(flux, shorter as int, flux, longer as int);
    lemma_div_is_ordered(
        product_of(flux, shorter as int),
        product_of(flux, longer as int),
        ONE as int,
    );
    lemma_div_pos_is_pos(product_of(flux, shorter as int), ONE as int);
}

/// Under the same chance outcomes, a grain that receives more photons never
/// ends up with less silver: what it holds after the first `n` arrivals it
/// still holds after all of them.
pub proof fn lemma_silver_grows_with_photons(grain: Halide, draws: Seq<u64>, n: int)
    requires
        0 <= n <= draws.len(),
    ensures
        grain.exposed(draws.take(n)).silver_count <= grain.exposed(draws).silver_count,
    decreases draws.len() - n,
{
    if n == draws.len() {
        assert(draws.take(n) =~= draws);
    } else {
        lemma_silver_grows_with_photons(grain, draws, n + 1);
        assert(draws.take(n + 1).drop_last() =~= draws.take(n));
    }
}

/// What a development step makes of the developed fraction of an exposed
/// grain, in plain integers: the gain is added and the ceiling applied, and
/// no intermediate saturation shows in the result.
proof fn lemma_developed_fraction(grain: Halide, dev: Developer, dt: int) -> (gain: int)
    requires
        dt >= 0,
        grain.latent_threshold > 0,
        grain.has_latent_image(),
    ensures
        gain == product_of(dev.strength as int, grain.latent_ratio()) * dt / (ONE as int),
        gain >= 0,
        grain.developed(dev, dt).developed_fraction == if grain.developed_fraction + gain
            > dev.max_development {
            dev.max_development as int
        } else {
            grain.developed_fraction + gain
        },
        grain.developed(dev, dt) == (Halide {
            developed_fraction: grain.developed(dev, dt).developed_fraction,
            ..grain
        }),
{
    let rate = product_of(dev.strength as int, grain.latent_ratio());
    crate::fixed::lemma_quotient_monotone(
        0,
        grain.silver_count as int,
        grain.latent_threshold as int,
    );
    lemma_product_monotone(0, 0, dev.strength as int, grain.latent_ratio());
    assert(0 <= rate * dt) by (nonlinear_arith)
        requires
            0 <= rate,
            0 <= dt,
    ;
    lemma_div_pos_is_pos(rate * dt, ONE as int);
    rate * dt / (ONE as int)
}

/// Development is linear in time, up to rounding: one step of length
/// `steps * dt` takes the developed fraction as far as `steps` steps of
/// length `dt` do, or further by less than one billionth for each step.
pub proof fn lemma_development_is_linear(grain: Halide, dev: Developer, dt: u64, steps: nat)
    requires
        grain.latent_threshold > 0,
        grain.developed_fraction <= dev.max_development,
        steps >= 1,
    ensures
        grain.developed_repeatedly(dev, dt as int, steps).developed_fraction <= grain.developed(
            dev,
            steps * dt,
        ).developed_fraction,
        grain.developed(dev, steps * dt).developed_fraction < grain.developed_repeatedly(
            dev,
            dt as int,
            steps,
        ).developed_fraction + steps,
{
    lemma_repeated_development(grain, dev, dt, steps);
    if grain.has_latent_image() {
        let rate = product_of(dev.strength as int, grain.latent_ratio());
        let gain = lemma_developed_fraction(grain, dev, dt as int);
        assert(0 <= steps * dt) by (nonlinear_arith);
        let whole = lemma_developed_fraction(grain, dev, steps * dt);
        let rest = (rate * dt) % (ONE as int);
        lemma_fundamental_div_mod(rate * dt, ONE as int);
        assert(rate * (steps * dt) == steps * gain * ONE + steps * rest) by (nonlinear_arith)
            requires
                rate * dt == ONE * gain + rest,
        ;
        assert(0 <= steps * rest < steps * ONE) by (nonlinear_arith)
            requires
                0 <= rest < ONE,
                steps >= 1,
        ;
        vstd::arithmetic::div_mod::lemma_fundamental_div_mod_converse(
            steps * gain * ONE,
            ONE as int,
            steps * gain,
            0,
        );
        lemma_div_is_ordered(steps * gain * ONE, rate * (steps * dt), ONE as int);
        assert(steps * gain * ONE + steps * rest < (steps * gain + steps) * ONE)
            by (nonlinear_arith)
            requires
                steps * rest < steps * ONE,
        ;
        if whole >= steps * gain + steps {
            lemma_fundamental_div_mod(rate * (steps * dt), ONE as int);
            assert(ONE * whole >= (steps * gain + steps) * ONE) by (nonlinear_arith)
                requires
                    whole >= steps * gain + steps,
            ;
        }
    }
}

/// Repeated development steps add up until the ceiling is reached, and touch
/// nothing but the developed fraction.
proof fn lemma_repeated_development(grain: Halide, dev: Developer, dt: u64, steps: nat)
    requires
        grain.latent_threshold > 0,
        grain.developed_fraction <= dev.max_development,
    ensures
        grain.developed_repeatedly(dev, dt as int, steps) == (Halide {
            developed_fraction: grain.developed_repeatedly(
                dev,
                dt as int,
                steps,
            ).developed_fraction,
            ..grain
        }),
        !grain.has_latent_image() ==> grain.developed_repeatedly(dev, dt as int, steps) == grain
            && grain.developed(dev, steps * dt) == grain,
        grain.has_latent_image() ==> grain.developed_repeatedly(
            dev,
            dt as int,
            steps,
        ).developed_fraction == ({
            let sum = grain.developed_fraction + steps * (product_of(
                dev.strength as int,
                grain.latent_ratio(),
            ) * dt / (ONE as int));
            if sum > dev.max_development {
                dev.max_development as int
            } else {
                sum
            }
        }),
    decreases steps,
{
    if steps > 0 {
        let before = grain.developed_repeatedly(dev, dt as int, (steps - 1) as nat);
        lemma_repeated_development(grain, dev, dt, (steps - 1) as nat);
        assert(before.latent_ratio() == grain.latent_ratio());
        assert(before.has_latent_image() == grain.has_latent_image());
        if grain.has_latent_image() {
            let gain = lemma_developed_fraction(before, dev, dt as int);
            assert(steps * gain == (steps - 1) * gain + gain) by (nonlinear_arith);
            assert(0 <= (steps - 1) * gain) by (nonlinear_arith)
                requires
                    steps >= 1,
                    gain >= 0,
            ;
        }
    }
}

} // verus!
