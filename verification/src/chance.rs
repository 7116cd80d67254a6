//! Random draws.
use rand::Rng;
use vstd::prelude::*;

verus! {

/// Draws an integer from `low..high` with `rand`'s thread-local generator:
/// `Rng::random_range` on `rand::rng()`. The draw depends on chance, so the
/// contract claims only what holds of every outcome, that it lies in the
/// range. `random_range` panics on an empty range, which is left out.
#[verifier::external_body]
pub(crate) fn draw_between(low: u64, high: u64) -> (draw: u64)
    requires
        low < high,
    ensures
        low <= draw < high,
{
    rand::rng().random_range(low..high)
}

} // verus!
