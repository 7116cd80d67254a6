//! The developer bath.
use vstd::prelude::*;

verus! {

/// A developer: how fast it works and how far it can take a grain. Both are
/// fixed-point numbers.
#[derive(Debug, Clone, Copy, PartialEq, Eq, Structural)]
pub struct Developer {
    /// The rate constant of development.
    pub strength: u64,
    /// The ceiling of a grain's developed fraction.
    pub max_development: u64,
}

impl Developer {
    /// Whether rate and ceiling are both positive.
    pub open spec fn is_valid(&self) -> bool {
        self.strength > 0 && self.max_development > 0
    }
}

} // verus!
