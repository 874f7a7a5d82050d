//! Weighting strategy for neighbour contributions.

use vstd::prelude::*;

verus! {

/// How much each neighbour counts in a vote.
#[derive(Clone, Copy, Debug, PartialEq, Eq, Structural)]
pub enum Weights {
    /// All neighbours contribute equally.
    Uniform,
    /// Weight neighbours by inverse distance.
    Distance,
}

impl Default for Weights {
    fn default() -> (r: Self)
        ensures
            r is Uniform,
    {
        Weights::Uniform
    }
}

} // verus!
