use vstd::prelude::*;

verus! {

/// Why a set of orbital elements was refused.
#[derive(Clone, Copy, Debug, PartialEq, Eq, Structural)]
pub enum OrbitError {
    /// The eccentricity lies outside `[0, 1)`, the semi-major axis outside
    /// `(0, MAX_AXIS]`, or the period is not positive.
    InvalidElements,
}

} // verus!
