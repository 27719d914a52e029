use crate::tuple::Tuple;
use vstd::prelude::*;

verus! {

/// A half-line: the point it starts at and the vector it follows.
#[derive(Clone, Copy, Debug, PartialEq, Eq, Structural)]
pub struct Ray {
    pub origin: Tuple,
    pub direction: Tuple,
}

impl Ray {
    /// The ray that starts at `origin` and follows `direction`.
    pub fn new(origin: Tuple, direction: Tuple) -> (r: Ray)
        ensures
            r == (Ray { origin, direction }),
    {
        Ray { origin, direction }
    }

    /// The vector from a point on the ray back to the eye: the direction
    /// negated.
    pub fn eye_vector(&self) -> (r: Tuple)
        ensures
            r == self.direction.negated(),
    {
        self.direction.neg()
    }
}

} // verus!
