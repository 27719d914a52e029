use crate::color::Color;
use crate::tuple::Tuple;
use vstd::prelude::*;

verus! {

/// A point light: no size, one position, one intensity.
#[derive(Clone, Copy, Debug, PartialEq, Eq, Structural)]
pub struct Light {
    pub position: Tuple,
    pub intensity: Color,
}

impl Light {
    /// The light at `position` that shines with `intensity`.
    pub fn new(position: Tuple, intensity: Color) -> (r: Light)
        ensures
            r == (Light { position, intensity }),
    {
        Light { position, intensity }
    }
}

} // verus!
