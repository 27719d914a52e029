use crate::scalar::{Scalar, ONE_BITS};
use vstd::prelude::*;

verus! {

/// An RGB colour. The channels are not clamped: intermediate results may
/// leave the range from zero to one.
///
/// The derived `==` compares the three bit patterns. Two colours are equal
/// within the tolerance where [`Scalar::is_negligible`] holds of the
/// difference of each pair of channels, which the caller computes.
#[derive(Clone, Copy, Debug, PartialEq, Eq, Structural)]
pub struct Color {
    pub red: Scalar,
    pub green: Scalar,
    pub blue: Scalar,
}

impl Color {
    /// The colour with the three channels given as bit patterns.
    pub open spec fn of_bits(red: u32, green: u32, blue: u32) -> Color {
        Color {
            red: Scalar { bits: red },
            green: Scalar { bits: green },
            blue: Scalar { bits: blue },
        }
    }

    /// All channels zero.
    pub open spec fn spec_black() -> Color {
        Color::of_bits(0, 0, 0)
    }

    /// The colour with the given channels.
    pub fn new(red: Scalar, green: Scalar, blue: Scalar) -> (r: Color)
        ensures
            r == (Color { red, green, blue }),
    {
        Color { red, green, blue }
    }

    /// All channels zero.
    #[verifier::when_used_as_spec(spec_black)]
    pub fn black() -> (r: Color)
        ensures
            r == Color::spec_black(),
    {
        Color::new(Scalar::zero(), Scalar::zero(), Scalar::zero())
    }

    /// All channels one.
    pub fn white() -> (r: Color)
        ensures
            r == Color::of_bits(ONE_BITS, ONE_BITS, ONE_BITS),
    {
        Color::new(Scalar::one(), Scalar::one(), Scalar::one())
    }

    /// Pure red.
    pub fn red() -> (r: Color)
        ensures
            r == Color::of_bits(ONE_BITS, 0, 0),
    {
        Color::new(Scalar::one(), Scalar::zero(), Scalar::zero())
    }

    /// Pure green.
    pub fn green() -> (r: Color)
        ensures
            r == Color::of_bits(0, ONE_BITS, 0),
    {
        Color::new(Scalar::zero(), Scalar::one(), Scalar::zero())
    }

    /// Pure blue.
    pub fn blue() -> (r: Color)
        ensures
            r == Color::of_bits(0, 0, ONE_BITS),
    {
        Color::new(Scalar::zero(), Scalar::zero(), Scalar::one())
    }
}

} // verus!
