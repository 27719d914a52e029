use crate::scalar::Scalar;
use vstd::prelude::*;

verus! {

/// A homogeneous 4-component value: a point where `w` is one, a free vector
/// where `w` is zero.
///
/// The derived `==` compares the four bit patterns. Two tuples are equal
/// within the tolerance where [`Scalar::is_negligible`] holds of the
/// difference of each pair of components, which the caller computes.
#[derive(Clone, Copy, Debug, PartialEq, Eq, Structural)]
pub struct Tuple {
    pub x: Scalar,
    pub y: Scalar,
    pub z: Scalar,
    pub w: Scalar,
}

/// The free vector with the given components.
pub fn vector(x: Scalar, y: Scalar, z: Scalar) -> (r: Tuple)
    ensures
        r == (Tuple { x, y, z, w: Scalar::zero() }),
        r.vector_like(),
        !r.point_like(),
{
    Tuple::new(x, y, z, Scalar::zero())
}

/// The point with the given coordinates.
pub fn point(x: Scalar, y: Scalar, z: Scalar) -> (r: Tuple)
    ensures
        r == (Tuple { x, y, z, w: Scalar::one() }),
        r.point_like(),
        !r.vector_like(),
{
    Tuple::new(x, y, z, Scalar::one())
}

impl Tuple {
    /// Whether `w` is numerically zero, of either sign.
    pub open spec fn vector_like(self) -> bool {
        self.w.same(Scalar::zero())
    }

    /// Whether `w` is numerically one.
    pub open spec fn point_like(self) -> bool {
        self.w.same(Scalar::one())
    }

    /// The tuple with every component negated.
    pub open spec fn negated(self) -> Tuple {
        Tuple {
            x: self.x.negated(),
            y: self.y.negated(),
            z: self.z.negated(),
            w: self.w.negated(),
        }
    }

    /// The tuple with the given components.
    pub fn new(x: Scalar, y: Scalar, z: Scalar, w: Scalar) -> (r: Tuple)
        ensures
            r == (Tuple { x, y, z, w }),
    {
        Tuple { x, y, z, w }
    }

    /// Whether the tuple is a free vector: `w == 0.0`.
    pub fn is_vector(&self) -> (r: bool)
        ensures
            r == self.vector_like(),
    {
        self.w.num_eq(Scalar::zero())
    }

    /// Whether the tuple is a point: `w == 1.0`.
    pub fn is_point(&self) -> (r: bool)
        ensures
            r == self.point_like(),
    {
        self.w.num_eq(Scalar::one())
    }

    /// `-self`, component by component.
    pub fn neg(self) -> (r: Tuple)
        ensures
            r == self.negated(),
    {
        Tuple { x: self.x.neg(), y: self.y.neg(), z: self.z.neg(), w: self.w.neg() }
    }

    /// The tuple with `w` set to positive zero, which makes it a vector.
    pub fn as_vector(self) -> (r: Tuple)
        ensures
            r == (Tuple { w: Scalar::zero(), ..self }),
            r.vector_like(),
    {
        Tuple { x: self.x, y: self.y, z: self.z, w: Scalar::zero() }
    }
}

/// A vector stays a vector under negation; a point does not stay a point.
pub proof fn lemma_negated_vector(t: Tuple)
    ensures
        t.vector_like() == t.negated().vector_like(),
        t.point_like() ==> !t.negated().point_like(),
{
}

} // verus!
