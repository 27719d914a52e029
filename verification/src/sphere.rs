use crate::intersection::{Intersection, Intersections};
use crate::material::Material;
use crate::matrix::Matrix;
use crate::scalar::Scalar;
use vstd::prelude::*;

verus! {

/// The unit sphere at the origin of its own space, placed in the world by a
/// transform and covered with a material.
#[derive(Clone, Copy, Debug, PartialEq, Eq)]
pub struct Sphere {
    pub transform: Matrix,
    pub material: Material,
}

impl Sphere {
    /// The unit sphere placed by `transform` and covered with `material`.
    pub fn new(transform: Matrix, material: Material) -> (r: Sphere)
        ensures
            r == (Sphere { transform, material }),
    {
        Sphere { transform, material }
    }

    /// The crossings of a ray with this sphere, from the quadratic that
    /// the ray solves in the sphere's own space.
    ///
    /// A negative `discriminant` means that the ray misses. Otherwise the
    /// ray crosses at the two roots, recorded in the order given: `t1` is
    /// the root with the minus sign, `t2` the one with the plus sign.
    pub fn intersect(&self, discriminant: Scalar, t1: Scalar, t2: Scalar) -> (r: Intersections)
        ensures
            r@ == if discriminant.less(Scalar::zero()) {
                Seq::<Intersection>::empty()
            } else {
                seq![
                    (Intersection { t: t1, object: *self }),
                    (Intersection { t: t2, object: *self }),
                ]
            },
    {
        let mut xs = Intersections::new();
        if !discriminant.lt(Scalar::zero()) {
            xs.push(Intersection::new(t1, *self));
            xs.push(Intersection::new(t2, *self));
            proof {
                assert(xs@ =~= seq![
                    (Intersection { t: t1, object: *self }),
                    (Intersection { t: t2, object: *self }),
                ]);
            }
        }
        xs
    }

    /// Replaces the transform and keeps the material.
    pub fn set_transform(&mut self, t: Matrix)
        ensures
            *final(self) == (Sphere { transform: t, material: old(self).material }),
    {
        self.transform = t;
    }
}

impl Default for Sphere {
    /// Identity transform and default material.
    fn default() -> (r: Sphere)
        ensures
            r.transform.is_identity(),
            r.material == Material::spec_default(),
    {
        Sphere::new(Matrix::I(), Material::default())
    }
}

} // verus!
