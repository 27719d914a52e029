use crate::color::Color;
use crate::intersection::{
    all_numbers, ascending, nearest, sorted_by_t, Intersection, Intersections,
};
use crate::light::Light;
use crate::material::{Material, DEFAULT_AMBIENT_BITS, DEFAULT_DIFFUSE_BITS, DEFAULT_SHININESS_BITS};
use crate::matrix::Matrix;
use crate::scalar::{Scalar, ONE_BITS};
use crate::sphere::Sphere;
use crate::tuple::{point, Tuple};
use vstd::prelude::*;

verus! {

/// Bit pattern of `10.0`.
pub const TEN_BITS: u32 = 0x4120_0000;

/// Bit pattern of `-10.0`.
pub const MINUS_TEN_BITS: u32 = 0xc120_0000;

/// Bit pattern of `0.5`.
pub const HALF_BITS: u32 = 0x3f00_0000;

/// Bit pattern of `0.8`.
pub const OUTER_RED_BITS: u32 = 0x3f4c_cccd;

/// Bit pattern of `0.6`.
pub const OUTER_BLUE_BITS: u32 = 0x3f19_999a;

/// Bit pattern of `0.7`.
pub const OUTER_DIFFUSE_BITS: u32 = 0x3f33_3333;

/// Bit pattern of `0.2`.
pub const OUTER_SPECULAR_BITS: u32 = 0x3e4c_cccd;

/// One light and the spheres it shines on.
#[derive(Debug)]
pub struct World {
    pub light: Light,
    pub objects: Vec<Sphere>,
}

/// The entries of all the collections, one collection after the other.
pub open spec fn joined(found: Seq<Intersections>) -> Seq<Intersection>
    decreases found.len(),
{
    if found.len() == 0 {
        Seq::empty()
    } else {
        joined(found.drop_last()) + found.last()@
    }
}

impl World {
    /// The light of the default world: white, at `(-10, 10, -10)`.
    pub open spec fn default_light() -> Light {
        Light {
            position: Tuple {
                x: Scalar { bits: MINUS_TEN_BITS },
                y: Scalar { bits: TEN_BITS },
                z: Scalar { bits: MINUS_TEN_BITS },
                w: Scalar { bits: ONE_BITS },
            },
            intensity: Color::of_bits(ONE_BITS, ONE_BITS, ONE_BITS),
        }
    }

    /// The material of the outer sphere of the default world: colour
    /// `(0.8, 1.0, 0.6)`, diffuse 0.7, specular 0.2, the rest as by default.
    pub open spec fn outer_material() -> Material {
        Material {
            color: Color::of_bits(OUTER_RED_BITS, ONE_BITS, OUTER_BLUE_BITS),
            ambient: Scalar { bits: DEFAULT_AMBIENT_BITS },
            diffuse: Scalar { bits: OUTER_DIFFUSE_BITS },
            specular: Scalar { bits: OUTER_SPECULAR_BITS },
            shininess: Scalar { bits: DEFAULT_SHININESS_BITS },
        }
    }

    /// The crossings that the objects report for one ray, gathered in the
    /// order of the objects and then sorted by `t`.
    pub fn intersect_world(found: &Vec<Intersections>) -> (r: Intersections)
        ensures
            r@ == sorted_by_t(joined(found@)),
            all_numbers(joined(found@)) ==> ascending(r@) && nearest(r@) == nearest(
                joined(found@),
            ),
    {
        let mut xs = Intersections::new();
        let mut i: usize = 0;
        while i < found.len()
            invariant
                i <= found@.len(),
                xs@ == joined(found@.take(i as int)),
            decreases found@.len() - i,
        {
            let part = &found[i];
            let ghost before = xs@;
            let mut j: usize = 0;
            while j < part.len()
                invariant
                    j <= part@.len(),
                    xs@ == before + part@.take(j as int),
                decreases part@.len() - j,
            {
                xs.push(part.get(j));
                proof {
                    assert(part@.take(j + 1) =~= part@.take(j as int).push(part@[j as int]));
                    assert(xs@ =~= before + part@.take(j + 1));
                }
                j = j + 1;
            }
            proof {
                assert(part@.take(part@.len() as int) =~= part@);
                assert(found@.take(i + 1).drop_last() =~= found@.take(i as int));
                assert(found@.take(i + 1).last() == found@[i as int]);
            }
            i = i + 1;
        }
        proof {
            assert(found@.take(found@.len() as int) =~= found@);
        }
        xs.sort();
        xs
    }

    /// Whether something stands between a point and the light.
    ///
    /// `xs` holds the crossings of the ray from the point towards the light,
    /// `distance` is how far the light is. The point is in shadow where the
    /// ray has a hit and the hit is nearer than the light.
    pub fn is_shadowed(xs: &Intersections, distance: Scalar) -> (r: bool)
        ensures
            r == (nearest(xs@) is Some && nearest(xs@)->0.t.less(distance)),
    {
        match xs.hit() {
            Some(h) => h.t.lt(distance),
            None => false,
        }
    }
}

impl Default for World {
    /// The default light, a sphere with the outer material, and inside it a
    /// sphere of half the size with the default material.
    fn default() -> (r: World)
        ensures
            r.light == World::default_light(),
            r.objects@.len() == 2,
            r.objects@[0].transform.is_identity(),
            r.objects@[0].material == World::outer_material(),
            r.objects@[1].transform.has_rows(
                (Scalar { bits: HALF_BITS }, Scalar::zero(), Scalar::zero(), Scalar::zero()),
                (Scalar::zero(), Scalar { bits: HALF_BITS }, Scalar::zero(), Scalar::zero()),
                (Scalar::zero(), Scalar::zero(), Scalar { bits: HALF_BITS }, Scalar::zero()),
                (Scalar::zero(), Scalar::zero(), Scalar::zero(), Scalar::one()),
            ),
            r.objects@[1].material == Material::spec_default(),
    {
        let light = Light::new(
            point(
                Scalar::from_bits(MINUS_TEN_BITS),
                Scalar::from_bits(TEN_BITS),
                Scalar::from_bits(MINUS_TEN_BITS),
            ),
            Color::white(),
        );
        let mut s1 = Sphere::default();
        s1.material.color = Color::new(
            Scalar::from_bits(OUTER_RED_BITS),
            Scalar::one(),
            Scalar::from_bits(OUTER_BLUE_BITS),
        );
        s1.material.diffuse = Scalar::from_bits(OUTER_DIFFUSE_BITS);
        s1.material.specular = Scalar::from_bits(OUTER_SPECULAR_BITS);
        let mut s2 = Sphere::default();
        let half = Scalar::from_bits(HALF_BITS);
        s2.set_transform(Matrix::get_scaling_matrix(half, half, half));
        let mut objects: Vec<Sphere> = Vec::new();
        objects.push(s1);
        objects.push(s2);
        World { light, objects }
    }
}

} // verus!
