use crate::color::Color;
use crate::scalar::{Scalar, ONE_BITS};
use vstd::prelude::*;

verus! {

/// Bit pattern of `0.1`, the default ambient coefficient.
pub const DEFAULT_AMBIENT_BITS: u32 = 0x3dcc_cccd;

/// Bit pattern of `0.9`, the default diffuse and specular coefficient.
pub const DEFAULT_DIFFUSE_BITS: u32 = 0x3f66_6666;

/// Bit pattern of `200.0`, the default shininess.
pub const DEFAULT_SHININESS_BITS: u32 = 0x4348_0000;

/// Surface colour and the four coefficients of the Phong model.
#[derive(Clone, Copy, Debug, PartialEq, Eq, Structural)]
pub struct Material {
    pub color: Color,
    pub ambient: Scalar,
    pub diffuse: Scalar,
    pub specular: Scalar,
    pub shininess: Scalar,
}

/// Which of the three Phong terms contribute at a shading point.
#[derive(Clone, Copy, Debug, PartialEq, Eq, Structural)]
pub struct Terms {
    pub diffuse: bool,
    pub specular: bool,
}

impl Material {
    /// White, ambient 0.1, diffuse 0.9, specular 0.9, shininess 200.
    pub open spec fn spec_default() -> Material {
        Material {
            color: Color::of_bits(ONE_BITS, ONE_BITS, ONE_BITS),
            ambient: Scalar { bits: DEFAULT_AMBIENT_BITS },
            diffuse: Scalar { bits: DEFAULT_DIFFUSE_BITS },
            specular: Scalar { bits: DEFAULT_DIFFUSE_BITS },
            shininess: Scalar { bits: DEFAULT_SHININESS_BITS },
        }
    }

    /// The material with the given colour and coefficients.
    pub fn new(
        color: Color,
        ambient: Scalar,
        diffuse: Scalar,
        specular: Scalar,
        shininess: Scalar,
    ) -> (r: Material)
        ensures
            r == (Material { color, ambient, diffuse, specular, shininess }),
    {
        Material { color, ambient, diffuse, specular, shininess }
    }

    /// Which terms of the lighting sum are not black.
    ///
    /// `light_dot_normal` is the cosine between the direction to the light
    /// and the normal, `reflect_dot_eye` the cosine between the reflected
    /// light and the direction to the eye. The diffuse term is black where
    /// the point is in shadow or the surface faces away from the light
    /// (`light_dot_normal < 0`); the specular term is black there too, and
    /// where the reflection points away from the eye
    /// (`reflect_dot_eye <= 0`). The ambient term always contributes.
    pub fn lighting_terms(
        light_dot_normal: Scalar,
        reflect_dot_eye: Scalar,
        in_shadow: bool,
    ) -> (r: Terms)
        ensures
            r.diffuse == (!in_shadow && !light_dot_normal.less(Scalar::zero())),
            r.specular == (r.diffuse && !(reflect_dot_eye.less(Scalar::zero())
                || reflect_dot_eye.same(Scalar::zero()))),
    {
        let lit = !in_shadow && !light_dot_normal.lt(Scalar::zero());
        Terms { diffuse: lit, specular: lit && !reflect_dot_eye.le(Scalar::zero()) }
    }
}

impl Default for Material {
    fn default() -> (r: Material)
        ensures
            r == Material::spec_default(),
    {
        Material::new(
            Color::white(),
            Scalar::from_bits(DEFAULT_AMBIENT_BITS),
            Scalar::from_bits(DEFAULT_DIFFUSE_BITS),
            Scalar::from_bits(DEFAULT_DIFFUSE_BITS),
            Scalar::from_bits(DEFAULT_SHININESS_BITS),
        )
    }
}

} // verus!
