//! The light source, the surface material and the choice of the terms of the
//! Phong reflection model.

use vstd::prelude::*;
use crate::arithmetic::{power_of, product, steady, Arithmetic};
use crate::color::Color;
use crate::error::Error;
use crate::scalar::Scalar;
use crate::tuple::Tuple;

verus! {

/// The pattern of the number 0.1.
pub const TENTH_BITS: u64 = 0x3FB9_9999_9999_999A;

/// The pattern of the number 0.9.
pub const NINE_TENTHS_BITS: u64 = 0x3FEC_CCCC_CCCC_CCCD;

/// The pattern of the number 200.
pub const TWO_HUNDRED_BITS: u64 = 0x4069_0000_0000_0000;

/// A light source without size. Its position is a point.
#[derive(Clone, Copy, Debug)]
pub struct PointLight {
    pub intensity: Color,
    pub position: Tuple,
}

impl PointLight {
    /// The position of a light is a point.
    pub open spec fn wf(self) -> bool {
        self.position.point()
    }

    /// Creates a light of the given intensity at `position`. The position
    /// of a light is a point; anything else is refused.
    pub fn new(intensity: Color, position: Tuple) -> (r: Result<PointLight, Error>)
        ensures
            r == if position.point() {
                Ok::<PointLight, Error>(PointLight { intensity, position })
            } else {
                Err(Error::InvariantViolation)
            },
    {
        if position.is_point() {
            Ok(PointLight { intensity, position })
        } else {
            Err(Error::InvariantViolation)
        }
    }
}

/// The parameters of the Phong reflection model for one surface.
#[derive(Clone, Copy, Debug)]
pub struct Material {
    pub color: Color,
    pub ambient: Scalar,
    pub diffuse: Scalar,
    pub specular: Scalar,
    pub shininess: Scalar,
}

impl Material {
    /// White, ambient 0.1, diffuse 0.9, specular 0.9, shininess 200.
    pub open spec fn spec_default() -> Material {
        Material {
            color: Color::gray(Scalar::spec_one()),
            ambient: Scalar { bits: TENTH_BITS },
            diffuse: Scalar { bits: NINE_TENTHS_BITS },
            specular: Scalar { bits: NINE_TENTHS_BITS },
            shininess: Scalar { bits: TWO_HUNDRED_BITS },
        }
    }
}

impl Default for Material {
    fn default() -> (m: Material)
        ensures
            m == Material::spec_default(),
    {
        Material {
            color: crate::color::white(),
            ambient: Scalar::from_bits(TENTH_BITS),
            diffuse: Scalar::from_bits(NINE_TENTHS_BITS),
            specular: Scalar::from_bits(NINE_TENTHS_BITS),
            shininess: Scalar::from_bits(TWO_HUNDRED_BITS),
        }
    }
}

/// Whether the light reaches a point.
#[derive(Clone, Copy, Debug, PartialEq, Eq, Structural)]
pub enum PointStatus {
    InLight,
    InShadow,
}

/// The terms of the reflection model that add to the color of a point.
#[derive(Clone, Copy, Debug, PartialEq, Eq, Structural)]
pub enum Terms {
    /// The ambient term alone.
    Ambient,
    /// The ambient and the diffuse term.
    AmbientDiffuse,
    /// The ambient, the diffuse and the specular term.
    AmbientDiffuseSpecular,
}

/// The terms that add to the color of a point, where `light_dot_normal` is
/// the cosine between the direction to the light and the normal, and
/// `reflect_dot_eye` the cosine between the reflected light and the eye.
pub open spec fn terms_of(
    status: PointStatus,
    light_dot_normal: Scalar,
    reflect_dot_eye: Scalar,
) -> Terms {
    if status == PointStatus::InShadow || light_dot_normal.less(Scalar::spec_zero()) {
        Terms::Ambient
    } else if reflect_dot_eye.at_most(Scalar::spec_zero()) {
        Terms::AmbientDiffuse
    } else {
        Terms::AmbientDiffuseSpecular
    }
}

/// Chooses the terms of the reflection model. A point in shadow, or one
/// whose light is on the far side of the surface, gets the ambient term
/// alone; the specular term is added only where the reflection reaches the
/// eye.
pub fn lighting_terms(
    status: PointStatus,
    light_dot_normal: Scalar,
    reflect_dot_eye: Scalar,
) -> (terms: Terms)
    ensures
        terms == terms_of(status, light_dot_normal, reflect_dot_eye),
{
    match status {
        PointStatus::InShadow => Terms::Ambient,
        PointStatus::InLight => {
            if light_dot_normal.lt(Scalar::zero()) {
                Terms::Ambient
            } else if reflect_dot_eye.le(Scalar::zero()) {
                Terms::AmbientDiffuse
            } else {
                Terms::AmbientDiffuseSpecular
            }
        },
    }
}

/// The color of a lit surface of material `m`, where `light_vec` is the unit
/// vector from the point toward the light.
///
/// The color of the surface under the light is the product of the two
/// colors. The ambient term is that color times the ambient share. A point
/// in shadow gets nothing else. The diffuse term is that color times the
/// diffuse share times the cosine between light and normal; the specular
/// term is the light times the specular share times the cosine between the
/// reflected light and the eye, raised to the shininess. A term that does
/// not add is black, and the color is ambient plus diffuse plus specular.
#[verifier::opaque]
pub open spec fn phong<A: Arithmetic>(
    m: Material,
    light: PointLight,
    light_vec: Tuple,
    eye_vec: Tuple,
    normal_vec: Tuple,
    status: PointStatus,
    ops: &A,
) -> Color {
    let black = Color::gray(Scalar::spec_zero());
    let effective_color = m.color.blended(light.intensity, ops);
    let ambient = effective_color.scaled(m.ambient, ops);
    let light_dot_normal = light_vec.dot_product(normal_vec, ops);
    let reflect_dot_eye = light_vec.negated().mirrored(normal_vec, ops).dot_product(eye_vec, ops);
    let terms = terms_of(status, light_dot_normal, reflect_dot_eye);
    let diffuse = if terms == Terms::Ambient {
        black
    } else {
        effective_color.scaled(product(ops, m.diffuse, light_dot_normal), ops)
    };
    let specular = if terms == Terms::AmbientDiffuseSpecular {
        light.intensity.scaled(
            product(ops, m.specular, power_of(ops, reflect_dot_eye, m.shininess)),
            ops,
        )
    } else {
        black
    };
    if status == PointStatus::InShadow {
        ambient
    } else {
        ambient.added(diffuse, ops).added(specular, ops)
    }
}

/// The color of the point `pt` of a surface of material `m` under `light`,
/// seen along `eye_vec`, where the surface has the normal `normal_vec`.
/// There is none where `pt` is no point or one of the two others no vector,
/// or where the light stands at the point.
#[verifier::opaque]
pub open spec fn lit<A: Arithmetic>(
    m: Material,
    light: PointLight,
    pt: Tuple,
    eye_vec: Tuple,
    normal_vec: Tuple,
    status: PointStatus,
    ops: &A,
) -> Result<Color, Error> {
    if !(pt.point() && eye_vec.vector() && normal_vec.vector()) {
        Err(Error::InvariantViolation)
    } else {
        match light.position.subtracted(pt, ops).unit(ops) {
            Ok(light_vec) => Ok(phong(m, light, light_vec, eye_vec, normal_vec, status, ops)),
            Err(e) => Err(e),
        }
    }
}

/// Computes the color of the point `pt` of a surface under `light` by the
/// Phong reflection model. The color is not clamped.
pub fn lighting<A: Arithmetic>(
    m: &Material,
    light: &PointLight,
    pt: &Tuple,
    eye_vec: &Tuple,
    normal_vec: &Tuple,
    status: PointStatus,
    ops: &A,
) -> (r: Result<Color, Error>)
    requires
        steady(ops),
    ensures
        r == lit(*m, *light, *pt, *eye_vec, *normal_vec, status, ops),
{
    reveal(lit);
    reveal(phong);
    if !(pt.is_point() && eye_vec.is_vector() && normal_vec.is_vector()) {
        return Err(Error::InvariantViolation);
    }
    let effective_color = m.color.blend(&light.intensity, ops);
    let light_vec = match light.position.minus(pt, ops).normalized(ops) {
        Ok(v) => v,
        Err(e) => {
            return Err(e);
        },
    };
    let ambient = effective_color.times(m.ambient, ops);
    let light_dot_normal = light_vec.dot(normal_vec, ops);
    let reflect_dot_eye = light_vec.neg().reflected(normal_vec, ops).dot(eye_vec, ops);
    let terms = lighting_terms(status, light_dot_normal, reflect_dot_eye);
    match status {
        PointStatus::InShadow => Ok(ambient),
        PointStatus::InLight => {
            let diffuse = match terms {
                Terms::Ambient => crate::color::black(),
                _ => effective_color.times(ops.times(m.diffuse, light_dot_normal), ops),
            };
            let specular = match terms {
                Terms::AmbientDiffuseSpecular => light.intensity.times(
                    ops.times(m.specular, ops.power(reflect_dot_eye, m.shininess)),
                    ops,
                ),
                _ => crate::color::black(),
            };
            Ok(ambient.plus(&diffuse, ops).plus(&specular, ops))
        },
    }
}

} // verus!
