//! Surface materials: diffuse reflectance and self-emission.

use vstd::prelude::*;
use crate::color::{c_nonneg, Color};
use crate::fixed::FX_ONE;

verus! {

/// What a surface does with light: `albedo` is the diffuse reflectance
/// per channel, `emission` the light the surface radiates on its own.
/// `color` and `reflect` are inactive extension points kept at their
/// defaults by the shipped behavior.
#[derive(Debug, Clone, Copy, PartialEq, Eq, Structural)]
pub struct Material {
    pub color: Color,
    pub albedo: Color,
    pub reflect: i64,
    pub emission: Color,
}

/// The default material as a specification value.
pub open spec fn default_material_s() -> Material {
    Material {
        color: Color { r: FX_ONE, g: 0i64, b: 0i64, a: FX_ONE },
        albedo: Color { r: 0i64, g: 0i64, b: 0i64, a: FX_ONE },
        reflect: 0i64,
        emission: Color { r: 0i64, g: 0i64, b: 0i64, a: FX_ONE },
    }
}

/// The channels the estimator reads are all nonnegative.
pub open spec fn mat_nonneg(m: Material) -> bool {
    c_nonneg(m.albedo) && c_nonneg(m.emission)
}

impl Material {
    /// The default material: fully absorbing, non-emissive.
    pub fn new() -> (m: Material)
        ensures
            m == default_material_s(),
            mat_nonneg(m),
    {
        Material {
            color: Color::from_rgb(FX_ONE, 0, 0),
            albedo: Color::from_rgb(0, 0, 0),
            reflect: 0,
            emission: Color::from_rgb(0, 0, 0),
        }
    }
}

} // verus!
