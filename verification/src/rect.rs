//! Unit rectangles in the local z = 0 plane, facing -z.

use vstd::prelude::*;
use crate::fixed::{fdiv, fdiv_s, fneg, sat_s, FX_ONE};
use crate::ray::{at_s, Ray};
use crate::vec3::Vec3;

verus! {

/// Half the rectangle's extent: it spans `[-1/2, 1/2)` in local x and y.
pub const RECT_HALF: i64 = 32768;

/// A unit square in the local z = 0 plane, facing -z.
#[derive(Debug, Clone, Copy, PartialEq, Eq, Structural)]
pub struct Rect {}

/// Intersection of a local-frame ray with the unit rectangle.  The ray
/// must start in front of the plane (origin z <= 0) and travel toward
/// it (direction z > 0); the hit point must fall inside the half-open
/// square `[-1/2, 1/2)` on both axes, so adjacent rectangles never
/// double-count a shared edge.
pub open spec fn rect_cast_s(ray: Ray) -> Option<i64> {
    if ray.origin.z > 0 || ray.dir.z <= 0 {
        None
    } else {
        let t = fdiv_s(sat_s(-(ray.origin.z as int)), ray.dir.z as int);
        if t < 0 {
            None
        } else {
            let p = at_s(ray, t);
            if p.x < -RECT_HALF || p.x >= RECT_HALF || p.y < -RECT_HALF || p.y >= RECT_HALF {
                None
            } else {
                Some(t as i64)
            }
        }
    }
}

impl Rect {
    /// The unit rectangle.
    pub fn new() -> (r: Rect)
        ensures
            r == (Rect {}),
    {
        Rect {}
    }

    /// The forward hit of a local-frame ray, as a ray parameter.
    pub fn ray_cast(&self, ray: &Ray) -> (r: Option<i64>)
        ensures
            r == rect_cast_s(*ray),
    {
        if ray.origin.z > 0 || ray.dir.z <= 0 {
            return None;
        }
        let t = fdiv(fneg(ray.origin.z), ray.dir.z);
        if t < 0 {
            return None;
        }
        let p = ray.at(t);
        if p.x < -RECT_HALF || p.x >= RECT_HALF || p.y < -RECT_HALF || p.y >= RECT_HALF {
            return None;
        }
        Some(t)
    }

    /// The constant facet normal, `(0, 0, -1)` in the local frame.
    pub fn normal(&self, _position: Vec3) -> (n: Vec3)
        ensures
            n.x == 0 && n.y == 0 && n.z == -FX_ONE,
    {
        Vec3 { x: 0, y: 0, z: -FX_ONE }
    }
}

} // verus!
