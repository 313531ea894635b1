//! Rays: an origin with a direction, evaluated by a fixed-point parameter.

use vstd::prelude::*;
use crate::vec3::{vadd_s, vscale_s, vsub_s, Vec3};

verus! {

/// A half-line through `origin` along `dir`.
#[derive(Debug, Clone, Copy, PartialEq, Eq, Structural)]
pub struct Ray {
    pub origin: Vec3,
    pub dir: Vec3,
}

/// The point `origin + dir * t`.
pub open spec fn at_s(r: Ray, t: int) -> Vec3 {
    vadd_s(r.origin, vscale_s(r.dir, t))
}

impl Ray {
    /// A ray from its origin and direction.
    pub fn new(origin: Vec3, dir: Vec3) -> (r: Ray)
        ensures
            r == (Ray { origin, dir }),
    {
        Ray { origin, dir }
    }

    /// The ray from `origin` toward `to`, with unnormalized direction.
    pub fn new_origin_to(origin: Vec3, to: Vec3) -> (r: Ray)
        ensures
            r.origin == origin,
            r.dir == vsub_s(to, origin),
    {
        let dir = to.sub(origin);
        Ray::new(origin, dir)
    }

    /// The point at parameter `t` along the ray.
    pub fn at(&self, t: i64) -> (p: Vec3)
        ensures
            p == at_s(*self, t as int),
    {
        self.origin.add(self.dir.mul(t))
    }
}

} // verus!
