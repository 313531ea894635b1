//! Spheres centered at the local origin.

use vstd::prelude::*;
use crate::fixed::{fadd, fadd_s, fdiv, fdiv_s, fmul, fmul_s, fneg, fsqrt, fsqrt_s, fsub, fsub_s,
    sat_s, FX_ONE};
use crate::ray::Ray;
use crate::vec3::{dot_s, lemma_mag2_nonneg, mag2_s, normalized_s, Vec3};

verus! {

/// A sphere of the given radius, centered at the local origin.
#[derive(Debug, Clone, Copy, PartialEq, Eq, Structural)]
pub struct Sphere {
    pub radius: i64,
}

/// Intersection of a local-frame ray with a sphere of radius `radius`:
/// the nearest nonnegative root of the quadratic `|O + tD|^2 =
/// radius^2`, evaluated in fixed-point arithmetic.  A ray starting
/// inside the sphere (near root negative) hits the far root.  No hit
/// when the discriminant is not positive, when the direction is too
/// short to square to a nonzero fixed-point value, or when both roots
/// are behind the origin.
pub open spec fn sphere_cast_s(radius: int, ray: Ray) -> Option<i64> {
    let a = mag2_s(ray.dir);
    let b = fmul_s(2 * FX_ONE, dot_s(ray.dir, ray.origin));
    let c = fsub_s(dot_s(ray.origin, ray.origin), fmul_s(radius, radius));
    let d = fsub_s(fmul_s(b, b), fmul_s(fmul_s(4 * FX_ONE, a), c));
    if d <= 0 {
        None
    } else if a == 0 {
        None
    } else {
        let den = fmul_s(2 * FX_ONE, a);
        let near = fdiv_s(fsub_s(sat_s(-b), fsqrt_s(d)), den);
        if near >= 0 {
            Some(near as i64)
        } else {
            let far = fdiv_s(fadd_s(sat_s(-b), fsqrt_s(d)), den);
            if far >= 0 {
                Some(far as i64)
            } else {
                None
            }
        }
    }
}

impl Sphere {
    /// A sphere from its radius.
    pub fn new(radius: i64) -> (s: Sphere)
        ensures
            s == (Sphere { radius }),
    {
        Sphere { radius }
    }

    /// The nearest forward hit of a local-frame ray, as a ray parameter.
    pub fn ray_cast(&self, ray: &Ray) -> (r: Option<i64>)
        ensures
            r == sphere_cast_s(self.radius as int, *ray),
    {
        let a = ray.dir.magnitude_square();
        let b = fmul(2 * FX_ONE, ray.dir.dot(ray.origin));
        let oc = ray.origin;
        let c = fsub(oc.dot(oc), fmul(self.radius, self.radius));
        let d = fsub(fmul(b, b), fmul(fmul(4 * FX_ONE, a), c));
        if d <= 0 {
            None
        } else if a == 0 {
            None
        } else {
            proof {
                lemma_mag2_nonneg(ray.dir);
                assert((2 * (FX_ONE as int)) * (a as int) == (a as int) * (FX_ONE as int) * 2)
                    by (nonlinear_arith);
                assert(((a as int) * (FX_ONE as int) * 2) / (FX_ONE as int) == 2 * (a as int))
                    by (nonlinear_arith)
                    requires
                        a >= 1,
                ;
            }
            let den = fmul(2 * FX_ONE, a);
            assert(den as int == sat_s(2 * (a as int)));
            assert(den >= 2);
            let root = fsqrt(d);
            let near = fdiv(fsub(fneg(b), root), den);
            if near >= 0 {
                Some(near)
            } else {
                let far = fdiv(fadd(fneg(b), root), den);
                if far >= 0 {
                    Some(far)
                } else {
                    None
                }
            }
        }
    }

    /// The outward surface normal at a local-frame point: the point
    /// normalized (the sphere is centered at the origin).
    pub fn normal(&self, position: Vec3) -> (n: Vec3)
        ensures
            n == normalized_s(position),
    {
        position.normalized()
    }
}

} // verus!
