//! Diffuse bounce directions: a sample drawn inside the unit ball,
//! biased toward the upper hemisphere, rotated so the reference axis
//! (0, 0, 1) aligns with the surface normal.

use vstd::prelude::*;
use crate::fixed::{fadd, fadd_s, fdiv, fdiv_s, fmul, fmul_s, fneg, fsqrt, fsqrt_s, sat_s, FX_ONE};
use crate::rng::RandomSource;
use crate::vec3::{cross_s, dot_s, lemma_mag2_nonneg, mag2_s, Vec3};

verus! {

/// The reference axis samples are drawn around.
pub open spec fn z_axis_s() -> Vec3 {
    Vec3 { x: 0i64, y: 0i64, z: 65536i64 }
}

/// Squared length of the alignment quaternion `(axis, w)`.
pub open spec fn quat_mag2_s(axis: Vec3, w: int) -> int {
    fadd_s(mag2_s(axis), fmul_s(w, w))
}

/// `v` rotated by the shortest-arc rotation that takes the reference
/// axis (0, 0, 1) to `n`: the quaternion `(cross(z, n), 1 + dot(z, n))`
/// is normalized and applied.  When `n` points against the reference
/// axis the quaternion degenerates and a half-turn about the x axis is
/// used instead.
pub open spec fn rotate_align_s(n: Vec3, v: Vec3) -> Vec3 {
    let axis = cross_s(z_axis_s(), n);
    let w = fadd_s(FX_ONE as int, dot_s(z_axis_s(), n));
    let q2 = quat_mag2_s(axis, w);
    if q2 == 0 {
        Vec3 { x: v.x, y: sat_s(-(v.y as int)) as i64, z: sat_s(-(v.z as int)) as i64 }
    } else {
        let m = fsqrt_s(q2);
        let qv = Vec3 {
            x: fdiv_s(axis.x as int, m) as i64,
            y: fdiv_s(axis.y as int, m) as i64,
            z: fdiv_s(axis.z as int, m) as i64,
        };
        let qw = fdiv_s(w, m);
        let t = Vec3 {
            x: fmul_s(cross_s(qv, v).x as int, 2 * FX_ONE) as i64,
            y: fmul_s(cross_s(qv, v).y as int, 2 * FX_ONE) as i64,
            z: fmul_s(cross_s(qv, v).z as int, 2 * FX_ONE) as i64,
        };
        let wt = Vec3 {
            x: fmul_s(t.x as int, qw) as i64,
            y: fmul_s(t.y as int, qw) as i64,
            z: fmul_s(t.z as int, qw) as i64,
        };
        let c = cross_s(qv, t);
        Vec3 {
            x: fadd_s(fadd_s(v.x as int, wt.x as int), c.x as int) as i64,
            y: fadd_s(fadd_s(v.y as int, wt.y as int), c.y as int) as i64,
            z: fadd_s(fadd_s(v.z as int, wt.z as int), c.z as int) as i64,
        }
    }
}

/// `v` rotated by the shortest-arc rotation taking (0, 0, 1) to `n`.
pub fn rotate_align(n: &Vec3, v: &Vec3) -> (r: Vec3)
    ensures
        r == rotate_align_s(*n, *v),
{
    let zaxis = Vec3 { x: 0, y: 0, z: FX_ONE };
    let axis = zaxis.product(*n);
    let w = fadd(FX_ONE, zaxis.dot(*n));
    let q2 = fadd(axis.magnitude_square(), fmul(w, w));
    proof {
        lemma_mag2_nonneg(axis);
        crate::fixed::lemma_fmul_square_nonneg(w as int);
    }
    if q2 == 0 {
        Vec3 { x: v.x, y: fneg(v.y), z: fneg(v.z) }
    } else {
        let m = fsqrt(q2);
        proof {
            crate::fixed::lemma_isqrt_property(q2 as int * (FX_ONE as int));
            assert(m >= 1) by (nonlinear_arith)
                requires
                    m as int * m as int <= q2 as int * (FX_ONE as int),
                    (m as int + 1) * (m as int + 1) > q2 as int * (FX_ONE as int),
                    q2 >= 1,
                    m >= 0,
            ;
        }
        let qv = Vec3 { x: fdiv(axis.x, m), y: fdiv(axis.y, m), z: fdiv(axis.z, m) };
        let qw = fdiv(w, m);
        let t = qv.product(*v).mul(2 * FX_ONE);
        let wt = t.mul(qw);
        let c = qv.product(t);
        v.add(wt).add(c)
    }
}

/// A random diffuse bounce direction around the normal `v`: a rejection
/// sample from the unit ball, biased toward the hemisphere around the
/// reference axis (its z is never negative), rotated onto `v`.  The
/// rejection loop is capped, falling back to the reference axis itself,
/// so the function always terminates.
pub fn random_vector(rng: &mut RandomSource, v: Vec3) -> (r: Vec3)
    ensures
        exists|s: Vec3| s.z >= 0 && mag2_s(s) <= FX_ONE && r == rotate_align_s(v, s),
{
    for _attempt in 0..64usize {
        let x = rng.next_in_range(-FX_ONE, FX_ONE);
        let y = rng.next_in_range(-FX_ONE, FX_ONE);
        let z = rng.next_in_range(0, FX_ONE);
        let cand = Vec3::xyz(x, y, z);
        if cand.magnitude_square() <= FX_ONE {
            let out = rotate_align(&v, &cand);
            proof {
                assert(cand.z >= 0 && mag2_s(cand) <= FX_ONE && out == rotate_align_s(v, cand));
            }
            return out;
        }
    }
    let cand = Vec3 { x: 0, y: 0, z: FX_ONE };
    let out = rotate_align(&v, &cand);
    proof {
        assert((65536int * 65536int) / 65536int == 65536int) by (nonlinear_arith);
        assert(cand.z >= 0 && mag2_s(cand) <= FX_ONE && out == rotate_align_s(v, cand));
    }
    out
}

} // verus!
