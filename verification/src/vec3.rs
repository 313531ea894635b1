//! 3D vectors over fixed-point scalars.

use vstd::prelude::*;
use crate::fixed::{
    abs_s, fadd, fadd_s, fdiv, fdiv_s, fmul, fmul_s, fsqrt, fsqrt_s, fsub, fsub_s,
    lemma_fmul_square_nonneg, FX_ONE,
};

verus! {

/// An (x, y, z) triple of fixed-point scalars.
#[derive(Debug, Clone, Copy, PartialEq, Eq, Structural)]
pub struct Vec3 {
    pub x: i64,
    pub y: i64,
    pub z: i64,
}

/// Componentwise sum.
pub open spec fn vadd_s(a: Vec3, b: Vec3) -> Vec3 {
    Vec3 {
        x: fadd_s(a.x as int, b.x as int) as i64,
        y: fadd_s(a.y as int, b.y as int) as i64,
        z: fadd_s(a.z as int, b.z as int) as i64,
    }
}

/// Componentwise difference.
pub open spec fn vsub_s(a: Vec3, b: Vec3) -> Vec3 {
    Vec3 {
        x: fsub_s(a.x as int, b.x as int) as i64,
        y: fsub_s(a.y as int, b.y as int) as i64,
        z: fsub_s(a.z as int, b.z as int) as i64,
    }
}

/// Componentwise scaling.
pub open spec fn vscale_s(a: Vec3, s: int) -> Vec3 {
    Vec3 {
        x: fmul_s(a.x as int, s) as i64,
        y: fmul_s(a.y as int, s) as i64,
        z: fmul_s(a.z as int, s) as i64,
    }
}

/// Componentwise division by a scalar.
pub open spec fn vdiv_s(a: Vec3, s: int) -> Vec3 {
    Vec3 {
        x: fdiv_s(a.x as int, s) as i64,
        y: fdiv_s(a.y as int, s) as i64,
        z: fdiv_s(a.z as int, s) as i64,
    }
}

/// Dot product, summed left to right.
pub open spec fn dot_s(a: Vec3, b: Vec3) -> int {
    fadd_s(
        fadd_s(fmul_s(a.x as int, b.x as int), fmul_s(a.y as int, b.y as int)),
        fmul_s(a.z as int, b.z as int),
    )
}

/// Squared magnitude.
pub open spec fn mag2_s(a: Vec3) -> int {
    dot_s(a, a)
}

/// Magnitude.
pub open spec fn mag_s(a: Vec3) -> int {
    fsqrt_s(mag2_s(a))
}

/// Cross product.
pub open spec fn cross_s(a: Vec3, b: Vec3) -> Vec3 {
    Vec3 {
        x: fsub_s(fmul_s(a.y as int, b.z as int), fmul_s(a.z as int, b.y as int)) as i64,
        y: fsub_s(fmul_s(a.z as int, b.x as int), fmul_s(a.x as int, b.z as int)) as i64,
        z: fsub_s(fmul_s(a.x as int, b.y as int), fmul_s(a.y as int, b.x as int)) as i64,
    }
}

/// The unit vector used where normalization is degenerate.
pub open spec fn fallback_axis_s() -> Vec3 {
    Vec3 { x: 0, y: 0, z: FX_ONE }
}

/// Normalization: each component divided by the magnitude; the zero
/// vector maps to a fixed fallback axis.
pub open spec fn normalized_s(a: Vec3) -> Vec3 {
    if mag2_s(a) == 0 {
        fallback_axis_s()
    } else {
        vdiv_s(a, mag_s(a))
    }
}

/// A squared magnitude is never negative.
pub proof fn lemma_mag2_nonneg(a: Vec3)
    ensures
        mag2_s(a) >= 0,
{
    lemma_fmul_square_nonneg(a.x as int);
    lemma_fmul_square_nonneg(a.y as int);
    lemma_fmul_square_nonneg(a.z as int);
}

/// A squared component neither saturates nor loses its value: it is the
/// plain quotient of the true square by the scale.
proof fn lemma_sq_term(xi: int)
    requires
        abs_s(xi) <= 0x4000_0000,
    ensures
        fmul_s(xi, xi) == (xi * xi) / (FX_ONE as int),
        0 <= fmul_s(xi, xi) <= 0x1000_0000_0000,
        xi * xi == abs_s(xi) * abs_s(xi),
{
    crate::fixed::lemma_mul_bound(xi, xi, 0x4000_0000, 0x4000_0000);
    let ax = abs_s(xi);
    assert(xi * xi == ax * ax) by (nonlinear_arith)
        requires
            ax == xi || ax == -xi,
    ;
    let p = xi * xi;
    vstd::arithmetic::div_mod::lemma_div_pos_is_pos(p, FX_ONE as int);
    vstd::arithmetic::div_mod::lemma_div_is_ordered(p, 0x1000_0000_0000_0000, FX_ONE as int);
    assert(0x1000_0000_0000_0000int / 0x1_0000int == 0x1000_0000_0000int);
}

/// The true squared length of a vector.
pub open spec fn sq_sum_s(v: Vec3) -> int {
    let x = v.x as int;
    let y = v.y as int;
    let z = v.z as int;
    x * x + y * y + z * z
}

/// For moderate components the fixed-point squared magnitude is the sum
/// of the three component quotients, and brackets the true squared
/// length to within three scale units.
proof fn lemma_mag2_structure(v: Vec3)
    requires
        abs_s(v.x as int) <= 0x4000_0000,
        abs_s(v.y as int) <= 0x4000_0000,
        abs_s(v.z as int) <= 0x4000_0000,
    ensures
        0 <= mag2_s(v) <= 0x3000_0000_0000,
        mag2_s(v) * (FX_ONE as int) <= sq_sum_s(v),
        sq_sum_s(v) < mag2_s(v) * (FX_ONE as int) + 3 * (FX_ONE as int),
{
    let s = FX_ONE as int;
    let x = v.x as int;
    let y = v.y as int;
    let z = v.z as int;
    lemma_sq_term(x);
    lemma_sq_term(y);
    lemma_sq_term(z);
    vstd::arithmetic::div_mod::lemma_fundamental_div_mod(x * x, s);
    vstd::arithmetic::div_mod::lemma_fundamental_div_mod(y * y, s);
    vstd::arithmetic::div_mod::lemma_fundamental_div_mod(z * z, s);
    vstd::arithmetic::div_mod::lemma_mod_division_less_than_divisor(x * x, s);
    vstd::arithmetic::div_mod::lemma_mod_division_less_than_divisor(y * y, s);
    vstd::arithmetic::div_mod::lemma_mod_division_less_than_divisor(z * z, s);
    assert(s * ((x * x) / s) == ((x * x) / s) * s) by (nonlinear_arith);
    assert(s * ((y * y) / s) == ((y * y) / s) * s) by (nonlinear_arith);
    assert(s * ((z * z) / s) == ((z * z) / s) * s) by (nonlinear_arith);
}

/// Dividing a moderate component by a magnitude of at least one gives
/// the plain quotient of magnitudes, no larger than the component.
proof fn lemma_div_term(xi: int, m: int)
    requires
        abs_s(xi) <= 0x4000_0000,
        FX_ONE as int <= m,
    ensures
        abs_s(fdiv_s(xi, m)) == (abs_s(xi) * (FX_ONE as int)) / m,
        abs_s(fdiv_s(xi, m)) <= abs_s(xi),
{
    let s = FX_ONE as int;
    let ax = abs_s(xi);
    let p = xi * s;
    let ap = abs_s(p);
    assert(ap == ax * s) by (nonlinear_arith)
        requires
            s == 65536,
            ap == p || ap == -p,
            ap >= 0,
            ax == xi || ax == -xi,
            ax >= 0,
            p == xi * s,
    ;
    vstd::arithmetic::div_mod::lemma_div_pos_is_pos(ax * s, m);
    vstd::arithmetic::div_mod::lemma_div_is_ordered_by_denominator(ax * s, s, m);
    vstd::arithmetic::div_mod::lemma_div_multiples_vanish(ax, s);
    assert(s * ax == ax * s) by (nonlinear_arith);
}

/// Normalizing a vector of length at least one yields a vector whose
/// fixed-point magnitude is within nine quanta of one: the law that
/// `v.normalized().magnitude()` is 1.0 up to fixed-point tolerance.
/// Vectors shorter than one unit are excluded: for them the relative
/// rounding error of the integer square root grows with the reciprocal
/// of the length (and the zero vector takes the fallback axis).
pub proof fn lemma_normalized_magnitude_near_one(v: Vec3)
    requires
        FX_ONE as int <= mag2_s(v),
        abs_s(v.x as int) <= 0x4000_0000,
        abs_s(v.y as int) <= 0x4000_0000,
        abs_s(v.z as int) <= 0x4000_0000,
    ensures
        abs_s(mag_s(normalized_s(v)) - FX_ONE as int) <= 9,
{
    let s = FX_ONE as int;
    let q = sq_sum_s(v);
    let m2 = mag2_s(v);
    lemma_mag2_structure(v);
    let m = mag_s(v);
    crate::fixed::lemma_isqrt_property(m2 * s);
    assert(m * m <= m2 * s && m2 * s < (m + 1) * (m + 1) && m >= 0);
    assert(m >= s) by (nonlinear_arith)
        requires
            (m + 1) * (m + 1) > m2 * s,
            m2 >= s,
            s == 65536,
            m >= 0,
    ;
    assert(m <= 0x2_0000_0000) by (nonlinear_arith)
        requires
            m * m <= m2 * s,
            m2 <= 0x3000_0000_0000,
            s == 65536,
            m >= 0,
    ;

    let nv = normalized_s(v);
    assert(nv == vdiv_s(v, m));
    let x = v.x as int;
    let y = v.y as int;
    let z = v.z as int;
    lemma_div_term(x, m);
    lemma_div_term(y, m);
    lemma_div_term(z, m);
    let ax = abs_s(x);
    let ay = abs_s(y);
    let az = abs_s(z);
    let nx = abs_s(nv.x as int);
    let ny = abs_s(nv.y as int);
    let nz = abs_s(nv.z as int);
    assert(nx == (ax * s) / m && ny == (ay * s) / m && nz == (az * s) / m);
    assert(nx <= 0x4000_0000 && ny <= 0x4000_0000 && nz <= 0x4000_0000);

    // floor bounds of each scaled component, in multiplicative form
    vstd::arithmetic::div_mod::lemma_fundamental_div_mod(ax * s, m);
    vstd::arithmetic::div_mod::lemma_fundamental_div_mod(ay * s, m);
    vstd::arithmetic::div_mod::lemma_fundamental_div_mod(az * s, m);
    vstd::arithmetic::div_mod::lemma_mod_division_less_than_divisor(ax * s, m);
    vstd::arithmetic::div_mod::lemma_mod_division_less_than_divisor(ay * s, m);
    vstd::arithmetic::div_mod::lemma_mod_division_less_than_divisor(az * s, m);
    assert(nx * m <= ax * s && ax * s < (nx + 1) * m) by (nonlinear_arith)
        requires
            ax * s == m * nx + (ax * s) % m,
            0 <= (ax * s) % m < m,
    ;
    assert(ny * m <= ay * s && ay * s < (ny + 1) * m) by (nonlinear_arith)
        requires
            ay * s == m * ny + (ay * s) % m,
            0 <= (ay * s) % m < m,
    ;
    assert(nz * m <= az * s && az * s < (nz + 1) * m) by (nonlinear_arith)
        requires
            az * s == m * nz + (az * s) % m,
            0 <= (az * s) % m < m,
    ;

    // the normalized vector's own squared magnitude, bracketed the same way
    let m2n = mag2_s(nv);
    lemma_mag2_structure(nv);
    let qn = sq_sum_s(nv);
    assert((nv.x as int) * (nv.x as int) == nx * nx) by (nonlinear_arith)
        requires
            nx == nv.x as int || nx == -(nv.x as int),
    ;
    assert((nv.y as int) * (nv.y as int) == ny * ny) by (nonlinear_arith)
        requires
            ny == nv.y as int || ny == -(nv.y as int),
    ;
    assert((nv.z as int) * (nv.z as int) == nz * nz) by (nonlinear_arith)
        requires
            nz == nv.z as int || nz == -(nv.z as int),
    ;
    assert(qn == nx * nx + ny * ny + nz * nz);
    assert(x * x == ax * ax) by (nonlinear_arith)
        requires
            ax == x || ax == -x,
    ;
    assert(y * y == ay * ay) by (nonlinear_arith)
        requires
            ay == y || ay == -y,
    ;
    assert(z * z == az * az) by (nonlinear_arith)
        requires
            az == z || az == -z,
    ;
    assert(q == ax * ax + ay * ay + az * az);

    // upper bound: scaling cannot grow the squared components
    assert(nx * nx * (m * m) <= ax * ax * (s * s)) by (nonlinear_arith)
        requires
            0 <= nx,
            0 <= m,
            0 <= ax * s,
            nx * m <= ax * s,
    ;
    assert(ny * ny * (m * m) <= ay * ay * (s * s)) by (nonlinear_arith)
        requires
            0 <= ny,
            0 <= m,
            0 <= ay * s,
            ny * m <= ay * s,
    ;
    assert(nz * nz * (m * m) <= az * az * (s * s)) by (nonlinear_arith)
        requires
            0 <= nz,
            0 <= m,
            0 <= az * s,
            nz * m <= az * s,
    ;
    assert(qn * (m * m) <= q * (s * s)) by (nonlinear_arith)
        requires
            nx * nx * (m * m) <= ax * ax * (s * s),
            ny * ny * (m * m) <= ay * ay * (s * s),
            nz * nz * (m * m) <= az * az * (s * s),
            qn == nx * nx + ny * ny + nz * nz,
            q == ax * ax + ay * ay + az * az,
    ;
    assert((m2n * s) * (m * m) <= q * (s * s)) by (nonlinear_arith)
        requires
            m2n * s <= qn,
            qn * (m * m) <= q * (s * s),
            m * m >= 0,
    ;
    assert(m2n <= s + 5) by (nonlinear_arith)
        requires
            s == 65536,
            m >= s,
            (m2n * s) * (m * m) <= q * (s * s),
            q < m2 * s + 3 * s,
            m2 * s < (m + 1) * (m + 1),
    ;

    // lower bound: each scaled component is at most 444 quanta above one
    assert(ax * ax <= q && ay * ay <= q && az * az <= q) by (nonlinear_arith)
        requires
            q == ax * ax + ay * ay + az * az,
            0 <= ax,
            0 <= ay,
            0 <= az,
    ;
    assert(q < (m + 445) * (m + 445)) by (nonlinear_arith)
        requires
            q < m2 * s + 3 * s,
            m2 * s < (m + 1) * (m + 1),
            s == 65536,
            m >= 0,
    ;
    assert(nx <= s + 444 && ny <= s + 444 && nz <= s + 444) by (nonlinear_arith)
        requires
            ax * ax <= q,
            ay * ay <= q,
            az * az <= q,
            q < (m + 445) * (m + 445),
            nx * m <= ax * s,
            ny * m <= ay * s,
            nz * m <= az * s,
            0 <= ax,
            0 <= ay,
            0 <= az,
            0 <= nx,
            0 <= ny,
            0 <= nz,
            m >= s,
            s == 65536,
    ;
    assert((nx + 1) * (nx + 1) * (m * m) > ax * ax * (s * s)) by (nonlinear_arith)
        requires
            0 <= ax * s,
            0 <= m,
            ax * s < (nx + 1) * m,
    ;
    assert((ny + 1) * (ny + 1) * (m * m) > ay * ay * (s * s)) by (nonlinear_arith)
        requires
            0 <= ay * s,
            0 <= m,
            ay * s < (ny + 1) * m,
    ;
    assert((nz + 1) * (nz + 1) * (m * m) > az * az * (s * s)) by (nonlinear_arith)
        requires
            0 <= az * s,
            0 <= m,
            az * s < (nz + 1) * m,
    ;
    assert(((nx + 1) * (nx + 1) + (ny + 1) * (ny + 1) + (nz + 1) * (nz + 1)) * (m * m) > q * (s
        * s)) by (nonlinear_arith)
        requires
            (nx + 1) * (nx + 1) * (m * m) > ax * ax * (s * s),
            (ny + 1) * (ny + 1) * (m * m) > ay * ay * (s * s),
            (nz + 1) * (nz + 1) * (m * m) > az * az * (s * s),
            q == ax * ax + ay * ay + az * az,
    ;
    assert(q * (s * s) >= (m * m) * (s * s)) by (nonlinear_arith)
        requires
            q >= m2 * s,
            m2 * s >= m * m,
            s * s >= 0,
    ;
    assert(m2n >= s - 9) by (nonlinear_arith)
        requires
            s == 65536,
            m >= s,
            ((nx + 1) * (nx + 1) + (ny + 1) * (ny + 1) + (nz + 1) * (nz + 1)) * (m * m) > q * (s
                * s),
            q * (s * s) >= (m * m) * (s * s),
            qn < m2n * s + 3 * s,
            qn == nx * nx + ny * ny + nz * nz,
            nx <= s + 444,
            ny <= s + 444,
            nz <= s + 444,
            0 <= nx,
            0 <= ny,
            0 <= nz,
    ;

    // the magnitude of the normalized vector, from its squared magnitude
    let mn = mag_s(nv);
    crate::fixed::lemma_isqrt_property(m2n * s);
    assert(mn >= s - 9 && mn <= s + 2) by (nonlinear_arith)
        requires
            s == 65536,
            mn >= 0,
            mn * mn <= m2n * s,
            m2n * s < (mn + 1) * (mn + 1),
            s - 9 <= m2n <= s + 5,
    ;
}

impl Vec3 {
    /// The zero vector.
    pub fn new() -> (r: Vec3)
        ensures
            r == (Vec3 { x: 0i64, y: 0i64, z: 0i64 }),
    {
        Vec3 { x: 0, y: 0, z: 0 }
    }

    /// A vector in the z = 0 plane.
    pub fn xy(x: i64, y: i64) -> (r: Vec3)
        ensures
            r == (Vec3 { x: x, y: y, z: 0i64 }),
    {
        Vec3 { x, y, z: 0 }
    }

    /// A vector from its components.
    pub fn xyz(x: i64, y: i64, z: i64) -> (r: Vec3)
        ensures
            r == (Vec3 { x: x, y: y, z: z }),
    {
        Vec3 { x, y, z }
    }

    /// First component.
    pub fn x(&self) -> (r: i64)
        ensures
            r == self.x,
    {
        self.x
    }

    /// Second component.
    pub fn y(&self) -> (r: i64)
        ensures
            r == self.y,
    {
        self.y
    }

    /// Third component.
    pub fn z(&self) -> (r: i64)
        ensures
            r == self.z,
    {
        self.z
    }

    /// Componentwise sum.
    pub fn add(self, rhs: Vec3) -> (r: Vec3)
        ensures
            r == vadd_s(self, rhs),
    {
        Vec3 { x: fadd(self.x, rhs.x), y: fadd(self.y, rhs.y), z: fadd(self.z, rhs.z) }
    }

    /// Componentwise difference.
    pub fn sub(self, rhs: Vec3) -> (r: Vec3)
        ensures
            r == vsub_s(self, rhs),
    {
        Vec3 { x: fsub(self.x, rhs.x), y: fsub(self.y, rhs.y), z: fsub(self.z, rhs.z) }
    }

    /// Componentwise scaling.
    pub fn mul(self, rhs: i64) -> (r: Vec3)
        ensures
            r == vscale_s(self, rhs as int),
    {
        Vec3 { x: fmul(self.x, rhs), y: fmul(self.y, rhs), z: fmul(self.z, rhs) }
    }

    /// Componentwise division by a scalar.
    pub fn div(self, rhs: i64) -> (r: Vec3)
        requires
            rhs != 0,
        ensures
            r == vdiv_s(self, rhs as int),
    {
        Vec3 { x: fdiv(self.x, rhs), y: fdiv(self.y, rhs), z: fdiv(self.z, rhs) }
    }

    /// Dot product.
    pub fn dot(&self, rhs: Vec3) -> (r: i64)
        ensures
            r as int == dot_s(*self, rhs),
    {
        fadd(fadd(fmul(self.x, rhs.x), fmul(self.y, rhs.y)), fmul(self.z, rhs.z))
    }

    /// Squared magnitude.
    pub fn magnitude_square(&self) -> (r: i64)
        ensures
            r as int == mag2_s(*self),
            r >= 0,
    {
        proof {
            lemma_mag2_nonneg(*self);
        }
        self.dot(*self)
    }

    /// Magnitude.
    pub fn magnitude(&self) -> (r: i64)
        ensures
            r as int == mag_s(*self),
            r >= 0,
    {
        let m2 = self.magnitude_square();
        fsqrt(m2)
    }

    /// Normalization, with a fixed fallback axis for the zero vector.
    pub fn normalized(&self) -> (r: Vec3)
        ensures
            r == normalized_s(*self),
    {
        let m2 = self.magnitude_square();
        if m2 == 0 {
            Vec3 { x: 0, y: 0, z: FX_ONE }
        } else {
            let m = fsqrt(m2);
            proof {
                crate::fixed::lemma_isqrt_property(m2 as int * (FX_ONE as int));
                assert(m >= 1) by (nonlinear_arith)
                    requires
                        m as int * m as int <= m2 as int * (FX_ONE as int),
                        (m as int + 1) * (m as int + 1) > m2 as int * (FX_ONE as int),
                        m2 >= 1,
                        m >= 0,
                ;
            }
            self.div(m)
        }
    }

    /// Cross product.
    pub fn product(&self, rhs: Vec3) -> (r: Vec3)
        ensures
            r == cross_s(*self, rhs),
    {
        Vec3 {
            x: fsub(fmul(self.y, rhs.z), fmul(self.z, rhs.y)),
            y: fsub(fmul(self.z, rhs.x), fmul(self.x, rhs.z)),
            z: fsub(fmul(self.x, rhs.y), fmul(self.y, rhs.x)),
        }
    }
}

} // verus!
