//! 4x4 homogeneous transforms over fixed-point scalars.
//!
//! The sixteen entries are stored row-major: entry `(column i, row j)`
//! lives at index `i + j * 4`.  A point transforms as rows times column
//! vector, with the translation in column 3.  Rotation constructors take
//! the sine and cosine of the angle as fixed-point scalars, so the
//! trigonometry itself stays outside the core.

use vstd::prelude::*;
use crate::fixed::{abs_s, div_towards_zero_s, fadd, fadd_s, fdiv, fdiv_s, fmul, fmul_s, fneg, fsub, fsub_s, sat_s, FX_ONE};
use crate::vec3::Vec3;

verus! {

/// A 4x4 matrix of fixed-point scalars.
#[derive(Debug, Clone, Copy)]
pub struct Mat4 {
    pub v: [i64; 16],
}

/// Flat index of entry (column `i`, row `j`).
pub open spec fn idx_s(i: int, j: int) -> int {
    i + j * 4
}

/// Flat index of entry (column `i`, row `j`).
pub fn idx(i: i32, j: i32) -> (r: usize)
    requires
        0 <= i < 4,
        0 <= j < 4,
    ensures
        r == idx_s(i as int, j as int),
        r < 16,
{
    (i + j * 4) as usize
}

/// Entry (column `i`, row `j`) of a matrix, as a mathematical integer.
pub open spec fn ent_s(m: Mat4, i: int, j: int) -> int {
    m.v[idx_s(i, j)] as int
}

/// Entry of the identity matrix.
pub open spec fn identity_e(i: int, j: int) -> int {
    if i == j {
        FX_ONE as int
    } else {
        0
    }
}

/// Entry of the uniform scaling matrix: the spatial diagonal carries
/// the factor, the homogeneous corner stays one so that composition
/// with a translation leaves the translation unscaled.
pub open spec fn scale_e(s: int, i: int, j: int) -> int {
    if i == j && i < 3 {
        s
    } else if i == 3 && j == 3 {
        FX_ONE as int
    } else {
        0
    }
}

/// Entry of the translation matrix.
pub open spec fn translate_e(x: int, y: int, z: int, i: int, j: int) -> int {
    if i == 3 && j == 0 {
        x
    } else if i == 3 && j == 1 {
        y
    } else if i == 3 && j == 2 {
        z
    } else if i == j {
        FX_ONE as int
    } else {
        0
    }
}

/// Entry of the rotation about the x axis with sine `s` and cosine `c`.
pub open spec fn rotate_x_e(s: int, c: int, i: int, j: int) -> int {
    if i == 1 && j == 1 {
        c
    } else if i == 2 && j == 1 {
        sat_s(-s)
    } else if i == 1 && j == 2 {
        s
    } else if i == 2 && j == 2 {
        c
    } else if i == j {
        if i == 0 || i == 3 {
            FX_ONE as int
        } else {
            c
        }
    } else {
        0
    }
}

/// Entry of the rotation about the y axis with sine `s` and cosine `c`.
pub open spec fn rotate_y_e(s: int, c: int, i: int, j: int) -> int {
    if i == 0 && j == 0 {
        c
    } else if i == 2 && j == 0 {
        s
    } else if i == 0 && j == 2 {
        sat_s(-s)
    } else if i == 2 && j == 2 {
        c
    } else if (i == 1 && j == 1) || (i == 3 && j == 3) {
        FX_ONE as int
    } else {
        0
    }
}

/// Entry of the rotation about the z axis with sine `s` and cosine `c`.
pub open spec fn rotate_z_e(s: int, c: int, i: int, j: int) -> int {
    if i == 0 && j == 0 {
        c
    } else if i == 1 && j == 0 {
        sat_s(-s)
    } else if i == 0 && j == 1 {
        s
    } else if i == 1 && j == 1 {
        c
    } else if (i == 2 && j == 2) || (i == 3 && j == 3) {
        FX_ONE as int
    } else {
        0
    }
}

/// Entry (i, j) of the product `a * b`: row j of `a` times column i of `b`.
pub open spec fn mul_e(a: Mat4, b: Mat4, i: int, j: int) -> int {
    fadd_s(
        fadd_s(
            fadd_s(
                fmul_s(ent_s(a, 0, j), ent_s(b, i, 0)),
                fmul_s(ent_s(a, 1, j), ent_s(b, i, 1)),
            ),
            fmul_s(ent_s(a, 2, j), ent_s(b, i, 2)),
        ),
        fmul_s(ent_s(a, 3, j), ent_s(b, i, 3)),
    )
}

/// Component `n` of a point transform: row n times the vector, plus the
/// translation entry of row n.
pub open spec fn tp_e(m: Mat4, v: Vec3, n: int) -> int {
    fadd_s(
        fadd_s(
            fadd_s(fmul_s(ent_s(m, 0, n), v.x as int), fmul_s(ent_s(m, 1, n), v.y as int)),
            fmul_s(ent_s(m, 2, n), v.z as int),
        ),
        ent_s(m, 3, n),
    )
}

/// A point transformed by the full affine matrix (translation applied).
pub open spec fn transform_point_s(m: Mat4, v: Vec3) -> Vec3 {
    Vec3 { x: tp_e(m, v, 0) as i64, y: tp_e(m, v, 1) as i64, z: tp_e(m, v, 2) as i64 }
}

/// Component `n` of a direction transform: row n times the vector,
/// ignoring the translation column.
pub open spec fn tv_e(m: Mat4, v: Vec3, n: int) -> int {
    fadd_s(
        fadd_s(fmul_s(ent_s(m, 0, n), v.x as int), fmul_s(ent_s(m, 1, n), v.y as int)),
        fmul_s(ent_s(m, 2, n), v.z as int),
    )
}

/// A direction transformed by the linear part only.
pub open spec fn transform_vector_s(m: Mat4, v: Vec3) -> Vec3 {
    Vec3 { x: tv_e(m, v, 0) as i64, y: tv_e(m, v, 1) as i64, z: tv_e(m, v, 2) as i64 }
}

impl Mat4 {
    /// The zero matrix.
    pub fn new() -> (r: Mat4)
        ensures
            forall|k: int| 0 <= k < 16 ==> r.v[k] == 0,
    {
        Mat4 { v: [0; 16] }
    }

    /// A matrix from its sixteen entries, row-major.
    pub fn from_vec(vec: &[i64; 16]) -> (r: Mat4)
        ensures
            r.v == *vec,
    {
        Mat4 { v: *vec }
    }

    /// The identity transform.
    pub fn identity() -> (r: Mat4)
        ensures
            forall|i: int, j: int|
                0 <= i < 4 && 0 <= j < 4 ==> ent_s(r, i, j) == identity_e(i, j),
    {
        Mat4 {
            v: [
                FX_ONE, 0, 0, 0,
                0, FX_ONE, 0, 0,
                0, 0, FX_ONE, 0,
                0, 0, 0, FX_ONE,
            ],
        }
    }

    /// Uniform scaling by `scale`.
    pub fn scale(scale: i64) -> (r: Mat4)
        ensures
            forall|i: int, j: int|
                0 <= i < 4 && 0 <= j < 4 ==> ent_s(r, i, j) == scale_e(scale as int, i, j),
    {
        Mat4 {
            v: [
                scale, 0, 0, 0,
                0, scale, 0, 0,
                0, 0, scale, 0,
                0, 0, 0, FX_ONE,
            ],
        }
    }

    /// The inverse, falling back to the identity when the matrix is
    /// degenerate, so that rendering continues rather than failing.
    pub fn invert(&self) -> (r: Mat4)
        ensures
            det_s(*self) != 0 ==> forall|k: int| 0 <= k < 16 ==> r.v[k] as int == inv_e(*self, k),
            det_s(*self) == 0 ==> forall|i: int, j: int|
                0 <= i < 4 && 0 <= j < 4 ==> ent_s(r, i, j) == identity_e(i, j),
    {
        match invert(self) {
            Some(m) => m,
            None => Mat4::identity(),
        }
    }

    /// Entry (column `i`, row `j`).
    pub fn get(&self, i: i32, j: i32) -> (r: i64)
        requires
            0 <= i < 4,
            0 <= j < 4,
        ensures
            r as int == ent_s(*self, i as int, j as int),
    {
        self.v[idx(i, j)]
    }

    /// Rotation about the x axis, from the angle's sine and cosine.
    pub fn rotate_x(sin_a: i64, cos_a: i64) -> (r: Mat4)
        ensures
            forall|i: int, j: int|
                0 <= i < 4 && 0 <= j < 4
                    ==> ent_s(r, i, j) == rotate_x_e(sin_a as int, cos_a as int, i, j),
    {
        Mat4::from_vec(
            &[
                FX_ONE, 0, 0, 0,
                0, cos_a, fneg(sin_a), 0,
                0, sin_a, cos_a, 0,
                0, 0, 0, FX_ONE,
            ],
        )
    }

    /// Rotation about the y axis, from the angle's sine and cosine.
    pub fn rotate_y(sin_a: i64, cos_a: i64) -> (r: Mat4)
        ensures
            forall|i: int, j: int|
                0 <= i < 4 && 0 <= j < 4
                    ==> ent_s(r, i, j) == rotate_y_e(sin_a as int, cos_a as int, i, j),
    {
        Mat4::from_vec(
            &[
                cos_a, 0, sin_a, 0,
                0, FX_ONE, 0, 0,
                fneg(sin_a), 0, cos_a, 0,
                0, 0, 0, FX_ONE,
            ],
        )
    }

    /// Rotation about the z axis, from the angle's sine and cosine.
    pub fn rotate_z(sin_a: i64, cos_a: i64) -> (r: Mat4)
        ensures
            forall|i: int, j: int|
                0 <= i < 4 && 0 <= j < 4
                    ==> ent_s(r, i, j) == rotate_z_e(sin_a as int, cos_a as int, i, j),
    {
        Mat4::from_vec(
            &[
                cos_a, fneg(sin_a), 0, 0,
                sin_a, cos_a, 0, 0,
                0, 0, FX_ONE, 0,
                0, 0, 0, FX_ONE,
            ],
        )
    }

    /// Translation by (x, y, z).
    pub fn translate(x: i64, y: i64, z: i64) -> (r: Mat4)
        ensures
            forall|i: int, j: int|
                0 <= i < 4 && 0 <= j < 4
                    ==> ent_s(r, i, j) == translate_e(x as int, y as int, z as int, i, j),
    {
        Mat4::from_vec(
            &[
                FX_ONE, 0, 0, x,
                0, FX_ONE, 0, y,
                0, 0, FX_ONE, z,
                0, 0, 0, FX_ONE,
            ],
        )
    }

    /// A copy with the translation column and the bottom row zeroed and
    /// the corner reset to one: the linear sub-transform.
    pub fn without_translate(&self) -> (r: Mat4)
        ensures
            forall|i: int, j: int|
                0 <= i < 4 && 0 <= j < 4
                    ==> ent_s(r, i, j) == (if i == 3 && j == 3 {
                        FX_ONE as int
                    } else if i == 3 || j == 3 {
                        0
                    } else {
                        ent_s(*self, i, j)
                    }),
    {
        Mat4::from_vec(
            &[
                self.v[0], self.v[1], self.v[2], 0,
                self.v[4], self.v[5], self.v[6], 0,
                self.v[8], self.v[9], self.v[10], 0,
                0, 0, 0, FX_ONE,
            ],
        )
    }

    /// Componentwise sum.
    pub fn add(self, rhs: Mat4) -> (r: Mat4)
        ensures
            forall|k: int| 0 <= k < 16 ==> r.v[k] as int == fadd_s(self.v[k] as int, rhs.v[k] as int),
    {
        Mat4 {
            v: [
                fadd(self.v[0], rhs.v[0]),
                fadd(self.v[1], rhs.v[1]),
                fadd(self.v[2], rhs.v[2]),
                fadd(self.v[3], rhs.v[3]),
                fadd(self.v[4], rhs.v[4]),
                fadd(self.v[5], rhs.v[5]),
                fadd(self.v[6], rhs.v[6]),
                fadd(self.v[7], rhs.v[7]),
                fadd(self.v[8], rhs.v[8]),
                fadd(self.v[9], rhs.v[9]),
                fadd(self.v[10], rhs.v[10]),
                fadd(self.v[11], rhs.v[11]),
                fadd(self.v[12], rhs.v[12]),
                fadd(self.v[13], rhs.v[13]),
                fadd(self.v[14], rhs.v[14]),
                fadd(self.v[15], rhs.v[15]),
            ],
        }
    }

    /// Componentwise difference.
    pub fn sub(self, rhs: Mat4) -> (r: Mat4)
        ensures
            forall|k: int| 0 <= k < 16 ==> r.v[k] as int == fsub_s(self.v[k] as int, rhs.v[k] as int),
    {
        Mat4 {
            v: [
                fsub(self.v[0], rhs.v[0]),
                fsub(self.v[1], rhs.v[1]),
                fsub(self.v[2], rhs.v[2]),
                fsub(self.v[3], rhs.v[3]),
                fsub(self.v[4], rhs.v[4]),
                fsub(self.v[5], rhs.v[5]),
                fsub(self.v[6], rhs.v[6]),
                fsub(self.v[7], rhs.v[7]),
                fsub(self.v[8], rhs.v[8]),
                fsub(self.v[9], rhs.v[9]),
                fsub(self.v[10], rhs.v[10]),
                fsub(self.v[11], rhs.v[11]),
                fsub(self.v[12], rhs.v[12]),
                fsub(self.v[13], rhs.v[13]),
                fsub(self.v[14], rhs.v[14]),
                fsub(self.v[15], rhs.v[15]),
            ],
        }
    }

    /// Componentwise division by a scalar.
    pub fn div(self, rhs: i64) -> (r: Mat4)
        requires
            rhs != 0,
        ensures
            forall|k: int| 0 <= k < 16 ==> r.v[k] as int == fdiv_s(self.v[k] as int, rhs as int),
    {
        Mat4 {
            v: [
                fdiv(self.v[0], rhs),
                fdiv(self.v[1], rhs),
                fdiv(self.v[2], rhs),
                fdiv(self.v[3], rhs),
                fdiv(self.v[4], rhs),
                fdiv(self.v[5], rhs),
                fdiv(self.v[6], rhs),
                fdiv(self.v[7], rhs),
                fdiv(self.v[8], rhs),
                fdiv(self.v[9], rhs),
                fdiv(self.v[10], rhs),
                fdiv(self.v[11], rhs),
                fdiv(self.v[12], rhs),
                fdiv(self.v[13], rhs),
                fdiv(self.v[14], rhs),
                fdiv(self.v[15], rhs),
            ],
        }
    }

    /// Matrix product: applying `self.mul(rhs)` to a point is applying
    /// `rhs` first and `self` second, up to fixed-point rounding.
    pub fn mul(self, rhs: Mat4) -> (r: Mat4)
        ensures
            forall|i: int, j: int|
                0 <= i < 4 && 0 <= j < 4 ==> ent_s(r, i, j) == mul_e(self, rhs, i, j),
    {
        Mat4 {
            v: [
                mul_entry(&self, &rhs, 0, 0),
                mul_entry(&self, &rhs, 1, 0),
                mul_entry(&self, &rhs, 2, 0),
                mul_entry(&self, &rhs, 3, 0),
                mul_entry(&self, &rhs, 0, 1),
                mul_entry(&self, &rhs, 1, 1),
                mul_entry(&self, &rhs, 2, 1),
                mul_entry(&self, &rhs, 3, 1),
                mul_entry(&self, &rhs, 0, 2),
                mul_entry(&self, &rhs, 1, 2),
                mul_entry(&self, &rhs, 2, 2),
                mul_entry(&self, &rhs, 3, 2),
                mul_entry(&self, &rhs, 0, 3),
                mul_entry(&self, &rhs, 1, 3),
                mul_entry(&self, &rhs, 2, 3),
                mul_entry(&self, &rhs, 3, 3),
            ],
        }
    }

    /// A point transformed by the full affine matrix.
    pub fn transform_point(&self, v: Vec3) -> (r: Vec3)
        ensures
            r == transform_point_s(*self, v),
    {
        Vec3 {
            x: fadd(tv_entry(self, &v, 0), self.v[3]),
            y: fadd(tv_entry(self, &v, 1), self.v[7]),
            z: fadd(tv_entry(self, &v, 2), self.v[11]),
        }
    }

    /// A direction transformed by the linear part only.
    pub fn transform_vector(&self, v: Vec3) -> (r: Vec3)
        ensures
            r == transform_vector_s(*self, v),
    {
        Vec3 { x: tv_entry(self, &v, 0), y: tv_entry(self, &v, 1), z: tv_entry(self, &v, 2) }
    }
}

fn mul_entry(a: &Mat4, b: &Mat4, i: i32, j: i32) -> (r: i64)
    requires
        0 <= i < 4,
        0 <= j < 4,
    ensures
        r as int == mul_e(*a, *b, i as int, j as int),
{
    fadd(
        fadd(
            fadd(fmul(a.get(0, j), b.get(i, 0)), fmul(a.get(1, j), b.get(i, 1))),
            fmul(a.get(2, j), b.get(i, 2)),
        ),
        fmul(a.get(3, j), b.get(i, 3)),
    )
}

fn tv_entry(m: &Mat4, v: &Vec3, n: i32) -> (r: i64)
    requires
        0 <= n < 4,
    ensures
        r as int == tv_e(*m, *v, n as int),
{
    fadd(
        fadd(fmul(m.get(0, n), v.x), fmul(m.get(1, n), v.y)),
        fmul(m.get(2, n), v.z),
    )
}

proof fn lemma_tp_term(e: int, c: int)
    requires
        abs_s(e) <= 0x40_0000,
        abs_s(c) <= 0x40_0000,
    ensures
        fmul_s(e, c) == div_towards_zero_s(e * c, FX_ONE as int),
        abs_s(fmul_s(e, c)) <= 0x1000_0000,
{
    crate::fixed::lemma_mul_bound(e, c, 0x40_0000, 0x40_0000);
    let p = e * c;
    vstd::arithmetic::div_mod::lemma_div_is_ordered(abs_s(p), 0x1000_0000_0000, 0x1_0000);
    assert(0x1000_0000_0000int / 0x1_0000int == 0x1000_0000int);
    vstd::arithmetic::div_mod::lemma_div_pos_is_pos(abs_s(p), 0x1_0000);
}

/// A matrix that equals the identity entrywise has determinant one.
pub proof fn lemma_det_identity(m: Mat4)
    requires
        forall|i: int, j: int|
            0 <= i < 4 && 0 <= j < 4 ==> ent_s(m, i, j) == identity_e(i, j),
    ensures
        det_s(m) == FX_ONE as int,
{
    assert(ent_s(m, 0, 0) == identity_e(0, 0));
    assert(m.v[0] as int == ent_s(m, 0, 0));
    assert(ent_s(m, 1, 0) == identity_e(1, 0));
    assert(m.v[1] as int == ent_s(m, 1, 0));
    assert(ent_s(m, 2, 0) == identity_e(2, 0));
    assert(m.v[2] as int == ent_s(m, 2, 0));
    assert(ent_s(m, 3, 0) == identity_e(3, 0));
    assert(m.v[3] as int == ent_s(m, 3, 0));
    assert(ent_s(m, 0, 1) == identity_e(0, 1));
    assert(m.v[4] as int == ent_s(m, 0, 1));
    assert(ent_s(m, 1, 1) == identity_e(1, 1));
    assert(m.v[5] as int == ent_s(m, 1, 1));
    assert(ent_s(m, 2, 1) == identity_e(2, 1));
    assert(m.v[6] as int == ent_s(m, 2, 1));
    assert(ent_s(m, 3, 1) == identity_e(3, 1));
    assert(m.v[7] as int == ent_s(m, 3, 1));
    assert(ent_s(m, 0, 2) == identity_e(0, 2));
    assert(m.v[8] as int == ent_s(m, 0, 2));
    assert(ent_s(m, 1, 2) == identity_e(1, 2));
    assert(m.v[9] as int == ent_s(m, 1, 2));
    assert(ent_s(m, 2, 2) == identity_e(2, 2));
    assert(m.v[10] as int == ent_s(m, 2, 2));
    assert(ent_s(m, 3, 2) == identity_e(3, 2));
    assert(m.v[11] as int == ent_s(m, 3, 2));
    assert(ent_s(m, 0, 3) == identity_e(0, 3));
    assert(m.v[12] as int == ent_s(m, 0, 3));
    assert(ent_s(m, 1, 3) == identity_e(1, 3));
    assert(m.v[13] as int == ent_s(m, 1, 3));
    assert(ent_s(m, 2, 3) == identity_e(2, 3));
    assert(m.v[14] as int == ent_s(m, 2, 3));
    assert(ent_s(m, 3, 3) == identity_e(3, 3));
    assert(m.v[15] as int == ent_s(m, 3, 3));
    assert((65536int * 65536int) / 65536int == 65536int) by (nonlinear_arith);
    vstd::arithmetic::div_mod::lemma_div_of0(65536);
    assert(fmul_s(0, 0) == 0 && fmul_s(0, 65536) == 0 && fmul_s(65536, 0) == 0 && fmul_s(
        65536,
        65536,
    ) == 65536);
    assert(mv(m, 0) == 65536 && mv(m, 5) == 65536 && mv(m, 10) == 65536 && mv(m, 15) == 65536);
    assert(mv(m, 1) == 0 && mv(m, 2) == 0 && mv(m, 3) == 0 && mv(m, 4) == 0 && mv(m, 6) == 0 && mv(m, 7) == 0 && mv(m, 8) == 0 && mv(m, 9) == 0 && mv(m, 11) == 0 && mv(m, 12) == 0 && mv(m, 13) == 0 && mv(m, 14) == 0);
    assert(q4_s(mv(m, 0), mv(m, 5), mv(m, 10), mv(m, 15)) == 65536);
    assert(q4_s(mv(m, 0), mv(m, 6), mv(m, 11), mv(m, 13)) == 0);
    assert(q4_s(mv(m, 0), mv(m, 7), mv(m, 9), mv(m, 14)) == 0);
    assert(q4_s(mv(m, 1), mv(m, 4), mv(m, 11), mv(m, 14)) == 0);
    assert(q4_s(mv(m, 1), mv(m, 6), mv(m, 8), mv(m, 15)) == 0);
    assert(q4_s(mv(m, 1), mv(m, 7), mv(m, 10), mv(m, 12)) == 0);
    assert(q4_s(mv(m, 2), mv(m, 4), mv(m, 9), mv(m, 15)) == 0);
    assert(q4_s(mv(m, 2), mv(m, 5), mv(m, 11), mv(m, 12)) == 0);
    assert(q4_s(mv(m, 2), mv(m, 7), mv(m, 8), mv(m, 13)) == 0);
    assert(q4_s(mv(m, 3), mv(m, 4), mv(m, 10), mv(m, 13)) == 0);
    assert(q4_s(mv(m, 3), mv(m, 5), mv(m, 8), mv(m, 14)) == 0);
    assert(q4_s(mv(m, 3), mv(m, 6), mv(m, 9), mv(m, 12)) == 0);
    assert(q4_s(mv(m, 0), mv(m, 5), mv(m, 11), mv(m, 14)) == 0);
    assert(q4_s(mv(m, 0), mv(m, 6), mv(m, 9), mv(m, 15)) == 0);
    assert(q4_s(mv(m, 0), mv(m, 7), mv(m, 10), mv(m, 13)) == 0);
    assert(q4_s(mv(m, 1), mv(m, 4), mv(m, 10), mv(m, 15)) == 0);
    assert(q4_s(mv(m, 1), mv(m, 6), mv(m, 11), mv(m, 12)) == 0);
    assert(q4_s(mv(m, 1), mv(m, 7), mv(m, 8), mv(m, 14)) == 0);
    assert(q4_s(mv(m, 2), mv(m, 4), mv(m, 11), mv(m, 13)) == 0);
    assert(q4_s(mv(m, 2), mv(m, 5), mv(m, 8), mv(m, 15)) == 0);
    assert(q4_s(mv(m, 2), mv(m, 7), mv(m, 9), mv(m, 12)) == 0);
    assert(q4_s(mv(m, 3), mv(m, 4), mv(m, 9), mv(m, 14)) == 0);
    assert(q4_s(mv(m, 3), mv(m, 5), mv(m, 10), mv(m, 12)) == 0);
    assert(q4_s(mv(m, 3), mv(m, 6), mv(m, 8), mv(m, 13)) == 0);
    assert(det_s(m) == FX_ONE as int);
}

/// The translation-free sub-transform strips exactly the translation:
/// applying it to any vector equals applying the full matrix to that
/// vector minus applying the full matrix to the zero vector, provided
/// the entries and components are moderate enough that no intermediate
/// value saturates.  (With entries at the saturation bound the
/// subtraction is clamped and the equality can fail.)
pub proof fn lemma_without_translate_strips_translation(m: Mat4, wt: Mat4, v: Vec3, n: int)
    requires
        0 <= n < 3,
        forall|i: int, j: int|
            0 <= i < 4 && 0 <= j < 4 ==> ent_s(wt, i, j) == (if i == 3 && j == 3 {
                FX_ONE as int
            } else if i == 3 || j == 3 {
                0
            } else {
                ent_s(m, i, j)
            }),
        forall|k: int| 0 <= k < 16 ==> abs_s(m.v[k] as int) <= 0x40_0000,
        abs_s(v.x as int) <= 0x40_0000,
        abs_s(v.y as int) <= 0x40_0000,
        abs_s(v.z as int) <= 0x40_0000,
    ensures
        tp_e(wt, v, n) == tp_e(m, v, n) - tp_e(m, Vec3 { x: 0i64, y: 0i64, z: 0i64 }, n),
{
    let zero = Vec3 { x: 0i64, y: 0i64, z: 0i64 };
    lemma_tp_term(ent_s(m, 0, n), v.x as int);
    lemma_tp_term(ent_s(m, 1, n), v.y as int);
    lemma_tp_term(ent_s(m, 2, n), v.z as int);
    assert(ent_s(m, 0, n) == m.v[idx_s(0, n)]);
    assert(fmul_s(ent_s(m, 0, n), 0) == 0);
    assert(fmul_s(ent_s(m, 1, n), 0) == 0);
    assert(fmul_s(ent_s(m, 2, n), 0) == 0);
    assert(tp_e(m, zero, n) == ent_s(m, 3, n));
}

/// Product of three scalars, multiplied left to right.
pub open spec fn q3_s(a: int, b: int, c: int) -> int {
    fmul_s(fmul_s(a, b), c)
}

/// Product of four scalars, multiplied left to right.
pub open spec fn q4_s(a: int, b: int, c: int, d: int) -> int {
    fmul_s(q3_s(a, b, c), d)
}

/// Entry `k` of a matrix, as a mathematical integer.
pub open spec fn mv(m: Mat4, k: int) -> int {
    m.v[k] as int
}

/// The determinant, expanded over all sixteen entries and evaluated
/// left to right in fixed-point arithmetic.
pub open spec fn det_s(m: Mat4) -> int {
    fsub_s(fsub_s(fsub_s(fsub_s(fsub_s(fsub_s(fsub_s(fsub_s(fsub_s(fsub_s(fsub_s(fsub_s(fadd_s(fadd_s(fadd_s(fadd_s(fadd_s(fadd_s(fadd_s(fadd_s(fadd_s(fadd_s(fadd_s(q4_s(mv(m, 0), mv(m, 5), mv(m, 10), mv(m, 15)), q4_s(mv(m, 0), mv(m, 6), mv(m, 11), mv(m, 13))), q4_s(mv(m, 0), mv(m, 7), mv(m, 9), mv(m, 14))), q4_s(mv(m, 1), mv(m, 4), mv(m, 11), mv(m, 14))), q4_s(mv(m, 1), mv(m, 6), mv(m, 8), mv(m, 15))), q4_s(mv(m, 1), mv(m, 7), mv(m, 10), mv(m, 12))), q4_s(mv(m, 2), mv(m, 4), mv(m, 9), mv(m, 15))), q4_s(mv(m, 2), mv(m, 5), mv(m, 11), mv(m, 12))), q4_s(mv(m, 2), mv(m, 7), mv(m, 8), mv(m, 13))), q4_s(mv(m, 3), mv(m, 4), mv(m, 10), mv(m, 13))), q4_s(mv(m, 3), mv(m, 5), mv(m, 8), mv(m, 14))), q4_s(mv(m, 3), mv(m, 6), mv(m, 9), mv(m, 12))), q4_s(mv(m, 0), mv(m, 5), mv(m, 11), mv(m, 14))), q4_s(mv(m, 0), mv(m, 6), mv(m, 9), mv(m, 15))), q4_s(mv(m, 0), mv(m, 7), mv(m, 10), mv(m, 13))), q4_s(mv(m, 1), mv(m, 4), mv(m, 10), mv(m, 15))), q4_s(mv(m, 1), mv(m, 6), mv(m, 11), mv(m, 12))), q4_s(mv(m, 1), mv(m, 7), mv(m, 8), mv(m, 14))), q4_s(mv(m, 2), mv(m, 4), mv(m, 11), mv(m, 13))), q4_s(mv(m, 2), mv(m, 5), mv(m, 8), mv(m, 15))), q4_s(mv(m, 2), mv(m, 7), mv(m, 9), mv(m, 12))), q4_s(mv(m, 3), mv(m, 4), mv(m, 9), mv(m, 14))), q4_s(mv(m, 3), mv(m, 5), mv(m, 10), mv(m, 12))), q4_s(mv(m, 3), mv(m, 6), mv(m, 8), mv(m, 13)))
}

/// Cofactor `k` of the adjugate (the numerator of inverse entry `k`),
/// evaluated left to right in fixed-point arithmetic.
pub open spec fn cof_e(m: Mat4, k: int) -> int {
    if k == 0 {
        fsub_s(fsub_s(fsub_s(fadd_s(fadd_s(q3_s(mv(m, 5), mv(m, 10), mv(m, 15)), q3_s(mv(m, 6), mv(m, 11), mv(m, 13))), q3_s(mv(m, 7), mv(m, 9), mv(m, 14))), q3_s(mv(m, 5), mv(m, 11), mv(m, 14))), q3_s(mv(m, 6), mv(m, 9), mv(m, 15))), q3_s(mv(m, 7), mv(m, 10), mv(m, 13)))
    } else if k == 1 {
        fsub_s(fsub_s(fsub_s(fadd_s(fadd_s(q3_s(mv(m, 1), mv(m, 11), mv(m, 14)), q3_s(mv(m, 2), mv(m, 9), mv(m, 15))), q3_s(mv(m, 3), mv(m, 10), mv(m, 13))), q3_s(mv(m, 1), mv(m, 10), mv(m, 15))), q3_s(mv(m, 2), mv(m, 11), mv(m, 13))), q3_s(mv(m, 3), mv(m, 9), mv(m, 14)))
    } else if k == 2 {
        fsub_s(fsub_s(fsub_s(fadd_s(fadd_s(q3_s(mv(m, 1), mv(m, 6), mv(m, 15)), q3_s(mv(m, 2), mv(m, 7), mv(m, 13))), q3_s(mv(m, 3), mv(m, 5), mv(m, 14))), q3_s(mv(m, 1), mv(m, 7), mv(m, 14))), q3_s(mv(m, 2), mv(m, 5), mv(m, 15))), q3_s(mv(m, 3), mv(m, 6), mv(m, 13)))
    } else if k == 3 {
        fsub_s(fsub_s(fsub_s(fadd_s(fadd_s(q3_s(mv(m, 1), mv(m, 7), mv(m, 10)), q3_s(mv(m, 2), mv(m, 5), mv(m, 11))), q3_s(mv(m, 3), mv(m, 6), mv(m, 9))), q3_s(mv(m, 1), mv(m, 6), mv(m, 11))), q3_s(mv(m, 2), mv(m, 7), mv(m, 9))), q3_s(mv(m, 3), mv(m, 5), mv(m, 10)))
    } else if k == 4 {
        fsub_s(fsub_s(fsub_s(fadd_s(fadd_s(q3_s(mv(m, 4), mv(m, 11), mv(m, 14)), q3_s(mv(m, 6), mv(m, 8), mv(m, 15))), q3_s(mv(m, 7), mv(m, 10), mv(m, 12))), q3_s(mv(m, 4), mv(m, 10), mv(m, 15))), q3_s(mv(m, 6), mv(m, 11), mv(m, 12))), q3_s(mv(m, 7), mv(m, 8), mv(m, 14)))
    } else if k == 5 {
        fsub_s(fsub_s(fsub_s(fadd_s(fadd_s(q3_s(mv(m, 0), mv(m, 10), mv(m, 15)), q3_s(mv(m, 2), mv(m, 11), mv(m, 12))), q3_s(mv(m, 3), mv(m, 8), mv(m, 14))), q3_s(mv(m, 0), mv(m, 11), mv(m, 14))), q3_s(mv(m, 2), mv(m, 8), mv(m, 15))), q3_s(mv(m, 3), mv(m, 10), mv(m, 12)))
    } else if k == 6 {
        fsub_s(fsub_s(fsub_s(fadd_s(fadd_s(q3_s(mv(m, 0), mv(m, 7), mv(m, 14)), q3_s(mv(m, 2), mv(m, 4), mv(m, 15))), q3_s(mv(m, 3), mv(m, 6), mv(m, 12))), q3_s(mv(m, 0), mv(m, 6), mv(m, 15))), q3_s(mv(m, 2), mv(m, 7), mv(m, 12))), q3_s(mv(m, 3), mv(m, 4), mv(m, 14)))
    } else if k == 7 {
        fsub_s(fsub_s(fsub_s(fadd_s(fadd_s(q3_s(mv(m, 0), mv(m, 6), mv(m, 11)), q3_s(mv(m, 2), mv(m, 7), mv(m, 8))), q3_s(mv(m, 3), mv(m, 4), mv(m, 10))), q3_s(mv(m, 0), mv(m, 7), mv(m, 10))), q3_s(mv(m, 2), mv(m, 4), mv(m, 11))), q3_s(mv(m, 3), mv(m, 6), mv(m, 8)))
    } else if k == 8 {
        fsub_s(fsub_s(fsub_s(fadd_s(fadd_s(q3_s(mv(m, 4), mv(m, 9), mv(m, 15)), q3_s(mv(m, 5), mv(m, 11), mv(m, 12))), q3_s(mv(m, 7), mv(m, 8), mv(m, 13))), q3_s(mv(m, 4), mv(m, 11), mv(m, 13))), q3_s(mv(m, 5), mv(m, 8), mv(m, 15))), q3_s(mv(m, 7), mv(m, 9), mv(m, 12)))
    } else if k == 9 {
        fsub_s(fsub_s(fsub_s(fadd_s(fadd_s(q3_s(mv(m, 0), mv(m, 11), mv(m, 13)), q3_s(mv(m, 1), mv(m, 8), mv(m, 15))), q3_s(mv(m, 3), mv(m, 9), mv(m, 12))), q3_s(mv(m, 0), mv(m, 9), mv(m, 15))), q3_s(mv(m, 1), mv(m, 11), mv(m, 12))), q3_s(mv(m, 3), mv(m, 8), mv(m, 13)))
    } else if k == 10 {
        fsub_s(fsub_s(fsub_s(fadd_s(fadd_s(q3_s(mv(m, 0), mv(m, 5), mv(m, 15)), q3_s(mv(m, 1), mv(m, 7), mv(m, 12))), q3_s(mv(m, 3), mv(m, 4), mv(m, 13))), q3_s(mv(m, 0), mv(m, 7), mv(m, 13))), q3_s(mv(m, 1), mv(m, 4), mv(m, 15))), q3_s(mv(m, 3), mv(m, 5), mv(m, 12)))
    } else if k == 11 {
        fsub_s(fsub_s(fsub_s(fadd_s(fadd_s(q3_s(mv(m, 0), mv(m, 7), mv(m, 9)), q3_s(mv(m, 1), mv(m, 4), mv(m, 11))), q3_s(mv(m, 3), mv(m, 5), mv(m, 8))), q3_s(mv(m, 0), mv(m, 5), mv(m, 11))), q3_s(mv(m, 1), mv(m, 7), mv(m, 8))), q3_s(mv(m, 3), mv(m, 4), mv(m, 9)))
    } else if k == 12 {
        fsub_s(fsub_s(fsub_s(fadd_s(fadd_s(q3_s(mv(m, 4), mv(m, 10), mv(m, 13)), q3_s(mv(m, 5), mv(m, 8), mv(m, 14))), q3_s(mv(m, 6), mv(m, 9), mv(m, 12))), q3_s(mv(m, 4), mv(m, 9), mv(m, 14))), q3_s(mv(m, 5), mv(m, 10), mv(m, 12))), q3_s(mv(m, 6), mv(m, 8), mv(m, 13)))
    } else if k == 13 {
        fsub_s(fsub_s(fsub_s(fadd_s(fadd_s(q3_s(mv(m, 0), mv(m, 9), mv(m, 14)), q3_s(mv(m, 1), mv(m, 10), mv(m, 12))), q3_s(mv(m, 2), mv(m, 8), mv(m, 13))), q3_s(mv(m, 0), mv(m, 10), mv(m, 13))), q3_s(mv(m, 1), mv(m, 8), mv(m, 14))), q3_s(mv(m, 2), mv(m, 9), mv(m, 12)))
    } else if k == 14 {
        fsub_s(fsub_s(fsub_s(fadd_s(fadd_s(q3_s(mv(m, 0), mv(m, 6), mv(m, 13)), q3_s(mv(m, 1), mv(m, 4), mv(m, 14))), q3_s(mv(m, 2), mv(m, 5), mv(m, 12))), q3_s(mv(m, 0), mv(m, 5), mv(m, 14))), q3_s(mv(m, 1), mv(m, 6), mv(m, 12))), q3_s(mv(m, 2), mv(m, 4), mv(m, 13)))
    } else if k == 15 {
        fsub_s(fsub_s(fsub_s(fadd_s(fadd_s(q3_s(mv(m, 0), mv(m, 5), mv(m, 10)), q3_s(mv(m, 1), mv(m, 6), mv(m, 8))), q3_s(mv(m, 2), mv(m, 4), mv(m, 9))), q3_s(mv(m, 0), mv(m, 6), mv(m, 9))), q3_s(mv(m, 1), mv(m, 4), mv(m, 10))), q3_s(mv(m, 2), mv(m, 5), mv(m, 8)))
    } else {
        0
    }
}

/// Entry `k` of the inverse: cofactor over determinant.
pub open spec fn inv_e(m: Mat4, k: int) -> int {
    fdiv_s(cof_e(m, k), det_s(m))
}

fn m3p(a: i64, b: i64, c: i64) -> (r: i64)
    ensures
        r as int == q3_s(a as int, b as int, c as int),
{
    fmul(fmul(a, b), c)
}

fn m4p(a: i64, b: i64, c: i64, d: i64) -> (r: i64)
    ensures
        r as int == q4_s(a as int, b as int, c as int, d as int),
{
    fmul(m3p(a, b, c), d)
}

/// The determinant of a matrix.
pub fn det(mat: &Mat4) -> (r: i64)
    ensures
        r as int == det_s(*mat),
{
    let v = &mat.v;
    fsub(fsub(fsub(fsub(fsub(fsub(fsub(fsub(fsub(fsub(fsub(fsub(fadd(fadd(fadd(fadd(fadd(fadd(fadd(fadd(fadd(fadd(fadd(m4p(v[0], v[5], v[10], v[15]), m4p(v[0], v[6], v[11], v[13])), m4p(v[0], v[7], v[9], v[14])), m4p(v[1], v[4], v[11], v[14])), m4p(v[1], v[6], v[8], v[15])), m4p(v[1], v[7], v[10], v[12])), m4p(v[2], v[4], v[9], v[15])), m4p(v[2], v[5], v[11], v[12])), m4p(v[2], v[7], v[8], v[13])), m4p(v[3], v[4], v[10], v[13])), m4p(v[3], v[5], v[8], v[14])), m4p(v[3], v[6], v[9], v[12])), m4p(v[0], v[5], v[11], v[14])), m4p(v[0], v[6], v[9], v[15])), m4p(v[0], v[7], v[10], v[13])), m4p(v[1], v[4], v[10], v[15])), m4p(v[1], v[6], v[11], v[12])), m4p(v[1], v[7], v[8], v[14])), m4p(v[2], v[4], v[11], v[13])), m4p(v[2], v[5], v[8], v[15])), m4p(v[2], v[7], v[9], v[12])), m4p(v[3], v[4], v[9], v[14])), m4p(v[3], v[5], v[10], v[12])), m4p(v[3], v[6], v[8], v[13]))
}

/// The inverse of a matrix, or `None` when the determinant is zero
/// (the fixed-point analogue of a determinant below machine epsilon).
#[verifier::rlimit(60)]
pub fn invert(mat: &Mat4) -> (r: Option<Mat4>)
    ensures
        r is Some <==> det_s(*mat) != 0,
        r matches Some(im) ==> forall|k: int| 0 <= k < 16 ==> im.v[k] as int == inv_e(*mat, k),
{
    let d = det(mat);
    if d == 0 {
        None
    } else {
        let v = &mat.v;
        let c0: i64 = fsub(fsub(fsub(fadd(fadd(m3p(v[5], v[10], v[15]), m3p(v[6], v[11], v[13])), m3p(v[7], v[9], v[14])), m3p(v[5], v[11], v[14])), m3p(v[6], v[9], v[15])), m3p(v[7], v[10], v[13]));
        let c1: i64 = fsub(fsub(fsub(fadd(fadd(m3p(v[1], v[11], v[14]), m3p(v[2], v[9], v[15])), m3p(v[3], v[10], v[13])), m3p(v[1], v[10], v[15])), m3p(v[2], v[11], v[13])), m3p(v[3], v[9], v[14]));
        let c2: i64 = fsub(fsub(fsub(fadd(fadd(m3p(v[1], v[6], v[15]), m3p(v[2], v[7], v[13])), m3p(v[3], v[5], v[14])), m3p(v[1], v[7], v[14])), m3p(v[2], v[5], v[15])), m3p(v[3], v[6], v[13]));
        let c3: i64 = fsub(fsub(fsub(fadd(fadd(m3p(v[1], v[7], v[10]), m3p(v[2], v[5], v[11])), m3p(v[3], v[6], v[9])), m3p(v[1], v[6], v[11])), m3p(v[2], v[7], v[9])), m3p(v[3], v[5], v[10]));
        let c4: i64 = fsub(fsub(fsub(fadd(fadd(m3p(v[4], v[11], v[14]), m3p(v[6], v[8], v[15])), m3p(v[7], v[10], v[12])), m3p(v[4], v[10], v[15])), m3p(v[6], v[11], v[12])), m3p(v[7], v[8], v[14]));
        let c5: i64 = fsub(fsub(fsub(fadd(fadd(m3p(v[0], v[10], v[15]), m3p(v[2], v[11], v[12])), m3p(v[3], v[8], v[14])), m3p(v[0], v[11], v[14])), m3p(v[2], v[8], v[15])), m3p(v[3], v[10], v[12]));
        let c6: i64 = fsub(fsub(fsub(fadd(fadd(m3p(v[0], v[7], v[14]), m3p(v[2], v[4], v[15])), m3p(v[3], v[6], v[12])), m3p(v[0], v[6], v[15])), m3p(v[2], v[7], v[12])), m3p(v[3], v[4], v[14]));
        let c7: i64 = fsub(fsub(fsub(fadd(fadd(m3p(v[0], v[6], v[11]), m3p(v[2], v[7], v[8])), m3p(v[3], v[4], v[10])), m3p(v[0], v[7], v[10])), m3p(v[2], v[4], v[11])), m3p(v[3], v[6], v[8]));
        let c8: i64 = fsub(fsub(fsub(fadd(fadd(m3p(v[4], v[9], v[15]), m3p(v[5], v[11], v[12])), m3p(v[7], v[8], v[13])), m3p(v[4], v[11], v[13])), m3p(v[5], v[8], v[15])), m3p(v[7], v[9], v[12]));
        let c9: i64 = fsub(fsub(fsub(fadd(fadd(m3p(v[0], v[11], v[13]), m3p(v[1], v[8], v[15])), m3p(v[3], v[9], v[12])), m3p(v[0], v[9], v[15])), m3p(v[1], v[11], v[12])), m3p(v[3], v[8], v[13]));
        let c10: i64 = fsub(fsub(fsub(fadd(fadd(m3p(v[0], v[5], v[15]), m3p(v[1], v[7], v[12])), m3p(v[3], v[4], v[13])), m3p(v[0], v[7], v[13])), m3p(v[1], v[4], v[15])), m3p(v[3], v[5], v[12]));
        let c11: i64 = fsub(fsub(fsub(fadd(fadd(m3p(v[0], v[7], v[9]), m3p(v[1], v[4], v[11])), m3p(v[3], v[5], v[8])), m3p(v[0], v[5], v[11])), m3p(v[1], v[7], v[8])), m3p(v[3], v[4], v[9]));
        let c12: i64 = fsub(fsub(fsub(fadd(fadd(m3p(v[4], v[10], v[13]), m3p(v[5], v[8], v[14])), m3p(v[6], v[9], v[12])), m3p(v[4], v[9], v[14])), m3p(v[5], v[10], v[12])), m3p(v[6], v[8], v[13]));
        let c13: i64 = fsub(fsub(fsub(fadd(fadd(m3p(v[0], v[9], v[14]), m3p(v[1], v[10], v[12])), m3p(v[2], v[8], v[13])), m3p(v[0], v[10], v[13])), m3p(v[1], v[8], v[14])), m3p(v[2], v[9], v[12]));
        let c14: i64 = fsub(fsub(fsub(fadd(fadd(m3p(v[0], v[6], v[13]), m3p(v[1], v[4], v[14])), m3p(v[2], v[5], v[12])), m3p(v[0], v[5], v[14])), m3p(v[1], v[6], v[12])), m3p(v[2], v[4], v[13]));
        let c15: i64 = fsub(fsub(fsub(fadd(fadd(m3p(v[0], v[5], v[10]), m3p(v[1], v[6], v[8])), m3p(v[2], v[4], v[9])), m3p(v[0], v[6], v[9])), m3p(v[1], v[4], v[10])), m3p(v[2], v[5], v[8]));
        Some(
            Mat4 {
                v: [
                    fdiv(c0, d),
                    fdiv(c1, d),
                    fdiv(c2, d),
                    fdiv(c3, d),
                    fdiv(c4, d),
                    fdiv(c5, d),
                    fdiv(c6, d),
                    fdiv(c7, d),
                    fdiv(c8, d),
                    fdiv(c9, d),
                    fdiv(c10, d),
                    fdiv(c11, d),
                    fdiv(c12, d),
                    fdiv(c13, d),
                    fdiv(c14, d),
                    fdiv(c15, d)
                ],
            },
        )
    }
}

} // verus!
