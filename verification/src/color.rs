//! RGBA colors over fixed-point scalars, unclamped below the saturation
//! bound (high-dynamic-range until output encoding).

use vstd::prelude::*;
use crate::fixed::{fadd, fadd_s, fdiv, fdiv_s, fmul, fmul_s, lemma_fmul_nonneg, FX_ONE};
use crate::vec3::Vec3;

verus! {

/// An (r, g, b, a) quadruple of fixed-point scalars.
#[derive(Debug, Clone, Copy, PartialEq, Eq, Structural)]
pub struct Color {
    pub r: i64,
    pub g: i64,
    pub b: i64,
    pub a: i64,
}

/// Componentwise sum.
pub open spec fn cadd_s(x: Color, y: Color) -> Color {
    Color {
        r: fadd_s(x.r as int, y.r as int) as i64,
        g: fadd_s(x.g as int, y.g as int) as i64,
        b: fadd_s(x.b as int, y.b as int) as i64,
        a: fadd_s(x.a as int, y.a as int) as i64,
    }
}

/// Componentwise scaling.
pub open spec fn cscale_s(x: Color, s: int) -> Color {
    Color {
        r: fmul_s(x.r as int, s) as i64,
        g: fmul_s(x.g as int, s) as i64,
        b: fmul_s(x.b as int, s) as i64,
        a: fmul_s(x.a as int, s) as i64,
    }
}

/// Componentwise product, the per-channel absorption of one color by another.
pub open spec fn cmul_s(x: Color, y: Color) -> Color {
    Color {
        r: fmul_s(x.r as int, y.r as int) as i64,
        g: fmul_s(x.g as int, y.g as int) as i64,
        b: fmul_s(x.b as int, y.b as int) as i64,
        a: fmul_s(x.a as int, y.a as int) as i64,
    }
}

/// No channel is negative.
pub open spec fn c_nonneg(x: Color) -> bool {
    x.r >= 0 && x.g >= 0 && x.b >= 0 && x.a >= 0
}

/// Adding nonnegative colors keeps every channel nonnegative.
pub proof fn lemma_cadd_nonneg(x: Color, y: Color)
    requires
        c_nonneg(x),
        c_nonneg(y),
    ensures
        c_nonneg(cadd_s(x, y)),
{
}

/// Scaling a nonnegative color by a nonnegative scalar keeps it nonnegative.
pub proof fn lemma_cscale_nonneg(x: Color, s: int)
    requires
        c_nonneg(x),
        s >= 0,
    ensures
        c_nonneg(cscale_s(x, s)),
{
    lemma_fmul_nonneg(x.r as int, s);
    lemma_fmul_nonneg(x.g as int, s);
    lemma_fmul_nonneg(x.b as int, s);
    lemma_fmul_nonneg(x.a as int, s);
}

/// The product of nonnegative colors is nonnegative.
pub proof fn lemma_cmul_nonneg(x: Color, y: Color)
    requires
        c_nonneg(x),
        c_nonneg(y),
    ensures
        c_nonneg(cmul_s(x, y)),
{
    lemma_fmul_nonneg(x.r as int, y.r as int);
    lemma_fmul_nonneg(x.g as int, y.g as int);
    lemma_fmul_nonneg(x.b as int, y.b as int);
    lemma_fmul_nonneg(x.a as int, y.a as int);
}

impl Color {
    /// The transparent zero color, also the accumulator's starting value.
    pub fn new() -> (r: Color)
        ensures
            r == (Color { r: 0i64, g: 0i64, b: 0i64, a: 0i64 }),
    {
        Color { r: 0, g: 0, b: 0, a: 0 }
    }

    /// A color from all four channels.
    pub fn from_rgba(r: i64, g: i64, b: i64, a: i64) -> (c: Color)
        ensures
            c == (Color { r: r, g: g, b: b, a: a }),
    {
        Color { r, g, b, a }
    }

    /// An opaque color from its three color channels.
    pub fn from_rgb(r: i64, g: i64, b: i64) -> (c: Color)
        ensures
            c == (Color { r: r, g: g, b: b, a: FX_ONE }),
    {
        Color { r, g, b, a: FX_ONE }
    }

    /// Opaque white.
    pub fn white() -> (c: Color)
        ensures
            c == (Color { r: FX_ONE, g: FX_ONE, b: FX_ONE, a: FX_ONE }),
    {
        Color::from_rgb(FX_ONE, FX_ONE, FX_ONE)
    }

    /// Opaque black.
    pub fn black() -> (c: Color)
        ensures
            c == (Color { r: 0i64, g: 0i64, b: 0i64, a: FX_ONE }),
    {
        Color::from_rgb(0, 0, 0)
    }

    /// Componentwise sum.
    pub fn add(self, rhs: Color) -> (c: Color)
        ensures
            c == cadd_s(self, rhs),
    {
        Color {
            r: fadd(self.r, rhs.r),
            g: fadd(self.g, rhs.g),
            b: fadd(self.b, rhs.b),
            a: fadd(self.a, rhs.a),
        }
    }

    /// Componentwise scaling.
    pub fn mul(self, rhs: i64) -> (c: Color)
        ensures
            c == cscale_s(self, rhs as int),
    {
        Color {
            r: fmul(self.r, rhs),
            g: fmul(self.g, rhs),
            b: fmul(self.b, rhs),
            a: fmul(self.a, rhs),
        }
    }

    /// Componentwise product.
    pub fn mul_color(self, rhs: Color) -> (c: Color)
        ensures
            c == cmul_s(self, rhs),
    {
        Color {
            r: fmul(self.r, rhs.r),
            g: fmul(self.g, rhs.g),
            b: fmul(self.b, rhs.b),
            a: fmul(self.a, rhs.a),
        }
    }
}

/// Map a direction to a displayable color: each component moved from
/// [-1, 1] to [0, 1], with full alpha.
pub fn vec_to_color(v: &Vec3) -> (c: Color)
    ensures
        c.r as int == fdiv_s(fadd_s(v.x as int, FX_ONE as int), 2 * FX_ONE),
        c.g as int == fdiv_s(fadd_s(v.y as int, FX_ONE as int), 2 * FX_ONE),
        c.b as int == fdiv_s(fadd_s(v.z as int, FX_ONE as int), 2 * FX_ONE),
        c.a == FX_ONE,
{
    Color {
        r: fdiv(fadd(v.x, FX_ONE), 2 * FX_ONE),
        g: fdiv(fadd(v.y, FX_ONE), 2 * FX_ONE),
        b: fdiv(fadd(v.z, FX_ONE), 2 * FX_ONE),
        a: FX_ONE,
    }
}

} // verus!
