//! Saturating fixed-point scalars.
//!
//! A scalar is an `i64` holding the real value times [`FX_ONE`] (2^16).
//! Each operation computes its exact result in 128-bit arithmetic,
//! truncates divisions toward zero, and saturates the outcome into
//! `[-FX_SAT, FX_SAT]`.  Saturation means no operation needs a
//! precondition to avoid overflow, and every operation returns exactly
//! the value its specification names.

use vstd::prelude::*;

verus! {

/// The fixed-point representation of 1.0.
pub const FX_ONE: i64 = 65536;

/// Largest magnitude a fixed-point scalar can take; operations saturate here.
pub const FX_SAT: i64 = 0x8000_0000_0000;

/// Clamp a mathematical integer into the representable scalar range.
pub open spec fn sat_s(x: int) -> int {
    if x < -(FX_SAT as int) {
        -(FX_SAT as int)
    } else if x > FX_SAT as int {
        FX_SAT as int
    } else {
        x
    }
}

/// Quotient of `p / q` rounded toward zero (`q != 0`), the rounding the
/// executable operations use.
pub open spec fn div_towards_zero_s(p: int, q: int) -> int {
    let m = abs_s(p) / abs_s(q);
    if (p >= 0) == (q >= 0) {
        m
    } else {
        -m
    }
}

/// Magnitude of a mathematical integer.
pub open spec fn abs_s(x: int) -> int {
    if x >= 0 {
        x
    } else {
        -x
    }
}

/// Saturating fixed-point addition.
pub open spec fn fadd_s(a: int, b: int) -> int {
    sat_s(a + b)
}

/// Saturating fixed-point subtraction.
pub open spec fn fsub_s(a: int, b: int) -> int {
    sat_s(a - b)
}

/// Saturating fixed-point multiplication: `a * b / FX_ONE`, truncated.
pub open spec fn fmul_s(a: int, b: int) -> int {
    sat_s(div_towards_zero_s(a * b, FX_ONE as int))
}

/// Saturating fixed-point division: `a * FX_ONE / b`, truncated (`b != 0`).
pub open spec fn fdiv_s(a: int, b: int) -> int {
    sat_s(div_towards_zero_s(a * (FX_ONE as int), b))
}

/// Saturating fixed-point addition.
pub fn fadd(a: i64, b: i64) -> (r: i64)
    ensures
        r == fadd_s(a as int, b as int),
{
    let s: i128 = a as i128 + b as i128;
    sat128(s)
}

/// Saturating fixed-point subtraction.
pub fn fsub(a: i64, b: i64) -> (r: i64)
    ensures
        r == fsub_s(a as int, b as int),
{
    let s: i128 = a as i128 - b as i128;
    sat128(s)
}

/// Saturating fixed-point negation.
pub fn fneg(a: i64) -> (r: i64)
    ensures
        r == sat_s(-(a as int)),
{
    let s: i128 = -(a as i128);
    sat128(s)
}

/// Clamp a wide intermediate into the scalar range.
fn sat128(x: i128) -> (r: i64)
    ensures
        r == sat_s(x as int),
{
    if x < -(FX_SAT as i128) {
        -FX_SAT
    } else if x > FX_SAT as i128 {
        FX_SAT
    } else {
        x as i64
    }
}

/// Bound on a product from bounds on its factors.
pub proof fn lemma_mul_bound(x: int, y: int, m: int, n: int)
    requires
        abs_s(x) <= m,
        abs_s(y) <= n,
    ensures
        abs_s(x * y) <= m * n,
{
    assert(abs_s(x * y) <= m * n) by (nonlinear_arith)
        requires
            abs_s(x) <= m,
            abs_s(y) <= n,
    ;
}

/// Reattach a sign to a magnitude and clamp into the scalar range.
fn sat_mag(mag: u128, neg: bool) -> (r: i64)
    ensures
        r == sat_s(if neg { -(mag as int) } else { mag as int }),
{
    if mag > FX_SAT as u128 {
        if neg {
            -FX_SAT
        } else {
            FX_SAT
        }
    } else {
        let m: i64 = mag as i64;
        if neg {
            -m
        } else {
            m
        }
    }
}

/// Saturating fixed-point multiplication.
pub fn fmul(a: i64, b: i64) -> (r: i64)
    ensures
        r == fmul_s(a as int, b as int),
{
    proof {
        lemma_mul_bound(a as int, b as int, 0x8000_0000_0000_0000, 0x8000_0000_0000_0000);
    }
    let p: i128 = (a as i128) * (b as i128);
    let neg: bool = p < 0;
    let mag: u128 = if neg {
        (-p) as u128
    } else {
        p as u128
    };
    let q: u128 = mag / 65536;
    assert(mag == abs_s(a as int * b as int));
    assert(q == abs_s(a as int * b as int) / (FX_ONE as int));
    sat_mag(q, neg)
}

/// Saturating fixed-point division, rounding toward zero.
pub fn fdiv(a: i64, b: i64) -> (r: i64)
    requires
        b != 0,
    ensures
        r == fdiv_s(a as int, b as int),
{
    let p: i128 = (a as i128) * 65536;
    let neg: bool = (p < 0) != (b < 0);
    let mag_p: u128 = if p < 0 {
        (-p) as u128
    } else {
        p as u128
    };
    let mag_b: u128 = if b < 0 {
        (-(b as i128)) as u128
    } else {
        b as u128
    };
    let q: u128 = mag_p / mag_b;
    assert(mag_p == abs_s(a as int * (FX_ONE as int)));
    assert(mag_b == abs_s(b as int));
    if p == 0 {
        assert(q == 0);
        0
    } else {
        sat_mag(q, neg)
    }
}

/// Integer square root, rounded down.
pub open spec fn isqrt_s(n: int) -> int
    decreases n,
{
    if n < 1 {
        0
    } else {
        let r = 2 * isqrt_s(n / 4);
        if (r + 1) * (r + 1) <= n {
            r + 1
        } else {
            r
        }
    }
}

/// `isqrt_s(n)` really is the square root rounded down.
pub proof fn lemma_isqrt_property(n: int)
    requires
        n >= 0,
    ensures
        isqrt_s(n) >= 0,
        isqrt_s(n) * isqrt_s(n) <= n,
        (isqrt_s(n) + 1) * (isqrt_s(n) + 1) > n,
    decreases n,
{
    if n < 1 {
    } else {
        lemma_isqrt_property(n / 4);
        let h = isqrt_s(n / 4);
        let r = 2 * h;
        assert(n == 4 * (n / 4) + n % 4 && 0 <= n % 4 < 4) by (nonlinear_arith)
            requires
                n >= 1,
        ;
        assert(r * r <= n) by (nonlinear_arith)
            requires
                h * h <= n / 4,
                r == 2 * h,
                n >= 4 * (n / 4),
        ;
        assert((r + 2) * (r + 2) > n) by (nonlinear_arith)
            requires
                (h + 1) * (h + 1) > n / 4,
                r == 2 * h,
                n < 4 * (n / 4) + 4,
        ;
        if (r + 1) * (r + 1) <= n {
            assert(isqrt_s(n) == r + 1);
        } else {
            assert(isqrt_s(n) == r);
        }
    }
}

/// Any nonnegative `r` with `r^2 <= n < (r+1)^2` equals `isqrt_s(n)`.
pub proof fn lemma_isqrt_unique(n: int, r: int)
    requires
        n >= 0,
        r >= 0,
        r * r <= n,
        (r + 1) * (r + 1) > n,
    ensures
        r == isqrt_s(n),
{
    lemma_isqrt_property(n);
    let s = isqrt_s(n);
    assert(r == s) by (nonlinear_arith)
        requires
            r >= 0,
            s >= 0,
            r * r <= n,
            (r + 1) * (r + 1) > n,
            s * s <= n,
            (s + 1) * (s + 1) > n,
    ;
}

/// Square root of a nonnegative fixed-point scalar, in fixed-point:
/// `isqrt(a * FX_ONE)` is the scaled square root of `a / FX_ONE`.
pub open spec fn fsqrt_s(a: int) -> int {
    isqrt_s(a * (FX_ONE as int))
}

fn isqrt_exec(n: u128) -> (r: u128)
    ensures
        r as int == isqrt_s(n as int),
        r * r <= n,
        (r + 1) * (r + 1) > n,
{
    let mut lo: u128 = 0;
    let mut hi: u128 = 0x1_0000_0000_0000_0000;
    assert(hi * hi > n) by (nonlinear_arith)
        requires
            hi == 0x1_0000_0000_0000_0000u128,
            n < 0x1_0000_0000_0000_0000_0000_0000_0000_0000int,
    ;
    while hi - lo > 1
        invariant
            lo < hi <= 0x1_0000_0000_0000_0000u128,
            lo * lo <= n,
            hi * hi > n,
        decreases hi - lo,
    {
        let mid: u128 = lo + (hi - lo) / 2;
        assert(lo < mid < hi);
        proof {
            lemma_mul_bound(mid as int, mid as int, 0xffff_ffff_ffff_ffff, 0xffff_ffff_ffff_ffff);
        }
        if mid * mid <= n {
            lo = mid;
        } else {
            hi = mid;
        }
    }
    assert(hi == lo + 1);
    proof {
        lemma_isqrt_unique(n as int, lo as int);
    }
    lo
}

/// Saturating fixed-point square root.
pub fn fsqrt(a: i64) -> (r: i64)
    requires
        a >= 0,
    ensures
        r == fsqrt_s(a as int),
        r >= 0,
{
    let n: u128 = (a as u128) * 65536;
    let r: u128 = isqrt_exec(n);
    assert(r < 0x1_0000_0000_0000i128) by (nonlinear_arith)
        requires
            r * r <= n,
            n < 0x1_0000_0000_0000_0000_0000_0000i128,
    ;
    r as i64
}

/// A whole number as a fixed-point scalar.
pub fn fx(n: i64) -> (r: i64)
    ensures
        r == sat_s(n * (FX_ONE as int)),
{
    let p: i128 = (n as i128) * 65536;
    sat128(p)
}

/// A fixed-point scalar worth `n / 1000`, truncated toward zero.
pub fn fx_milli(n: i64) -> (r: i64)
    ensures
        r == sat_s(div_towards_zero_s(n as int * (FX_ONE as int), 1000)),
{
    let p: i128 = (n as i128) * 65536;
    let neg: bool = p < 0;
    let mag: u128 = if neg {
        (-p) as u128
    } else {
        p as u128
    };
    let q: u128 = mag / 1000;
    assert(mag == abs_s(n as int * (FX_ONE as int)));
    sat_mag(q, neg)
}

/// A scalar times itself is never negative.
pub proof fn lemma_fmul_square_nonneg(x: int)
    ensures
        fmul_s(x, x) >= 0,
{
    assert(x * x >= 0) by (nonlinear_arith);
}

/// Multiplying nonnegative scalars gives a nonnegative scalar.
pub proof fn lemma_fmul_nonneg(a: int, b: int)
    requires
        a >= 0,
        b >= 0,
    ensures
        fmul_s(a, b) >= 0,
{
    assert(a * b >= 0) by (nonlinear_arith)
        requires
            a >= 0,
            b >= 0,
    ;
}

} // verus!
