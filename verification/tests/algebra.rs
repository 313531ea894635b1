use x3d::color::{vec_to_color, Color};
use x3d::fixed::{fadd, fdiv, fmul, fsqrt, fsub, fx, fx_milli, FX_ONE, FX_SAT};
use x3d::make_scene::sin_cos_deg;
use x3d::mat4::{det, idx, invert, Mat4};
use x3d::scene::without_translate;
use x3d::vec3::Vec3;

const ONE: i64 = FX_ONE;

#[test]
fn fixed_ops_exact() {
    assert_eq!(fadd(3 * ONE, 4 * ONE), 7 * ONE);
    assert_eq!(fsub(3 * ONE, 4 * ONE), -ONE);
    assert_eq!(fmul(2 * ONE, 3 * ONE), 6 * ONE);
    assert_eq!(fmul(-3 * ONE, 2 * ONE), -6 * ONE);
    assert_eq!(fdiv(ONE, 2 * ONE), ONE / 2);
    assert_eq!(fdiv(-ONE, 2 * ONE), -(ONE / 2));
    assert_eq!(fx(5), 5 * ONE);
    assert_eq!(fx_milli(200), 13107);
    assert_eq!(fx_milli(-799), -52363);
}

#[test]
fn fixed_ops_saturate() {
    assert_eq!(fadd(FX_SAT, FX_SAT), FX_SAT);
    assert_eq!(fsub(-FX_SAT, FX_SAT), -FX_SAT);
    assert_eq!(fmul(FX_SAT, FX_SAT), FX_SAT);
}

#[test]
fn fixed_sqrt_exact() {
    assert_eq!(fsqrt(4 * ONE), 2 * ONE);
    assert_eq!(fsqrt(0), 0);
    assert_eq!(fsqrt(ONE), ONE);
    // floor(sqrt(2) * 65536) = 92681
    assert_eq!(fsqrt(2 * ONE), 92681);
}

#[test]
fn vec_ops_exact() {
    let a = Vec3::xyz(ONE, 2 * ONE, 3 * ONE);
    let b = Vec3::xyz(4 * ONE, 5 * ONE, 6 * ONE);
    assert_eq!(a.add(b), Vec3::xyz(5 * ONE, 7 * ONE, 9 * ONE));
    assert_eq!(b.sub(a), Vec3::xyz(3 * ONE, 3 * ONE, 3 * ONE));
    assert_eq!(a.dot(b), 32 * ONE);
    assert_eq!(a.mul(2 * ONE), Vec3::xyz(2 * ONE, 4 * ONE, 6 * ONE));
    assert_eq!(a.div(2 * ONE), Vec3::xyz(ONE / 2, ONE, 3 * ONE / 2));
    let x = Vec3::xyz(ONE, 0, 0);
    let y = Vec3::xyz(0, ONE, 0);
    assert_eq!(x.product(y), Vec3::xyz(0, 0, ONE));
    assert_eq!(y.product(x), Vec3::xyz(0, 0, -ONE));
    assert_eq!(a.magnitude_square(), 14 * ONE);
    assert_eq!(Vec3::xy(ONE, 2 * ONE), Vec3::xyz(ONE, 2 * ONE, 0));
    assert_eq!(a.x(), ONE);
    assert_eq!(a.y(), 2 * ONE);
    assert_eq!(a.z(), 3 * ONE);
}

#[test]
fn normalized_magnitude_near_one() {
    // magnitude of the normalized vector stays within a few fixed-point
    // quanta of 1.0, for several directions
    let vs = [
        Vec3::xyz(3 * ONE, 4 * ONE, 0),
        Vec3::xyz(ONE, ONE, ONE),
        Vec3::xyz(-7 * ONE, 2 * ONE, 5 * ONE),
        Vec3::xyz(ONE / 2, -ONE / 4, ONE / 8),
    ];
    for v in vs.iter() {
        let m = v.normalized().magnitude();
        assert!((m - ONE).abs() <= 4, "magnitude {} not near one", m);
    }
}

#[test]
fn normalized_zero_fallback() {
    assert_eq!(Vec3::new().normalized(), Vec3::xyz(0, 0, ONE));
}

#[test]
fn color_ops_exact() {
    let c = Color::from_rgb(ONE, ONE / 2, 0);
    assert_eq!(c.a, ONE);
    let d = c.mul(2 * ONE);
    assert_eq!((d.r, d.g, d.b, d.a), (2 * ONE, ONE, 0, 2 * ONE));
    let s = c.add(d);
    assert_eq!((s.r, s.g, s.b), (3 * ONE, ONE + ONE / 2, 0));
    let m = c.mul_color(Color::from_rgba(ONE / 2, ONE, ONE, ONE));
    assert_eq!((m.r, m.g, m.b), (ONE / 2, ONE / 2, 0));
    assert_eq!(Color::white().r, ONE);
    assert_eq!(Color::black().r, 0);
    assert_eq!(Color::black().a, ONE);
    assert_eq!(Color::new().a, 0);
}

#[test]
fn vec_to_color_centers_components() {
    let c = vec_to_color(&Vec3::xyz(0, ONE, -ONE));
    assert_eq!((c.r, c.g, c.b, c.a), (ONE / 2, ONE, 0, ONE));
}

#[test]
fn mat_idx_layout() {
    assert_eq!(idx(0, 0), 0);
    assert_eq!(idx(3, 0), 3);
    assert_eq!(idx(0, 1), 4);
    assert_eq!(idx(3, 2), 11);
    assert_eq!(idx(3, 3), 15);
}

#[test]
fn mat_identity_and_translate() {
    let id = Mat4::identity();
    let p = Vec3::xyz(ONE, 2 * ONE, 3 * ONE);
    assert_eq!(id.transform_point(p), p);
    assert_eq!(id.transform_vector(p), p);
    let t = Mat4::translate(10 * ONE, 20 * ONE, 30 * ONE);
    assert_eq!(t.transform_point(p), Vec3::xyz(11 * ONE, 22 * ONE, 33 * ONE));
    assert_eq!(t.transform_vector(p), p);
    let prod = t.mul(id);
    for i in 0..4 {
        for j in 0..4 {
            assert_eq!(prod.get(i, j), t.get(i, j));
        }
    }
}

#[test]
fn mat_add_sub_div_componentwise() {
    let a = Mat4::scale(4 * ONE);
    let b = Mat4::identity();
    let s = a.add(b);
    assert_eq!(s.get(0, 0), 5 * ONE);
    assert_eq!(s.get(1, 0), 0);
    let d = a.sub(b);
    assert_eq!(d.get(2, 2), 3 * ONE);
    assert_eq!(a.get(3, 3), ONE);
    let h = a.div(2 * ONE);
    assert_eq!(h.get(1, 1), 2 * ONE);
}

#[test]
fn mat_invert_times_matrix_near_identity() {
    let m = Mat4::translate(ONE, 2 * ONE, 3 * ONE).mul(Mat4::scale(2 * ONE));
    assert_ne!(det(&m), 0);
    let inv = m.invert();
    let prod = m.mul(inv);
    for i in 0..4 {
        for j in 0..4 {
            let want = if i == j { ONE } else { 0 };
            let got = prod.get(i, j);
            assert!((got - want).abs() <= 2, "entry ({}, {}) = {}", i, j, got);
        }
    }
}

#[test]
fn mat_invert_degenerate_is_none() {
    assert!(invert(&Mat4::new()).is_none());
    // the method substitutes the identity
    let id = Mat4::new().invert();
    for i in 0..4 {
        for j in 0..4 {
            let want = if i == j { ONE } else { 0 };
            assert_eq!(id.get(i, j), want);
        }
    }
}

#[test]
fn without_translate_strips_translation_only() {
    let m = Mat4::translate(5 * ONE, 6 * ONE, 7 * ONE).mul(Mat4::scale(3 * ONE));
    let wt = m.without_translate();
    let v = Vec3::xyz(2 * ONE, -ONE, ONE / 2);
    let lhs = wt.transform_point(v);
    let full = m.transform_point(v);
    let origin_image = m.transform_point(Vec3::new());
    assert_eq!(lhs, full.sub(origin_image));
    // the free helper zeroes only the translation column
    let stripped = without_translate(&m);
    assert_eq!(stripped.get(3, 0), 0);
    assert_eq!(stripped.get(3, 1), 0);
    assert_eq!(stripped.get(3, 2), 0);
    assert_eq!(stripped.get(0, 0), m.get(0, 0));
    assert_eq!(stripped.get(3, 3), m.get(3, 3));
}

#[test]
fn sin_cos_right_angles() {
    assert_eq!(sin_cos_deg(0), (0, ONE));
    assert_eq!(sin_cos_deg(90), (ONE, 0));
    assert_eq!(sin_cos_deg(180), (0, -ONE));
    assert_eq!(sin_cos_deg(270), (-ONE, 0));
    assert_eq!(sin_cos_deg(-90), (-ONE, 0));
    assert_eq!(sin_cos_deg(-180), (0, -ONE));
    assert_eq!(sin_cos_deg(360), (0, ONE));
}

#[test]
fn rotation_matrices_rotate_points() {
    let (s, c) = sin_cos_deg(90);
    let rx = Mat4::rotate_x(s, c);
    // a quarter turn about x sends y to z
    assert_eq!(rx.transform_point(Vec3::xyz(0, ONE, 0)), Vec3::xyz(0, 0, ONE));
    let ry = Mat4::rotate_y(s, c);
    assert_eq!(ry.transform_point(Vec3::xyz(0, 0, ONE)), Vec3::xyz(ONE, 0, 0));
    let rz = Mat4::rotate_z(s, c);
    assert_eq!(rz.transform_point(Vec3::xyz(ONE, 0, 0)), Vec3::xyz(0, ONE, 0));
}
