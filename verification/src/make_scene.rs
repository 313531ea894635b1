//! The sample scene: a box of rectangles around an emitting panel and a
//! sphere.  Every rotation in it is a multiple of a quarter turn, so
//! the sines and cosines are exact fixed-point values.

use vstd::prelude::*;
use crate::color::Color;
use crate::fixed::{fx, fx_milli, FX_ONE};
use crate::mat4::{det, det_s, lemma_det_identity, Mat4};
use crate::material::{default_material_s, mat_nonneg};
use crate::rect::Rect;
use crate::scene::{entity_inv_ok, mat_nonneg_all_s, Entity, Scene, Shape};
use crate::sphere::Sphere;
use crate::vec3::Vec3;

verus! {

/// Sine of a right-angle multiple, as a fixed-point scalar.
pub open spec fn sin_deg_s(deg: int) -> int {
    let d = deg % 360;
    if d == 90 {
        FX_ONE as int
    } else if d == 270 {
        -(FX_ONE as int)
    } else {
        0
    }
}

/// Cosine of a right-angle multiple, as a fixed-point scalar.
pub open spec fn cos_deg_s(deg: int) -> int {
    let d = deg % 360;
    if d == 0 {
        FX_ONE as int
    } else if d == 180 {
        -(FX_ONE as int)
    } else {
        0
    }
}

/// The exact sine and cosine of a right-angle multiple.
pub fn sin_cos_deg(deg: i64) -> (r: (i64, i64))
    requires
        -360 <= deg <= 360,
        deg % 90 == 0,
    ensures
        r.0 == sin_deg_s(deg as int),
        r.1 == cos_deg_s(deg as int),
{
    let d: i64 = if deg < 0 {
        deg + 360
    } else {
        deg
    };
    proof {
        if deg < 0 {
            vstd::arithmetic::div_mod::lemma_mod_add_multiples_vanish(deg as int, 360);
            assert(d == deg + 360);
            vstd::arithmetic::div_mod::lemma_small_mod((deg + 360) as nat, 360nat);
        } else if deg == 360 {
            vstd::arithmetic::div_mod::lemma_mod_self_0(360);
        } else {
            vstd::arithmetic::div_mod::lemma_small_mod(deg as nat, 360nat);
        }
    }
    if d == 90 {
        (FX_ONE, 0)
    } else if d == 180 {
        (0, -FX_ONE)
    } else if d == 270 {
        (-FX_ONE, 0)
    } else {
        (0, FX_ONE)
    }
}

/// A world transform from a translation, per-axis right-angle rotations
/// in degrees, and a uniform scale: translation applied last, then
/// scale, then the x, y and z rotations.
fn trs(translate: Vec3, rotate: &[i64; 3], scale: i64) -> Mat4
    requires
        forall|k: int| 0 <= k < 3 ==> -360 <= rotate[k] <= 360 && rotate[k] % 90 == 0,
{
    let (sx, cx) = sin_cos_deg(rotate[0]);
    let (sy, cy) = sin_cos_deg(rotate[1]);
    let (sz, cz) = sin_cos_deg(rotate[2]);
    Mat4::translate(translate.x, translate.y, translate.z)
        .mul(Mat4::scale(scale))
        .mul(Mat4::rotate_x(sx, cx))
        .mul(Mat4::rotate_y(sy, cy))
        .mul(Mat4::rotate_z(sz, cz))
}

/// Place a shape under a transform, insisting on an invertible one: a
/// degenerate transform is replaced by the identity placement (the
/// library's degrade policy), so every placed entity carries a matrix
/// with a nonzero determinant.
fn place(matrix: Mat4, shape: Shape) -> (e: Entity)
    ensures
        e.shape == shape,
        e.material == default_material_s(),
        entity_inv_ok(e),
        det_s(e.matrix) != 0,
{
    let d = det(&matrix);
    if d != 0 {
        Entity::new(matrix, shape)
    } else {
        let id = Mat4::identity();
        proof {
            lemma_det_identity(id);
        }
        Entity::new(id, shape)
    }
}

/// A rectangle wall under a transform, with the given reflectance and
/// emission.
fn wall(matrix: Mat4, albedo: Color, emission: Color) -> (e: Entity)
    ensures
        e.shape == (Shape::Rect(Rect {  })),
        det_s(e.matrix) != 0,
        entity_inv_ok(e),
        e.material.albedo == albedo,
        e.material.emission == emission,
{
    let mut e = place(matrix, Shape::Rect(Rect::new()));
    e.material.albedo = albedo;
    e.material.emission = emission;
    e
}

/// Build the sample scene: a diffuse sphere, an emitting panel, and six
/// rectangles closing the box; the right wall is tinted and faintly
/// emissive, and every placed transform is invertible.
#[verifier::rlimit(100)]
pub fn make_scene() -> (s: Scene)
    ensures
        s.objects@.len() == 8,
        mat_nonneg_all_s(s.objects@),
        forall|i: int| 0 <= i < 8 ==> entity_inv_ok(#[trigger] s.objects@[i]),
        forall|i: int| 0 <= i < 8 ==> det_s((#[trigger] s.objects@[i]).matrix) != 0,
        s.objects@[0].shape == Shape::Sphere(Sphere { radius: 32768i64 }),
        forall|i: int| 1 <= i < 8 ==> (#[trigger] s.objects@[i]).shape == Shape::Rect(Rect {  }),
        s.objects@[1].material.emission == (Color {
            r: 524288i64,
            g: 524288i64,
            b: 524288i64,
            a: 524288i64,
        }),
        s.objects@[6].material.emission == (Color { r: 32768i64, g: 0i64, b: 0i64, a: FX_ONE }),
        forall|i: int|
            0 <= i < 8 && i != 1 && i != 6 ==> (#[trigger] s.objects@[i]).material.emission == (
            Color { r: 0i64, g: 0i64, b: 0i64, a: FX_ONE }),
{
    let mut scene = Scene::new();

    let white = Color::from_rgb(FX_ONE, FX_ONE, FX_ONE);
    let dark = Color::from_rgb(0, 0, 0);
    proof {
        assert((65536int * 524288) / 65536 == 524288) by (nonlinear_arith);
        assert((500int * 65536) / 1000 == 32768) by (nonlinear_arith);
        assert((200int * 65536) / 1000 >= 0 && (800int * 65536) / 1000 >= 0 && (100int * 65536)
            / 1000 >= 0) by (nonlinear_arith);
    }

    let mut s1 = place(
        trs(Vec3::xyz(0, fx_milli(200), 0), &[0, 0, 0], FX_ONE),
        Shape::Sphere(Sphere::new(32768)),
    );
    s1.material.albedo = white;
    scene.objects.push(s1);

    let light = wall(
        trs(Vec3::xyz(0, fx_milli(-799), 0), &[-90, 0, 0], fx_milli(700)),
        dark,
        white.mul(fx(8)),
    );
    scene.objects.push(light);

    let roof = wall(trs(Vec3::xyz(0, fx_milli(-801), 0), &[90, 0, 0], fx(3)), white, dark);
    scene.objects.push(roof);

    let floor = wall(trs(Vec3::xyz(0, fx_milli(801), 0), &[-90, 0, 0], fx(3)), white, dark);
    scene.objects.push(floor);

    let w_back = wall(trs(Vec3::xyz(0, 0, fx_milli(803)), &[0, 0, 0], fx(3)), white, dark);
    scene.objects.push(w_back);

    let w_front = wall(trs(Vec3::xyz(0, 0, fx_milli(-803)), &[0, 180, 0], fx(3)), white, dark);
    scene.objects.push(w_front);

    let w_right = wall(
        trs(Vec3::xyz(fx_milli(800), 0, 0), &[0, 90, 0], fx(3)),
        Color::from_rgb(fx(2), fx_milli(200), fx_milli(100)),
        Color::from_rgb(fx_milli(500), 0, 0),
    );
    scene.objects.push(w_right);

    let w_left = wall(
        trs(Vec3::xyz(fx_milli(-800), 0, 0), &[0, -90, 0], fx(3)),
        Color::from_rgb(fx_milli(200), fx_milli(800), fx_milli(100)),
        dark,
    );
    scene.objects.push(w_left);

    proof {
        assert(scene.objects@ =~= seq![s1, light, roof, floor, w_back, w_front, w_right, w_left]);
    }
    scene
}

} // verus!
