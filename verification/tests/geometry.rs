use x3d::fixed::FX_ONE;
use x3d::mat4::Mat4;
use x3d::ray::Ray;
use x3d::rect::Rect;
use x3d::renderer::rayhit;
use x3d::scene::{Entity, Scene, Shape};
use x3d::sphere::Sphere;
use x3d::vec3::Vec3;

const ONE: i64 = FX_ONE;

fn forward_ray() -> Ray {
    Ray::new(Vec3::xyz(0, 0, -2 * ONE), Vec3::xyz(0, 0, ONE))
}

#[test]
fn sphere_hit_at_one() {
    // a ray from (0,0,-2) toward +z meets the unit sphere at t = 1.0
    let s = Sphere::new(ONE);
    assert_eq!(s.ray_cast(&forward_ray()), Some(ONE));
    // and the surface normal at the hit point is (0,0,-1)
    assert_eq!(s.normal(Vec3::xyz(0, 0, -ONE)), Vec3::xyz(0, 0, -ONE));
}

#[test]
fn sphere_interior_ray_hits_far_root() {
    // from the center of the unit sphere the near root is -1.0; the far
    // root 1.0 is the nearest nonnegative one and must be returned
    let s = Sphere::new(ONE);
    let inside = Ray::new(Vec3::new(), Vec3::xyz(0, 0, ONE));
    assert_eq!(s.ray_cast(&inside), Some(ONE));
}

#[test]
fn sphere_behind_is_missed() {
    let s = Sphere::new(ONE);
    let away = Ray::new(Vec3::xyz(0, 0, -2 * ONE), Vec3::xyz(0, 0, -ONE));
    assert_eq!(s.ray_cast(&away), None);
}

#[test]
fn sphere_tangent_discriminant_rejected() {
    // the ray grazes the sphere: the discriminant is not positive
    let s = Sphere::new(ONE);
    let graze = Ray::new(Vec3::xyz(ONE, 0, -2 * ONE), Vec3::xyz(0, 0, ONE));
    assert_eq!(s.ray_cast(&graze), None);
}

#[test]
fn rect_hit_at_one() {
    let r = Rect::new();
    let ray = Ray::new(Vec3::xyz(0, 0, -ONE), Vec3::xyz(0, 0, ONE));
    assert_eq!(r.ray_cast(&ray), Some(ONE));
    assert_eq!(r.normal(Vec3::new()), Vec3::xyz(0, 0, -ONE));
}

#[test]
fn rect_outside_half_extent_is_missed() {
    // local x = 0.6 lies outside [-0.5, 0.5)
    let r = Rect::new();
    let x06: i64 = 39322;
    let ray = Ray::new(Vec3::xyz(x06, 0, -ONE), Vec3::xyz(0, 0, ONE));
    assert_eq!(r.ray_cast(&ray), None);
}

#[test]
fn rect_boundary_is_half_open() {
    let r = Rect::new();
    let half: i64 = ONE / 2;
    let at_upper = Ray::new(Vec3::xyz(half, 0, -ONE), Vec3::xyz(0, 0, ONE));
    assert_eq!(r.ray_cast(&at_upper), None);
    let at_lower = Ray::new(Vec3::xyz(-half, 0, -ONE), Vec3::xyz(0, 0, ONE));
    assert_eq!(r.ray_cast(&at_lower), Some(ONE));
}

#[test]
fn rect_backface_and_parallel_rejected() {
    let r = Rect::new();
    let behind = Ray::new(Vec3::xyz(0, 0, ONE), Vec3::xyz(0, 0, -ONE));
    assert_eq!(r.ray_cast(&behind), None);
    let parallel = Ray::new(Vec3::xyz(0, 0, -ONE), Vec3::xyz(ONE, 0, 0));
    assert_eq!(r.ray_cast(&parallel), None);
    let leaving = Ray::new(Vec3::xyz(0, 0, -ONE), Vec3::xyz(0, 0, -ONE));
    assert_eq!(r.ray_cast(&leaving), None);
}

#[test]
fn nearest_hit_picks_smaller_t() {
    // two unit spheres on the same ray, hit at t = 1.0 and t = 3.0
    let mut scene = Scene::new();
    scene.objects.push(Entity::new(Mat4::identity(), Shape::Sphere(Sphere::new(ONE))));
    scene.objects.push(
        Entity::new(Mat4::translate(0, 0, 2 * ONE), Shape::Sphere(Sphere::new(ONE))),
    );
    let hit = rayhit(&forward_ray(), &scene).expect("must hit");
    assert_eq!(hit.entity, 0);
    assert_eq!(hit.t, ONE);

    // insertion order must not change which distance wins
    let mut flipped = Scene::new();
    flipped.objects.push(
        Entity::new(Mat4::translate(0, 0, 2 * ONE), Shape::Sphere(Sphere::new(ONE))),
    );
    flipped.objects.push(Entity::new(Mat4::identity(), Shape::Sphere(Sphere::new(ONE))));
    let hit2 = rayhit(&forward_ray(), &flipped).expect("must hit");
    assert_eq!(hit2.entity, 1);
    assert_eq!(hit2.t, ONE);
}

#[test]
fn rayhit_empty_scene_is_none() {
    let scene = Scene::new();
    assert!(rayhit(&forward_ray(), &scene).is_none());
}

#[test]
fn degenerate_entity_falls_back_to_identity() {
    // the zero matrix has no inverse; the entity keeps rendering with
    // the identity substituted
    let e = Entity::new(Mat4::new(), Shape::Sphere(Sphere::new(ONE)));
    for i in 0..4 {
        for j in 0..4 {
            let want = if i == j { ONE } else { 0 };
            assert_eq!(e.inv_matrix.get(i, j), want);
        }
    }
}

#[test]
fn entity_inverse_is_consistent() {
    let m = Mat4::translate(ONE, 0, 0).mul(Mat4::scale(2 * ONE));
    let e = Entity::new(m, Shape::Rect(Rect::new()));
    // a world point carried to the local frame and back stays close
    let p = Vec3::xyz(ONE / 2, ONE / 4, -ONE);
    let back = e.matrix.transform_point(e.inv_matrix.transform_point(p));
    assert!((back.x - p.x).abs() <= 2);
    assert!((back.y - p.y).abs() <= 2);
    assert!((back.z - p.z).abs() <= 2);
}

#[test]
fn ray_at_evaluates_parameter() {
    let r = Ray::new(Vec3::xyz(ONE, 0, 0), Vec3::xyz(0, 2 * ONE, 0));
    assert_eq!(r.at(ONE / 2), Vec3::xyz(ONE, ONE, 0));
    let r2 = Ray::new_origin_to(Vec3::xyz(0, 0, 0), Vec3::xyz(ONE, ONE, 0));
    assert_eq!(r2.dir, Vec3::xyz(ONE, ONE, 0));
    assert_eq!(r2.at(ONE), Vec3::xyz(ONE, ONE, 0));
}
