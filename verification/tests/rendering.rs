use x3d::color::Color;
use x3d::fixed::FX_ONE;
use x3d::make_scene::make_scene;
use x3d::mat4::Mat4;
use x3d::ray::Ray;
use x3d::rect::Rect;
use x3d::renderer::{merge_tiles, render, render_block, render_image, render_image_tiled,
    RenderParam, State};
use x3d::rng::RandomSource;
use x3d::sampler::{random_vector, rotate_align};
use x3d::scene::{Entity, Scene, Shape};
use x3d::sphere::Sphere;
use x3d::vec3::Vec3;

const ONE: i64 = FX_ONE;

/// 0.3^5 as a fixed-point scalar, the default quality's threshold.
const MIN_RAD_Q5: i64 = 159;

fn nonneg(c: &Color) -> bool {
    c.r >= 0 && c.g >= 0 && c.b >= 0 && c.a >= 0
}

fn tiny_scene() -> Scene {
    let mut scene = Scene::new();
    let mut light = Entity::new(
        Mat4::translate(0, 0, 2 * ONE),
        Shape::Rect(Rect::new()),
    );
    light.material.emission = Color::white().mul(4 * ONE);
    scene.objects.push(light);
    let mut ball = Entity::new(Mat4::identity(), Shape::Sphere(Sphere::new(ONE / 2)));
    ball.material.albedo = Color::white();
    scene.objects.push(ball);
    scene
}

#[test]
fn primary_call_terminates_at_quality_five() {
    // min_radius = 0.3^5: the weight halving must bottom out
    let scene = make_scene();
    let param = RenderParam { min_rad: MIN_RAD_Q5 };
    let mut stat = State { rng: RandomSource::from_seed(7) };
    let ray = Ray::new(Vec3::xyz(0, 0, -2 * ONE), Vec3::xyz(0, 0, ONE));
    let c = render(&param, &mut stat, &ray, ONE, &scene);
    assert!(c.is_some());
}

#[test]
fn estimate_never_negative() {
    let scene = make_scene();
    let param = RenderParam { min_rad: 1769 };
    let mut stat = State { rng: RandomSource::from_seed(3) };
    let dirs = [
        Vec3::xyz(0, 0, ONE),
        Vec3::xyz(ONE / 4, 0, ONE),
        Vec3::xyz(0, -ONE / 4, ONE),
    ];
    for d in dirs.iter() {
        let ray = Ray::new(Vec3::xyz(0, 0, -2 * ONE), d.normalized());
        if let Some(c) = render(&param, &mut stat, &ray, ONE, &scene) {
            assert!(nonneg(&c), "negative channel in {:?}", c);
        }
    }
}

#[test]
fn escaping_ray_estimates_nothing() {
    let scene = tiny_scene();
    let param = RenderParam { min_rad: 1769 };
    let mut stat = State { rng: RandomSource::from_seed(1) };
    let away = Ray::new(Vec3::xyz(0, 0, -2 * ONE), Vec3::xyz(0, 0, -ONE));
    assert!(render(&param, &mut stat, &away, ONE, &scene).is_none());
}

#[test]
fn emission_scales_with_residual_weight() {
    // a direct hit on a pure emitter returns emission times the weight
    let mut scene = Scene::new();
    let mut light = Entity::new(Mat4::translate(0, 0, 2 * ONE), Shape::Rect(Rect::new()));
    light.material.emission = Color::from_rgb(4 * ONE, 2 * ONE, ONE);
    scene.objects.push(light);
    let param = RenderParam { min_rad: ONE };  // no fan-out: weight never exceeds it
    let mut stat = State { rng: RandomSource::from_seed(1) };
    let ray = Ray::new(Vec3::xyz(0, 0, -2 * ONE), Vec3::xyz(0, 0, ONE));
    let c = render(&param, &mut stat, &ray, ONE / 2, &scene).expect("hit");
    // albedo accumulator stays zero and absorbs to zero; emission * 0.5 remains
    assert_eq!((c.r, c.g, c.b), (2 * ONE, ONE, ONE / 2));
}

#[test]
fn block_misses_stay_background_black() {
    let scene = Scene::new();
    let param = RenderParam { min_rad: ONE };
    let mut stat = State { rng: RandomSource::from_seed(9) };
    let buf = render_block(&param, &scene, 0, 0, 3, 2, 8, 8, &mut stat);
    assert_eq!(buf.len(), 2);
    for row in buf.iter() {
        assert_eq!(row.len(), 3);
        for c in row.iter() {
            // nothing to hit: the background contributes nothing
            assert_eq!((c.r, c.g, c.b, c.a), (0, 0, 0, ONE));
        }
    }
}

#[test]
fn block_pixel_shows_emission_without_bounces() {
    // without fan-out, a hit pixel is exactly the nearest entity's
    // emission at full weight: the center ray of this scene meets only
    // the emitting panel
    let mut scene = Scene::new();
    let mut light = Entity::new(Mat4::translate(0, 0, 2 * ONE), Shape::Rect(Rect::new()));
    light.material.emission = Color::white().mul(4 * ONE);
    scene.objects.push(light);
    let param = RenderParam { min_rad: ONE };
    let mut stat = State { rng: RandomSource::from_seed(2) };
    let buf = render_block(&param, &scene, 0, 0, 8, 8, 8, 8, &mut stat);
    let c = buf[4][4];
    assert_eq!((c.r, c.g, c.b, c.a), (4 * ONE, 4 * ONE, 4 * ONE, 4 * ONE));

    // with the diffuse ball in front, the center pixel absorbs to its
    // (zero) emission instead
    let both = tiny_scene();
    let mut stat2 = State { rng: RandomSource::from_seed(2) };
    let buf2 = render_block(&param, &both, 0, 0, 8, 8, 8, 8, &mut stat2);
    let c2 = buf2[4][4];
    assert_eq!((c2.r, c2.g, c2.b, c2.a), (0, 0, 0, ONE));
}

#[test]
fn merge_routes_each_pixel_to_its_tile() {
    // four 1x1 tiles merged into a 2x2 image, placed by tile index
    let mk = |v: i64| -> Vec<Vec<Color>> { vec![vec![Color::from_rgb(v, 0, 0)]] };
    let tiles = vec![mk(10), mk(20), mk(30), mk(40)];
    let img = merge_tiles(&tiles, 2, 2, 1);
    assert_eq!(img[0][0].r, 10);
    assert_eq!(img[0][1].r, 20);
    assert_eq!(img[1][0].r, 30);
    assert_eq!(img[1][1].r, 40);
}

#[test]
fn image_dimensions_match_any_tiling() {
    let scene = tiny_scene();
    let one_tile = render_image_tiled(8, 8, 30000, &scene, 8);
    let four_tiles = render_image_tiled(8, 8, 30000, &scene, 4);
    assert_eq!(one_tile.len(), 8);
    assert_eq!(four_tiles.len(), 8);
    for y in 0..8 {
        assert_eq!(one_tile[y].len(), 8);
        assert_eq!(four_tiles[y].len(), 8);
        for x in 0..8 {
            assert!(nonneg(&one_tile[y][x]));
            assert!(nonneg(&four_tiles[y][x]));
        }
    }
}

#[test]
fn image_pixels_follow_their_primary_rays() {
    // a lone emitting panel behind the origin: without fan-out, the
    // center pixel's ray hits it and shows its emission at full weight
    let mut scene = Scene::new();
    let mut light = Entity::new(Mat4::translate(0, 0, 2 * ONE), Shape::Rect(Rect::new()));
    light.material.emission = Color::white().mul(4 * ONE);
    scene.objects.push(light);
    let img = render_image_tiled(4, 4, ONE, &scene, 2);
    let c = img[2][2];
    assert_eq!((c.r, c.g, c.b, c.a), (4 * ONE, 4 * ONE, 4 * ONE, 4 * ONE));
    // with nothing at all, every pixel stays background black
    let empty = Scene::new();
    let dark = render_image_tiled(4, 4, ONE, &empty, 2);
    for row in dark.iter() {
        for c in row.iter() {
            assert_eq!((c.r, c.g, c.b, c.a), (0, 0, 0, ONE));
        }
    }
}

#[test]
fn seeded_render_is_reproducible() {
    let scene = tiny_scene();
    let a = render_image_tiled(8, 8, 30000, &scene, 4);
    let b = render_image_tiled(8, 8, 30000, &scene, 4);
    assert_eq!(a, b);
}

#[test]
fn whole_image_render_covers_default_tile() {
    let scene = tiny_scene();
    let img = render_image(32, 32, 60000, &scene);
    assert_eq!(img.len(), 32);
    for row in img.iter() {
        assert_eq!(row.len(), 32);
    }
}

#[test]
fn scene_contents_match_the_box() {
    let scene = make_scene();
    assert_eq!(scene.objects.len(), 8);
    match scene.objects[0].shape {
        Shape::Sphere(s) => assert_eq!(s.radius, ONE / 2),
        _ => panic!("first entity must be the sphere"),
    }
    // the light panel emits white at eight times full brightness
    let e = &scene.objects[1].material.emission;
    assert_eq!((e.r, e.g, e.b), (8 * ONE, 8 * ONE, 8 * ONE));
    // the right wall is tinted and faintly emissive
    let wr = &scene.objects[6].material;
    assert_eq!(wr.albedo.r, 2 * ONE);
    assert_eq!(wr.albedo.g, 13107);
    assert_eq!(wr.albedo.b, 6553);
    assert_eq!(wr.emission.r, 32768);
}

#[test]
fn seeded_source_is_deterministic_and_in_range() {
    let mut a = RandomSource::from_seed(42);
    let mut b = RandomSource::from_seed(42);
    for _ in 0..100 {
        let x = a.next_in_range(-50, 50);
        let y = b.next_in_range(-50, 50);
        assert_eq!(x, y);
        assert!((-50..50).contains(&x));
    }
}

#[test]
fn entropy_source_stays_in_range() {
    let mut src = RandomSource::from_entropy();
    for _ in 0..100 {
        let x = src.next_in_range(-7, 9);
        assert!((-7..9).contains(&x));
    }
}

#[test]
fn samples_follow_the_reference_axis() {
    // with the normal on the reference axis, the rotation is trivial
    // and the raw sample comes back: its z stays nonnegative
    let mut rng = RandomSource::from_seed(5);
    for _ in 0..50 {
        let v = random_vector(&mut rng, Vec3::xyz(0, 0, ONE));
        assert!(v.z >= 0, "sample {:?} points below the surface", v);
        assert!(v.magnitude_square() <= ONE + 4);
    }
}

#[test]
fn rotation_aligns_axis_with_normal() {
    // rotating the reference axis onto +y carries (0,0,1) near (0,1,0)
    let r = rotate_align(&Vec3::xyz(0, ONE, 0), &Vec3::xyz(0, 0, ONE));
    assert!(r.x.abs() <= 8, "{:?}", r);
    assert!((r.y - ONE).abs() <= 8, "{:?}", r);
    assert!(r.z.abs() <= 8, "{:?}", r);
    // a normal opposing the axis uses the half-turn fallback
    let f = rotate_align(&Vec3::xyz(0, 0, -ONE), &Vec3::xyz(ONE / 2, ONE / 4, ONE / 8));
    assert_eq!(f, Vec3::xyz(ONE / 2, -(ONE / 4), -(ONE / 8)));
}
