//! The recursive radiance estimator and the per-tile renderer.

use vstd::prelude::*;
use crate::color::{c_nonneg, cadd_s, cmul_s, cscale_s, lemma_cadd_nonneg, lemma_cmul_nonneg,
    lemma_cscale_nonneg, Color};
use crate::fixed::{fdiv, fdiv_s, fmul_s, fx, sat_s, FX_ONE};
use crate::ray::Ray;
use crate::rng::RandomSource;
use crate::sampler::random_vector;
use crate::scene::{entity_cast_s, local_ray_s, mat_nonneg_all_s, nearest_hit_s, nearest_hit_upto_s, Entity, RayHit, Scene};
use crate::vec3::{normalized_s, Vec3};

verus! {

/// The rendering configuration: recursion stops once a path's residual
/// weight drops to this minimum (at least one fixed-point quantum, so
/// the weight halving must terminate).
#[derive(Debug, Clone, Copy, PartialEq, Eq, Structural)]
pub struct RenderParam {
    pub min_rad: i64,
}

/// The per-tile mutable state: an exclusively owned random source.
pub struct State {
    pub rng: RandomSource,
}

/// The nearest hit of a world ray over the whole scene: each entity is
/// queried in its own frame through its precomputed inverse, and the
/// smallest hit parameter wins.  Fixed-point parameters are totally
/// ordered, so no comparison is ever undefined.
pub fn rayhit(ray: &Ray, scene: &Scene) -> (h: Option<RayHit>)
    ensures
        h == nearest_hit_s(scene.objects@, *ray),
        match h {
            Some(hit) => {
                &&& (hit.entity as int) < scene.objects@.len()
                &&& entity_cast_s(scene.objects@[hit.entity as int], *ray) == Some(hit.t)
                &&& forall|j: int|
                    0 <= j < scene.objects@.len()
                        ==> match #[trigger] entity_cast_s(scene.objects@[j], *ray) {
                            Some(t) => hit.t <= t,
                            None => true,
                        }
            },
            None => forall|j: int|
                0 <= j < scene.objects@.len()
                    ==> #[trigger] entity_cast_s(scene.objects@[j], *ray) is None,
        },
{
    let mut best: Option<RayHit> = None;
    let mut i: usize = 0;
    while i < scene.objects.len()
        invariant
            i <= scene.objects@.len(),
            best == nearest_hit_upto_s(scene.objects@, *ray, i as int),
            match best {
                Some(hit) => {
                    &&& (hit.entity as int) < i
                    &&& entity_cast_s(scene.objects@[hit.entity as int], *ray) == Some(hit.t)
                    &&& forall|j: int|
                        0 <= j < i ==> match #[trigger] entity_cast_s(scene.objects@[j], *ray) {
                            Some(t) => hit.t <= t,
                            None => true,
                        }
                },
                None => forall|j: int|
                    0 <= j < i ==> #[trigger] entity_cast_s(scene.objects@[j], *ray) is None,
            },
        decreases scene.objects@.len() - i,
    {
        let obj: &Entity = &scene.objects[i];
        let local_ray = Ray::new(
            obj.inv_matrix.transform_point(ray.origin),
            obj.inv_matrix.transform_vector(ray.dir),
        );
        proof {
            assert(local_ray == local_ray_s(scene.objects@[i as int], *ray));
        }
        match obj.shape.ray_cast(&local_ray) {
            Some(t) => {
                let take = match &best {
                    Some(b) => t < b.t,
                    None => true,
                };
                if take {
                    best = Some(RayHit { t, entity: i });
                }
            },
            None => {},
        }
        i = i + 1;
    }
    best
}

/// The recursive radiance estimate for a ray carrying residual weight
/// `rad`.  `None` means the ray hit nothing (the background contributes
/// nothing).  On a hit, while the residual weight is above the
/// configured minimum, the estimator fans out into `clamp(rad /
/// min_rad, 2, 32)` bounce samples, each carrying `rad / n`; the
/// children's sum is absorbed by the albedo and the surface's own
/// emission is added, scaled by the residual weight.  The weight at
/// least halves at each level, so the recursion terminates.  For a
/// scene whose albedos and emissions are nonnegative the estimate is
/// never negative in any channel.  On any hit the result has the shape
/// `indirect * albedo + emission * rad` for some indirect color that
/// inherits the scene's nonnegativity; the indirect color's value
/// depends on the random source.
#[verifier::rlimit(60)]
pub fn render(param: &RenderParam, stat: &mut State, ray: &Ray, rad: i64, scene: &Scene) -> (r:
    Option<Color>)
    requires
        param.min_rad >= 1,
        rad >= 0,
    ensures
        r is Some <==> exists|i: int|
            0 <= i < scene.objects@.len() && entity_cast_s(#[trigger] scene.objects@[i], *ray) is Some,
        mat_nonneg_all_s(scene.objects@) ==> (r matches Some(c) ==> c_nonneg(c)),
        rad <= param.min_rad ==> match nearest_hit_s(scene.objects@, *ray) {
            Some(h) => r == Some(
                cscale_s(scene.objects@[h.entity as int].material.emission, rad as int),
            ),
            None => r is None,
        },
        match nearest_hit_s(scene.objects@, *ray) {
            Some(h) => exists|ind: Color| {
                &&& (mat_nonneg_all_s(scene.objects@) ==> c_nonneg(ind))
                &&& r == Some(cadd_s(
                    #[trigger] cmul_s(ind, scene.objects@[h.entity as int].material.albedo),
                    cscale_s(scene.objects@[h.entity as int].material.emission, rad as int),
                ))
            },
            None => r is None,
        },
    decreases rad,
{
    let hit = rayhit(ray, scene);
    match hit {
        None => {
            proof {
                assert(forall|i: int|
                    0 <= i < scene.objects@.len()
                        ==> entity_cast_s(#[trigger] scene.objects@[i], *ray) is None);
            }
            None
        },
        Some(h) => {
            let obj: &Entity = &scene.objects[h.entity];
            let local_ray = Ray::new(
                obj.inv_matrix.transform_point(ray.origin),
                obj.inv_matrix.transform_vector(ray.dir),
            );
            let local_at = local_ray.at(h.t);
            let local_normal = obj.shape.normal(local_at);
            let at = ray.at(h.t);
            let normal = obj.matrix.transform_vector(local_normal).normalized();

            let mut albedo = Color::new();
            if rad > param.min_rad {
                let q: i64 = ((rad as u64) / (param.min_rad as u64)) as i64;
                let div: i64 = if q > 32 {
                    32
                } else if q < 2 {
                    2
                } else {
                    q
                };
                let div_rad: i64 = ((rad as u64) / (div as u64)) as i64;
                proof {
                    vstd::arithmetic::div_mod::lemma_div_is_strictly_smaller(rad as int, div as int);
                }
                let mut k: i64 = 0;
                while k < div
                    invariant
                        param.min_rad >= 1,
                        0 <= div_rad < rad,
                        mat_nonneg_all_s(scene.objects@) ==> c_nonneg(albedo),
                    decreases div - k,
                {
                    let rand_vec = random_vector(&mut stat.rng, normal);
                    let next_ray = Ray::new(at, rand_vec);
                    match render(param, stat, &next_ray, div_rad, scene) {
                        Some(c) => {
                            proof {
                                if mat_nonneg_all_s(scene.objects@) {
                                    lemma_cadd_nonneg(albedo, c);
                                }
                            }
                            albedo = albedo.add(c);
                        },
                        None => {},
                    }
                    k = k + 1;
                }
            }

            let out = albedo.mul_color(obj.material.albedo).add(obj.material.emission.mul(rad));
            proof {
                assert(out == cadd_s(
                    cmul_s(albedo, scene.objects@[h.entity as int].material.albedo),
                    cscale_s(scene.objects@[h.entity as int].material.emission, rad as int),
                ));
                if rad <= param.min_rad {
                    vstd::arithmetic::div_mod::lemma_div_of0(FX_ONE as int);
                    let al = scene.objects@[h.entity as int].material.albedo;
                    assert(0 * (al.r as int) == 0 && 0 * (al.g as int) == 0 && 0 * (
                    al.b as int) == 0 && 0 * (al.a as int) == 0) by (nonlinear_arith);
                    assert(fmul_s(0, al.r as int) == 0);
                    assert(fmul_s(0, al.g as int) == 0);
                    assert(fmul_s(0, al.b as int) == 0);
                    assert(fmul_s(0, al.a as int) == 0);
                    assert(out == cscale_s(
                        scene.objects@[h.entity as int].material.emission,
                        rad as int,
                    ));
                }
                if mat_nonneg_all_s(scene.objects@) {
                    lemma_cmul_nonneg(albedo, scene.objects@[h.entity as int].material.albedo);
                    lemma_cscale_nonneg(scene.objects@[h.entity as int].material.emission, rad as int);
                    lemma_cadd_nonneg(
                        cmul_s(albedo, scene.objects@[h.entity as int].material.albedo),
                        cscale_s(scene.objects@[h.entity as int].material.emission, rad as int),
                    );
                }
            }
            Some(out)
        },
    }
}

/// A pixel grid with `h` rows of `w` columns.
pub open spec fn block_dims_s(g: Seq<Vec<Color>>, w: int, h: int) -> bool {
    g.len() == h && forall|r: int| 0 <= r < h ==> (#[trigger] g[r])@.len() == w
}

/// No pixel of the grid has a negative channel.
pub open spec fn block_nonneg_s(g: Seq<Vec<Color>>) -> bool {
    forall|r: int, c: int|
        0 <= r < g.len() && 0 <= c < g[r]@.len() ==> c_nonneg(#[trigger] g[r]@[c])
}

/// The primary ray of pixel (xx, yy) of a tile anchored at (sx, sy) in
/// an image `tw` by `th`: from the fixed eye point `(0, 0, -2)` along
/// the pixel's normalized device coordinates, centered at the image
/// midpoint.
pub open spec fn primary_ray_s(sx: int, sy: int, xx: int, yy: int, tw: int, th: int) -> Ray {
    let s = FX_ONE as int;
    let px = fdiv_s(sat_s((sx + xx - tw / 2) * s), sat_s(tw * s));
    let py = fdiv_s(sat_s((sy + yy - th / 2) * s), sat_s(th * s));
    let dir = normalized_s(Vec3 { x: px as i64, y: py as i64, z: FX_ONE });
    Ray { origin: Vec3 { x: 0i64, y: 0i64, z: (-131072) as i64 }, dir }
}

/// The color a pixel shows when its primary ray escapes the scene:
/// the background contributes nothing and is treated as black.
pub open spec fn background_s() -> Color {
    Color { r: 0i64, g: 0i64, b: 0i64, a: FX_ONE }
}

/// Each pixel of the grid is the estimate of its primary ray: a pixel
/// whose ray escapes the scene stays background black, and whenever
/// the configured minimum weight rules out bounces, a hit pixel is
/// exactly the nearest entity's emission at full weight.
pub open spec fn block_pixels_s(
    g: Seq<Vec<Color>>,
    objs: Seq<Entity>,
    min_rad: int,
    sx: int,
    sy: int,
    w: int,
    h: int,
    tw: int,
    th: int,
) -> bool {
    forall|r: int, c: int|
        0 <= r < h && 0 <= c < w ==> {
            let hit = nearest_hit_s(objs, primary_ray_s(sx, sy, c, r, tw, th));
            &&& (hit is None ==> #[trigger] g[r]@[c] == background_s())
            &&& (min_rad >= FX_ONE as int ==> match hit {
                Some(nh) => g[r]@[c] == cscale_s(objs[nh.entity as int].material.emission, FX_ONE as int),
                None => g[r]@[c] == background_s(),
            })
        }
}

/// Render one rectangular tile of the image: for each pixel, a primary
/// ray is built from the fixed eye point `(0, 0, -2)` through the
/// pixel's normalized device coordinates, and the estimator is invoked
/// with full weight; a ray that escapes the scene contributes nothing
/// and its pixel stays background black.
pub fn render_block(
    param: &RenderParam,
    scene: &Scene,
    sx: i64,
    sy: i64,
    w: usize,
    h: usize,
    total_w: i64,
    total_h: i64,
    stat: &mut State,
) -> (buf: Vec<Vec<Color>>)
    requires
        param.min_rad >= 1,
        1 <= total_w <= 0x8000_0000,
        1 <= total_h <= 0x8000_0000,
        -0x8000_0000 <= sx <= 0x8000_0000,
        -0x8000_0000 <= sy <= 0x8000_0000,
        w <= 0x8000,
        h <= 0x8000,
    ensures
        block_dims_s(buf@, w as int, h as int),
        mat_nonneg_all_s(scene.objects@) ==> block_nonneg_s(buf@),
        block_pixels_s(
            buf@,
            scene.objects@,
            param.min_rad as int,
            sx as int,
            sy as int,
            w as int,
            h as int,
            total_w as int,
            total_h as int,
        ),
{
    let half_w: i64 = ((total_w as u64) / 2) as i64;
    let half_h: i64 = ((total_h as u64) / 2) as i64;
    let fx_tw: i64 = fx(total_w);
    let fx_th: i64 = fx(total_h);
    let mut buf: Vec<Vec<Color>> = Vec::new();
    let mut yy: usize = 0;
    while yy < h
        invariant
            param.min_rad >= 1,
            1 <= total_w <= 0x8000_0000,
            1 <= total_h <= 0x8000_0000,
            -0x8000_0000 <= sx <= 0x8000_0000,
            -0x8000_0000 <= sy <= 0x8000_0000,
            w <= 0x8000,
            h <= 0x8000,
            fx_tw as int == sat_s(total_w as int * (FX_ONE as int)),
            fx_th as int == sat_s(total_h as int * (FX_ONE as int)),
            fx_tw >= 1,
            fx_th >= 1,
            half_w as int == total_w as int / 2,
            half_h as int == total_h as int / 2,
            0 <= half_w,
            0 <= half_h,
            half_w <= total_w,
            half_h <= total_h,
            yy <= h,
            buf@.len() == yy,
            forall|r: int| 0 <= r < yy ==> (#[trigger] buf@[r])@.len() == w,
            mat_nonneg_all_s(scene.objects@) ==> block_nonneg_s(buf@),
            block_pixels_s(
                buf@,
                scene.objects@,
                param.min_rad as int,
                sx as int,
                sy as int,
                w as int,
                yy as int,
                total_w as int,
                total_h as int,
            ),
        decreases h - yy,
    {
        let mut row: Vec<Color> = Vec::new();
        let mut xx: usize = 0;
        while xx < w
            invariant
                param.min_rad >= 1,
                1 <= total_w <= 0x8000_0000,
                1 <= total_h <= 0x8000_0000,
                -0x8000_0000 <= sx <= 0x8000_0000,
                -0x8000_0000 <= sy <= 0x8000_0000,
                w <= 0x8000,
                h <= 0x8000,
                fx_tw as int == sat_s(total_w as int * (FX_ONE as int)),
                fx_th as int == sat_s(total_h as int * (FX_ONE as int)),
                fx_tw >= 1,
                fx_th >= 1,
                half_w as int == total_w as int / 2,
                half_h as int == total_h as int / 2,
                0 <= half_w,
                0 <= half_h,
                half_w <= total_w,
                half_h <= total_h,
                yy < h,
                xx <= w,
                row@.len() == xx,
                mat_nonneg_all_s(scene.objects@) ==> forall|c: int|
                    0 <= c < xx ==> c_nonneg(#[trigger] row@[c]),
                forall|c: int|
                    0 <= c < xx ==> {
                        let hit = nearest_hit_s(
                            scene.objects@,
                            primary_ray_s(
                                sx as int,
                                sy as int,
                                c,
                                yy as int,
                                total_w as int,
                                total_h as int,
                            ),
                        );
                        &&& (hit is None ==> #[trigger] row@[c] == background_s())
                        &&& (param.min_rad >= FX_ONE ==> match hit {
                            Some(nh) => row@[c] == cscale_s(
                                scene.objects@[nh.entity as int].material.emission,
                                FX_ONE as int,
                            ),
                            None => row@[c] == background_s(),
                        })
                    },
            decreases w - xx,
        {
            let nx: i64 = sx + xx as i64 - half_w;
            let ny: i64 = sy + yy as i64 - half_h;
            let px: i64 = fdiv(fx(nx), fx_tw);
            let py: i64 = fdiv(fx(ny), fx_th);
            let dir = Vec3::xyz(px, py, FX_ONE).normalized();
            let ray = Ray::new(Vec3::xyz(0, 0, -2 * FX_ONE), dir);
            proof {
                assert(ray == primary_ray_s(
                    sx as int,
                    sy as int,
                    xx as int,
                    yy as int,
                    total_w as int,
                    total_h as int,
                ));
                crate::scene::lemma_nearest_none_iff(
                    scene.objects@,
                    ray,
                    scene.objects@.len() as int,
                );
            }
            let color = match render(param, stat, &ray, FX_ONE, scene) {
                Some(c) => c,
                None => Color::black(),
            };
            row.push(color);
            xx = xx + 1;
        }
        buf.push(row);
        yy = yy + 1;
    }
    buf
}

/// Each pixel of the image belongs to exactly one tile: tile (tx, ty)
/// covers pixel (x, y) exactly when (tx, ty) is the tile the merge
/// step reads that pixel from.
pub proof fn lemma_tile_cover(bs: int, x: int, y: int, tx: int, ty: int)
    requires
        bs >= 1,
        0 <= x,
        0 <= y,
    ensures
        (tx * bs <= x < tx * bs + bs && ty * bs <= y < ty * bs + bs) <==> (tx == x / bs && ty
            == y / bs),
{
    vstd::arithmetic::div_mod::lemma_fundamental_div_mod(x, bs);
    vstd::arithmetic::div_mod::lemma_fundamental_div_mod(y, bs);
    vstd::arithmetic::div_mod::lemma_mod_division_less_than_divisor(x, bs);
    vstd::arithmetic::div_mod::lemma_mod_division_less_than_divisor(y, bs);
    assert(bs * (x / bs) == (x / bs) * bs) by (nonlinear_arith);
    assert(bs * (y / bs) == (y / bs) * bs) by (nonlinear_arith);
    if tx * bs <= x < tx * bs + bs && ty * bs <= y < ty * bs + bs {
        vstd::arithmetic::div_mod::lemma_fundamental_div_mod_converse(x, bs, tx, x - tx * bs);
        vstd::arithmetic::div_mod::lemma_fundamental_div_mod_converse(y, bs, ty, y - ty * bs);
    }
}

/// Copy tile buffers into one image: pixel (x, y) is read from tile
/// `(y / bsize) * (w / bsize) + x / bsize` at offset
/// `(x % bsize, y % bsize)`, so every pixel is written exactly once
/// and disjoint tiles never overlap.
pub fn merge_tiles(tiles: &Vec<Vec<Vec<Color>>>, w: usize, h: usize, bsize: usize) -> (img: Vec<
    Vec<Color>,
>)
    requires
        1 <= bsize <= 0x8000,
        1 <= w <= 0x8000,
        1 <= h <= 0x8000,
        w as int % bsize as int == 0,
        h as int % bsize as int == 0,
        tiles@.len() == (h as int / bsize as int) * (w as int / bsize as int),
        forall|bi: int|
            0 <= bi < tiles@.len() ==> block_dims_s(
                (#[trigger] tiles@[bi])@,
                bsize as int,
                bsize as int,
            ),
    ensures
        block_dims_s(img@, w as int, h as int),
        forall|y: int, x: int|
            0 <= y < h && 0 <= x < w ==> #[trigger] img@[y]@[x] == tiles@[(y / (bsize as int)) * (
            w as int / bsize as int) + x / (bsize as int)]@[y % (bsize as int)]@[x % (
            bsize as int)],
        (forall|bi: int| 0 <= bi < tiles@.len() ==> block_nonneg_s((#[trigger] tiles@[bi])@))
            ==> block_nonneg_s(img@),
{
    let tw: usize = w / bsize;
    let th: usize = h / bsize;
    proof {
        vstd::arithmetic::div_mod::lemma_div_pos_is_pos(w as int, bsize as int);
        vstd::arithmetic::div_mod::lemma_div_pos_is_pos(h as int, bsize as int);
        vstd::arithmetic::div_mod::lemma_div_nonincreasing(w as int, bsize as int);
        vstd::arithmetic::div_mod::lemma_div_nonincreasing(h as int, bsize as int);
        vstd::arithmetic::div_mod::lemma_fundamental_div_mod(w as int, bsize as int);
        vstd::arithmetic::div_mod::lemma_fundamental_div_mod(h as int, bsize as int);
    }
    let mut img: Vec<Vec<Color>> = Vec::new();
    let mut y: usize = 0;
    while y < h
        invariant
            1 <= bsize <= 0x8000,
            1 <= w <= 0x8000,
            1 <= h <= 0x8000,
            w as int % bsize as int == 0,
            h as int % bsize as int == 0,
            tw == w as int / bsize as int,
            th == h as int / bsize as int,
            w as int == bsize as int * tw,
            h as int == bsize as int * th,
            tw <= w,
            th <= h,
            tiles@.len() == th * tw,
            forall|bi: int|
                0 <= bi < tiles@.len() ==> block_dims_s(
                    (#[trigger] tiles@[bi])@,
                    bsize as int,
                    bsize as int,
                ),
            y <= h,
            img@.len() == y,
            forall|r: int| 0 <= r < y ==> (#[trigger] img@[r])@.len() == w,
            forall|r: int, c: int|
                0 <= r < y && 0 <= c < w ==> #[trigger] img@[r]@[c] == tiles@[(r / (
                bsize as int)) * (w as int / bsize as int) + c / (bsize as int)]@[r % (
                bsize as int)]@[c % (bsize as int)],
        decreases h - y,
    {
        let ty: usize = y / bsize;
        let oy: usize = y % bsize;
        proof {
            vstd::arithmetic::div_mod::lemma_multiply_divide_lt(y as int, bsize as int, th as int);
            vstd::arithmetic::div_mod::lemma_mod_division_less_than_divisor(y as int, bsize as int);
        }
        let mut row: Vec<Color> = Vec::new();
        let mut x: usize = 0;
        while x < w
            invariant
                1 <= bsize <= 0x8000,
                1 <= w <= 0x8000,
                1 <= h <= 0x8000,
                w as int % bsize as int == 0,
                tw == w as int / bsize as int,
                w as int == bsize as int * tw,
                h as int == bsize as int * th,
                tw <= w,
                th <= h,
                tiles@.len() == th * tw,
                forall|bi: int|
                    0 <= bi < tiles@.len() ==> block_dims_s(
                        (#[trigger] tiles@[bi])@,
                        bsize as int,
                        bsize as int,
                    ),
                y < h,
                ty == y as int / bsize as int,
                ty < th,
                oy == y as int % bsize as int,
                oy < bsize,
                x <= w,
                row@.len() == x,
                forall|c: int|
                    0 <= c < x ==> #[trigger] row@[c] == tiles@[(y as int / (bsize as int)) * (
                    w as int / bsize as int) + c / (bsize as int)]@[y as int % (
                    bsize as int)]@[c % (bsize as int)],
            decreases w - x,
        {
            let tx: usize = x / bsize;
            let ox: usize = x % bsize;
            proof {
                vstd::arithmetic::div_mod::lemma_multiply_divide_lt(
                    x as int,
                    bsize as int,
                    tw as int,
                );
                vstd::arithmetic::div_mod::lemma_mod_division_less_than_divisor(
                    x as int,
                    bsize as int,
                );
                assert(ty * tw + tx < th * tw) by (nonlinear_arith)
                    requires
                        0 <= tx < tw,
                        0 <= ty < th,
                ;
                assert(ty * tw + tx <= 0x4000_0000) by (nonlinear_arith)
                    requires
                        0 <= tx < tw <= 0x8000,
                        0 <= ty,
                        th <= 0x8000,
                        ty < th,
                ;
            }
            let ti: usize = ty * tw + tx;
            let c: Color = tiles[ti][oy][ox];
            row.push(c);
            x = x + 1;
        }
        img.push(row);
        y = y + 1;
    }
    proof {
        if forall|bi: int| 0 <= bi < tiles@.len() ==> block_nonneg_s((#[trigger] tiles@[bi])@) {
            assert forall|r: int, c: int|
                0 <= r < img@.len() && 0 <= c < img@[r]@.len() implies c_nonneg(
                img@[r]@[c],
            ) by {
            let bs = bsize as int;
            let ti = (r / bs) * (w as int / bs) + c / bs;
            vstd::arithmetic::div_mod::lemma_fundamental_div_mod(w as int, bs);
            vstd::arithmetic::div_mod::lemma_fundamental_div_mod(h as int, bs);
            vstd::arithmetic::div_mod::lemma_multiply_divide_lt(r as int, bs, th as int);
            vstd::arithmetic::div_mod::lemma_multiply_divide_lt(c as int, bs, tw as int);
            vstd::arithmetic::div_mod::lemma_mod_division_less_than_divisor(r as int, bs);
            vstd::arithmetic::div_mod::lemma_mod_division_less_than_divisor(c as int, bs);
            vstd::arithmetic::div_mod::lemma_div_pos_is_pos(r, bs);
            vstd::arithmetic::div_mod::lemma_div_pos_is_pos(c, bs);
            assert(0 <= ti < th * tw) by (nonlinear_arith)
                requires
                    0 <= c / bs < tw,
                    0 <= r / bs < th,
                    ti == (r / bs) * tw + c / bs,
            ;
            }
        }
    }
    img
}

/// Render a whole image from square tiles of edge `bsize`: each tile is
/// an independent unit of work with its own random source, seeded from
/// its tile index, and the finished tiles are merged into the output
/// with no overlap.
pub fn render_image_tiled(w: usize, h: usize, min_rad: i64, scene: &Scene, bsize: usize) -> (img:
    Vec<Vec<Color>>)
    requires
        min_rad >= 1,
        1 <= bsize <= 0x8000,
        1 <= w <= 0x8000,
        1 <= h <= 0x8000,
        w as int % bsize as int == 0,
        h as int % bsize as int == 0,
    ensures
        block_dims_s(img@, w as int, h as int),
        mat_nonneg_all_s(scene.objects@) ==> block_nonneg_s(img@),
        block_pixels_s(
            img@,
            scene.objects@,
            min_rad as int,
            0,
            0,
            w as int,
            h as int,
            w as int,
            h as int,
        ),
{
    let param = RenderParam { min_rad };
    let tw: usize = w / bsize;
    let th: usize = h / bsize;
    proof {
        vstd::arithmetic::div_mod::lemma_div_pos_is_pos(w as int, bsize as int);
        vstd::arithmetic::div_mod::lemma_div_pos_is_pos(h as int, bsize as int);
        vstd::arithmetic::div_mod::lemma_div_nonincreasing(w as int, bsize as int);
        vstd::arithmetic::div_mod::lemma_div_nonincreasing(h as int, bsize as int);
        if w < bsize {
            vstd::arithmetic::div_mod::lemma_small_mod(w as nat, bsize as nat);
        }
        if h < bsize {
            vstd::arithmetic::div_mod::lemma_small_mod(h as nat, bsize as nat);
        }
        vstd::arithmetic::div_mod::lemma_div_is_ordered(bsize as int, w as int, bsize as int);
        vstd::arithmetic::div_mod::lemma_div_is_ordered(bsize as int, h as int, bsize as int);
        vstd::arithmetic::div_mod::lemma_div_by_self(bsize as int);
    }
    let mut tiles: Vec<Vec<Vec<Color>>> = Vec::new();
    let mut ty: usize = 0;
    while ty < th
        invariant
            param.min_rad >= 1,
            param.min_rad == min_rad,
            1 <= bsize <= 0x8000,
            1 <= w <= 0x8000,
            1 <= h <= 0x8000,
            tw == w as int / bsize as int,
            th == h as int / bsize as int,
            1 <= tw,
            1 <= th,
            tw <= w,
            th <= h,
            ty <= th,
            tiles@.len() == ty * tw,
            forall|bi: int|
                0 <= bi < tiles@.len() ==> block_dims_s(
                    (#[trigger] tiles@[bi])@,
                    bsize as int,
                    bsize as int,
                ),
            mat_nonneg_all_s(scene.objects@) ==> forall|bi: int|
                0 <= bi < tiles@.len() ==> block_nonneg_s((#[trigger] tiles@[bi])@),
            forall|bi: int|
                0 <= bi < tiles@.len() ==> block_pixels_s(
                    (#[trigger] tiles@[bi])@,
                    scene.objects@,
                    min_rad as int,
                    (bi % (tw as int)) * (bsize as int),
                    (bi / (tw as int)) * (bsize as int),
                    bsize as int,
                    bsize as int,
                    w as int,
                    h as int,
                ),
        decreases th - ty,
    {
        proof {
            assert(ty * tw + tw == (ty + 1) * tw) by (nonlinear_arith);
            assert(ty * tw <= 0x4000_0000) by (nonlinear_arith)
                requires
                    0 <= ty <= th <= 0x8000,
                    0 <= tw <= 0x8000,
            ;
        }
        let mut tx: usize = 0;
        while tx < tw
            invariant
                param.min_rad >= 1,
                param.min_rad == min_rad,
                1 <= bsize <= 0x8000,
                1 <= w <= 0x8000,
                1 <= h <= 0x8000,
                tw == w as int / bsize as int,
                th == h as int / bsize as int,
                1 <= tw,
                1 <= th,
                tw <= w,
                th <= h,
                ty < th,
                tx <= tw,
                ty * tw <= 0x4000_0000,
                tiles@.len() == ty * tw + tx,
                forall|bi: int|
                    0 <= bi < tiles@.len() ==> block_dims_s(
                        (#[trigger] tiles@[bi])@,
                        bsize as int,
                        bsize as int,
                    ),
                mat_nonneg_all_s(scene.objects@) ==> forall|bi: int|
                    0 <= bi < tiles@.len() ==> block_nonneg_s((#[trigger] tiles@[bi])@),
                forall|bi: int|
                    0 <= bi < tiles@.len() ==> block_pixels_s(
                        (#[trigger] tiles@[bi])@,
                        scene.objects@,
                        min_rad as int,
                        (bi % (tw as int)) * (bsize as int),
                        (bi / (tw as int)) * (bsize as int),
                        bsize as int,
                        bsize as int,
                        w as int,
                        h as int,
                    ),
            decreases tw - tx,
        {
            proof {
                assert(tx * bsize <= 0x4000_0000 && ty * bsize <= 0x4000_0000)
                    by (nonlinear_arith)
                    requires
                        0 <= tx < tw <= 0x8000,
                        0 <= ty < th <= 0x8000,
                        1 <= bsize <= 0x8000,
                ;
            }
            let seed: u64 = (ty * tw + tx) as u64 + 1;
            let mut stat = State { rng: RandomSource::from_seed(seed) };
            let buf = render_block(
                &param,
                scene,
                (tx * bsize) as i64,
                (ty * bsize) as i64,
                bsize,
                bsize,
                w as i64,
                h as i64,
                &mut stat,
            );
            proof {
                assert((ty * tw + tx) as int == (ty as int) * (tw as int) + tx as int
                    && (tw as int) * (ty as int) == (ty as int) * (tw as int)) by (nonlinear_arith)
                    requires
                        ty * tw <= 0x4000_0000,
                        tx < tw,
                ;
                vstd::arithmetic::div_mod::lemma_fundamental_div_mod_converse(
                    (ty as int) * (tw as int) + tx as int,
                    tw as int,
                    ty as int,
                    tx as int,
                );
            }
            tiles.push(buf);
            tx = tx + 1;
        }
        ty = ty + 1;
    }
    proof {
        assert(tiles@.len() == th * tw) by (nonlinear_arith)
            requires
                tiles@.len() == th * tw,
        ;
    }
    let img = merge_tiles(&tiles, w, h, bsize);
    proof {
        assert forall|y: int, x: int|
            0 <= y < h && 0 <= x < w implies {
                let hit = nearest_hit_s(
                    scene.objects@,
                    primary_ray_s(0, 0, x, y, w as int, h as int),
                );
                &&& (hit is None ==> #[trigger] img@[y]@[x] == background_s())
                &&& (min_rad as int >= FX_ONE as int ==> match hit {
                    Some(nh) => img@[y]@[x] == cscale_s(
                        scene.objects@[nh.entity as int].material.emission,
                        FX_ONE as int,
                    ),
                    None => img@[y]@[x] == background_s(),
                })
            } by {
            let bs = bsize as int;
            let twi = tw as int;
            let thi = th as int;
            let tyi = y / bs;
            let txi = x / bs;
            let oy = y % bs;
            let ox = x % bs;
            let bi = tyi * twi + txi;
            vstd::arithmetic::div_mod::lemma_fundamental_div_mod(x, bs);
            vstd::arithmetic::div_mod::lemma_fundamental_div_mod(y, bs);
            vstd::arithmetic::div_mod::lemma_mod_division_less_than_divisor(x, bs);
            vstd::arithmetic::div_mod::lemma_mod_division_less_than_divisor(y, bs);
            vstd::arithmetic::div_mod::lemma_div_pos_is_pos(x, bs);
            vstd::arithmetic::div_mod::lemma_div_pos_is_pos(y, bs);
            vstd::arithmetic::div_mod::lemma_fundamental_div_mod(w as int, bs);
            vstd::arithmetic::div_mod::lemma_fundamental_div_mod(h as int, bs);
            vstd::arithmetic::div_mod::lemma_multiply_divide_lt(x, bs, twi);
            vstd::arithmetic::div_mod::lemma_multiply_divide_lt(y, bs, thi);
            assert(0 <= bi < thi * twi) by (nonlinear_arith)
                requires
                    0 <= txi < twi,
                    0 <= tyi < thi,
                    bi == tyi * twi + txi,
            ;
            assert((twi) * (tyi) == tyi * twi) by (nonlinear_arith);
            vstd::arithmetic::div_mod::lemma_fundamental_div_mod_converse(bi, twi, tyi, txi);
            assert(bs * tyi == tyi * bs && bs * txi == txi * bs) by (nonlinear_arith);
            assert(txi * bs + ox == x && tyi * bs + oy == y);
            assert(img@[y]@[x] == tiles@[bi]@[oy]@[ox]);
            assert(block_pixels_s(
                tiles@[bi]@,
                scene.objects@,
                min_rad as int,
                txi * bs,
                tyi * bs,
                bs,
                bs,
                w as int,
                h as int,
            ));
            assert(primary_ray_s(txi * bs, tyi * bs, ox, oy, w as int, h as int)
                == primary_ray_s(0, 0, x, y, w as int, h as int));
        }
    }
    img
}

/// Render a whole image with the default tile edge of 32 pixels, per
/// the configured minimum residual weight.
pub fn render_image(width: usize, height: usize, min_rad: i64, scene: &Scene) -> (img: Vec<Vec<
    Color,
>>)
    requires
        min_rad >= 1,
        1 <= width <= 0x8000,
        1 <= height <= 0x8000,
        width as int % 32 == 0,
        height as int % 32 == 0,
    ensures
        block_dims_s(img@, width as int, height as int),
        mat_nonneg_all_s(scene.objects@) ==> block_nonneg_s(img@),
        block_pixels_s(
            img@,
            scene.objects@,
            min_rad as int,
            0,
            0,
            width as int,
            height as int,
            width as int,
            height as int,
        ),
{
    render_image_tiled(width, height, min_rad, scene, 32)
}

} // verus!
