//! Entities (a shape placed by a transform, with a material) and the
//! scene that owns them.

use vstd::prelude::*;
use crate::mat4::{det_s, ent_s, identity_e, inv_e, transform_point_s, transform_vector_s, Mat4};
use crate::material::{default_material_s, mat_nonneg, Material};
use crate::ray::Ray;
use crate::rect::{rect_cast_s, Rect};
use crate::sphere::{sphere_cast_s, Sphere};
use crate::vec3::{normalized_s, Vec3};

verus! {

/// The closed set of surface primitives.
#[derive(Debug, Clone, Copy, PartialEq, Eq, Structural)]
pub enum Shape {
    Sphere(Sphere),
    Rect(Rect),
}

/// Intersection of a local-frame ray with a shape.
pub open spec fn shape_cast_s(s: Shape, ray: Ray) -> Option<i64> {
    match s {
        Shape::Sphere(sp) => sphere_cast_s(sp.radius as int, ray),
        Shape::Rect(_) => rect_cast_s(ray),
    }
}

/// Local-frame surface normal of a shape at a local point.
pub open spec fn shape_normal_s(s: Shape, p: Vec3) -> Vec3 {
    match s {
        Shape::Sphere(_) => normalized_s(p),
        Shape::Rect(_) => Vec3 { x: 0i64, y: 0i64, z: (-65536) as i64 },
    }
}

impl Shape {
    /// The nearest forward hit of a local-frame ray, as a ray parameter.
    pub fn ray_cast(&self, ray: &Ray) -> (r: Option<i64>)
        ensures
            r == shape_cast_s(*self, *ray),
    {
        match self {
            Shape::Sphere(sp) => sp.ray_cast(ray),
            Shape::Rect(rc) => rc.ray_cast(ray),
        }
    }

    /// The local-frame surface normal at a local point.
    pub fn normal(&self, position: Vec3) -> (n: Vec3)
        ensures
            n == shape_normal_s(*self, position),
    {
        match self {
            Shape::Sphere(sp) => sp.normal(position),
            Shape::Rect(rc) => rc.normal(position),
        }
    }
}

/// A shape placed in the world by a transform, carrying a material.
/// The inverse matrix is computed once at construction and never
/// changes afterwards.
#[derive(Debug, Clone, Copy)]
pub struct Entity {
    pub matrix: Mat4,
    pub inv_matrix: Mat4,
    pub material: Material,
    pub shape: Shape,
}

/// The stored inverse is consistent with the stored matrix: the true
/// inverse where one exists, the identity fallback otherwise.
pub open spec fn entity_inv_ok(e: Entity) -> bool {
    if det_s(e.matrix) != 0 {
        forall|k: int| 0 <= k < 16 ==> e.inv_matrix.v[k] as int == inv_e(e.matrix, k)
    } else {
        forall|i: int, j: int|
            0 <= i < 4 && 0 <= j < 4 ==> ent_s(e.inv_matrix, i, j) == identity_e(i, j)
    }
}

/// The world ray carried into an entity's local frame: the origin by
/// the full inverse transform, the direction by its linear part.
pub open spec fn local_ray_s(e: Entity, r: Ray) -> Ray {
    Ray {
        origin: transform_point_s(e.inv_matrix, r.origin),
        dir: transform_vector_s(e.inv_matrix, r.dir),
    }
}

/// Intersection of a world ray with an entity, through its local frame.
pub open spec fn entity_cast_s(e: Entity, r: Ray) -> Option<i64> {
    shape_cast_s(e.shape, local_ray_s(e, r))
}

impl Entity {
    /// Place a shape with a transform; the inverse is precomputed, and a
    /// degenerate transform falls back to the identity so that rendering
    /// continues with a wrong but harmless placement.
    pub fn new(matrix: Mat4, shape: Shape) -> (e: Entity)
        ensures
            e.matrix == matrix,
            e.shape == shape,
            e.material == default_material_s(),
            entity_inv_ok(e),
    {
        Entity { matrix, inv_matrix: matrix.invert(), material: Material::new(), shape }
    }
}

/// An ephemeral intersection record: the hit distance along the ray and
/// the index of the hit entity in the scene's object list.
#[derive(Debug, Clone, Copy, PartialEq, Eq, Structural)]
pub struct RayHit {
    pub t: i64,
    pub entity: usize,
}

/// An unordered collection of entities; insertion order is kept only as
/// a deterministic tie-break.
pub struct Scene {
    pub objects: Vec<Entity>,
}

/// Every material the scene holds has nonnegative albedo and emission.
pub open spec fn mat_nonneg_all_s(objs: Seq<Entity>) -> bool {
    forall|i: int| 0 <= i < objs.len() ==> mat_nonneg(#[trigger] objs[i].material)
}

/// The nearest hit among the first `n` entities: the smallest hit
/// parameter wins, and on an exact tie the entity inserted earlier.
pub open spec fn nearest_hit_upto_s(objs: Seq<Entity>, ray: Ray, n: int) -> Option<RayHit>
    decreases n,
{
    if n <= 0 {
        None
    } else {
        let prev = nearest_hit_upto_s(objs, ray, n - 1);
        match entity_cast_s(objs[n - 1], ray) {
            None => prev,
            Some(t) => match prev {
                None => Some(RayHit { t, entity: (n - 1) as usize }),
                Some(b) => if t < b.t {
                    Some(RayHit { t, entity: (n - 1) as usize })
                } else {
                    prev
                },
            },
        }
    }
}

/// The nearest hit over the whole scene.
pub open spec fn nearest_hit_s(objs: Seq<Entity>, ray: Ray) -> Option<RayHit> {
    nearest_hit_upto_s(objs, ray, objs.len() as int)
}

/// There is no nearest hit among the first `n` entities exactly when
/// none of them is hit at all.
pub proof fn lemma_nearest_none_iff(objs: Seq<Entity>, ray: Ray, n: int)
    requires
        0 <= n <= objs.len(),
    ensures
        nearest_hit_upto_s(objs, ray, n) is None <==> (forall|j: int|
            0 <= j < n ==> #[trigger] entity_cast_s(objs[j], ray) is None),
    decreases n,
{
    if n > 0 {
        lemma_nearest_none_iff(objs, ray, n - 1);
    }
}

impl Scene {
    /// An empty scene.
    pub fn new() -> (s: Scene)
        ensures
            s.objects@.len() == 0,
    {
        Scene { objects: Vec::new() }
    }
}

/// A fixed eye point with a field of view (not consulted by the fixed
/// camera the renderer uses).
#[derive(Debug, Clone, Copy, PartialEq, Eq, Structural)]
pub struct Camera {
    pub position: Vec3,
    pub fov: i64,
}

/// A copy of a matrix with the translation column zeroed, leaving the
/// rest untouched.
pub fn without_translate(m: &Mat4) -> (r: Mat4)
    ensures
        forall|i: int, j: int|
            0 <= i < 4 && 0 <= j < 4
                ==> ent_s(r, i, j) == (if i == 3 && j < 3 {
                    0
                } else {
                    ent_s(*m, i, j)
                }),
{
    Mat4::from_vec(
        &[
            m.v[0], m.v[1], m.v[2], 0,
            m.v[4], m.v[5], m.v[6], 0,
            m.v[8], m.v[9], m.v[10], 0,
            m.v[12], m.v[13], m.v[14], m.v[15],
        ],
    )
}

} // verus!
