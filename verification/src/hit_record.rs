use vstd::prelude::*;
use crate::vec3d::Vec3d;
use crate::ray::Ray;

verus! {

/// Stores data related to a ray intersecting with a surface.
///
/// `point` is the hit point with all three coordinates scaled by `T_SCALE`,
/// so that it is exact where the geometry allows and within one part in
/// `T_SCALE` of the true point elsewhere. `normal` is the outward surface
/// normal scaled by `T_SCALE`; `front_face` says whether the ray arrived
/// against it. `t`, `u` and `v` are fixed-point values scaled by `T_SCALE`.
/// `material` is an index into the scene's material list.
#[derive(Clone, Copy, Debug, PartialEq, Eq, Structural)]
pub struct HitRecord {
    /// The point where the ray hits the surface, scaled by `T_SCALE`.
    pub point: Vec3d,
    /// The outward surface normal at the hit point, scaled by `T_SCALE`.
    pub normal: Vec3d,
    /// Index of the material of the surface in the scene's material list.
    pub material: usize,
    /// The ray parameter of the hit, scaled by `T_SCALE`.
    pub t: i64,
    /// Surface coordinate in `[0, T_SCALE]`.
    pub u: i64,
    /// Surface coordinate in `[0, T_SCALE]`.
    pub v: i64,
    /// Whether the ray approached from the side the outward normal points to.
    pub front_face: bool,
}

/// The data-model invariant of a hit record: the point lies in the scene
/// region (scaled by `T_SCALE`), the stored normal is bounded and the ray
/// parameter is in range.
pub open spec fn rec_ok(rec: HitRecord) -> bool {
    &&& crate::vec3d::in_range(rec.point, (crate::aabb::BOX_LIMIT as int) * (
    crate::T_SCALE as int))
    &&& crate::vec3d::in_range(rec.normal, 0x2000_0000_0000_0000)
    &&& -crate::ray::T_LIMIT <= rec.t <= crate::ray::T_LIMIT
}

impl HitRecord {
    pub fn new(
        point: Vec3d,
        normal: Vec3d,
        material: usize,
        t: i64,
        u: i64,
        v: i64,
        front_face: bool,
    ) -> (r: HitRecord)
        requires
            rec_ok(HitRecord { point, normal, material, t, u, v, front_face }),
            0 <= u <= crate::T_SCALE,
            0 <= v <= crate::T_SCALE,
        ensures
            r == (HitRecord { point, normal, material, t, u, v, front_face }),
    {
        HitRecord { point, normal, material, t, u, v, front_face }
    }
}

impl HitRecord {
    /// Whether the ray approaches from the side the outward normal points
    /// to, together with the normal turned against the ray: the convention a
    /// shading calculation wants.
    pub fn get_face_normal(ray: &Ray, outward_normal: Vec3d) -> (r: (bool, Vec3d))
        requires
            ray.wf(),
            crate::vec3d::in_range(outward_normal, 0x2000_0000_0000_0000),
        ensures
            r.0 == (crate::vec3d::sdot(ray.direction, outward_normal) < 0),
            r.0 ==> r.1 == outward_normal,
            !r.0 ==> (r.1.x == -outward_normal.x && r.1.y == -outward_normal.y && r.1.z
                == -outward_normal.z),
    {
        let front_face = ray.direction.dot(outward_normal) < 0;
        let normal = if front_face {
            outward_normal
        } else {
            outward_normal.neg()
        };
        (front_face, normal)
    }
}

} // verus!
