use vstd::prelude::*;
use crate::vec3d::{Vec3d, in_range};

verus! {

/// Largest magnitude a ray origin may have. Scene coordinates are bounded by
/// `COORD_LIMIT`; the extra headroom lets an instance transform shift a ray
/// origin without leaving the range the intersection arithmetic is proved for.
pub const ORIGIN_LIMIT: i64 = 0x60_0000;

/// Largest magnitude the origin of a ray handed to the scene may have: wide
/// enough for any bounce point inside the scene, and narrow enough that a
/// translated shape can still shift the ray into its own frame.
pub const SCENE_ORIGIN_LIMIT: i64 = 0x50_0000;

/// A ray that may be traced against a whole scene.
pub open spec fn scene_ray_ok(r: Ray) -> bool {
    r.wf() && in_range(r.origin, SCENE_ORIGIN_LIMIT as int)
}

/// Largest magnitude a ray direction component may have.
pub const DIR_LIMIT: i64 = 0x20_0000;

/// Largest magnitude for a fixed-point ray parameter or time value.
pub const T_LIMIT: i64 = 0x100_0000_0000;

/// A ray with fixed-point integer origin and direction. `time` is the sample
/// instant, scaled by `T_SCALE`, used by moving geometry.
#[derive(Clone, Copy, Debug, PartialEq, Eq, Structural)]
pub struct Ray {
    pub origin: Vec3d,
    pub direction: Vec3d,
    pub time: i64,
}

impl Ray {
    /// A ray the intersection routines accept: bounded coordinates and a
    /// direction that is not the zero vector.
    pub open spec fn wf(self) -> bool {
        &&& in_range(self.origin, ORIGIN_LIMIT as int)
        &&& in_range(self.direction, DIR_LIMIT as int)
        &&& !self.direction.is_zero()
        &&& -T_LIMIT <= self.time <= T_LIMIT
    }

    pub fn new(origin: Vec3d, direction: Vec3d, time: i64) -> (r: Ray)
        requires
            in_range(origin, ORIGIN_LIMIT as int),
            in_range(direction, DIR_LIMIT as int),
            !direction.is_zero(),
            -T_LIMIT <= time <= T_LIMIT,
        ensures
            r == (Ray { origin, direction, time }),
            r.wf(),
    {
        Ray { origin, direction, time }
    }
}

/// The point reached after parameter `t` (scaled by `T_SCALE`), itself scaled
/// by `T_SCALE`: `at_scaled(r, t) == r.origin * T_SCALE + t * r.direction`,
/// componentwise and exact.
pub open spec fn at_scaled_x(r: Ray, t: int) -> int {
    r.origin.x * (crate::T_SCALE as int) + t * r.direction.x
}

pub open spec fn at_scaled_y(r: Ray, t: int) -> int {
    r.origin.y * (crate::T_SCALE as int) + t * r.direction.y
}

pub open spec fn at_scaled_z(r: Ray, t: int) -> int {
    r.origin.z * (crate::T_SCALE as int) + t * r.direction.z
}

impl Ray {
    /// The point `origin + t * direction`, reported in coordinates scaled by
    /// `T_SCALE` so that the result is exact.
    pub fn at(&self, t: i64) -> (p: Vec3d)
        requires
            self.wf(),
            -T_LIMIT <= t <= T_LIMIT,
        ensures
            p.x == at_scaled_x(*self, t as int),
            p.y == at_scaled_y(*self, t as int),
            p.z == at_scaled_z(*self, t as int),
    {
        proof {
            crate::arith::lemma_mul_bound(
                self.origin.x as int,
                crate::T_SCALE as int,
                ORIGIN_LIMIT as int,
                crate::T_SCALE as int,
            );
            crate::arith::lemma_mul_bound(
                self.origin.y as int,
                crate::T_SCALE as int,
                ORIGIN_LIMIT as int,
                crate::T_SCALE as int,
            );
            crate::arith::lemma_mul_bound(
                self.origin.z as int,
                crate::T_SCALE as int,
                ORIGIN_LIMIT as int,
                crate::T_SCALE as int,
            );
            crate::arith::lemma_mul_bound(
                t as int,
                self.direction.x as int,
                T_LIMIT as int,
                DIR_LIMIT as int,
            );
            crate::arith::lemma_mul_bound(
                t as int,
                self.direction.y as int,
                T_LIMIT as int,
                DIR_LIMIT as int,
            );
            crate::arith::lemma_mul_bound(
                t as int,
                self.direction.z as int,
                T_LIMIT as int,
                DIR_LIMIT as int,
            );
        }
        let sc = crate::T_SCALE as i128;
        let x = (self.origin.x as i128) * sc + (t as i128) * (self.direction.x as i128);
        let y = (self.origin.y as i128) * sc + (t as i128) * (self.direction.y as i128);
        let z = (self.origin.z as i128) * sc + (t as i128) * (self.direction.z as i128);
        Vec3d { x: x as i64, y: y as i64, z: z as i64 }
    }
}

} // verus!
