//! An offline path tracer's verified core: axis-aligned bounding boxes with
//! an exact slab test, a bounding volume hierarchy proved to answer every
//! ray query exactly as a linear scan of its primitives would, and the
//! recursive Monte-Carlo integrator over contracted materials. All geometry
//! is carried in fixed-point integer coordinates so that every statement is
//! exact; the fixed-point scale is `T_SCALE`.

use vstd::prelude::*;

pub mod arith;
pub mod vec3d;
pub mod ray;
pub mod resolution;
pub mod aabb;
pub mod hit_record;
pub mod objects;
pub mod hittable;
pub mod bvh;
pub mod colour;
pub mod rng;
pub mod material;
pub mod render;
pub mod sqrt;

verus! {

/// Largest magnitude allowed for a scene coordinate: box bounds, vertices,
/// sphere centers and radii all stay within this range.
pub const COORD_LIMIT: i64 = 0x10_0000;

/// Ray parameters, times and surface coordinates are fixed-point values
/// scaled by this factor.
pub const T_SCALE: i64 = 0x1_0000;

} // verus!
