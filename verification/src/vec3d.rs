use vstd::prelude::*;
use crate::sqrt::{isqrt, div_floor};

verus! {

/// A three-component vector over fixed-point integer coordinates. Positions,
/// directions, surface normals and box extents are all `Vec3d` values; the
/// caller chooses what one unit means.
#[derive(Clone, Copy, Debug, PartialEq, Eq, Structural)]
pub struct Vec3d {
    pub x: i64,
    pub y: i64,
    pub z: i64,
}

/// All three components have magnitude at most `bound`.
pub open spec fn in_range(v: Vec3d, bound: int) -> bool {
    &&& -bound <= v.x <= bound
    &&& -bound <= v.y <= bound
    &&& -bound <= v.z <= bound
}

/// The components of a vector as a triple of unbounded integers.
pub open spec fn v3(v: Vec3d) -> (int, int, int) {
    (v.x as int, v.y as int, v.z as int)
}

/// Componentwise difference of integer triples.
pub open spec fn sub3(a: (int, int, int), b: (int, int, int)) -> (int, int, int) {
    (a.0 - b.0, a.1 - b.1, a.2 - b.2)
}

/// Dot product of integer triples.
pub open spec fn dot3(a: (int, int, int), b: (int, int, int)) -> int {
    a.0 * b.0 + a.1 * b.1 + a.2 * b.2
}

/// Cross product of integer triples.
pub open spec fn cross3(a: (int, int, int), b: (int, int, int)) -> (int, int, int) {
    (a.1 * b.2 - a.2 * b.1, a.2 * b.0 - a.0 * b.2, a.0 * b.1 - a.1 * b.0)
}

/// Mathematical dot product of two vectors.
pub open spec fn sdot(a: Vec3d, b: Vec3d) -> int {
    a.x * b.x + a.y * b.y + a.z * b.z
}

/// Mathematical cross product, componentwise.
pub open spec fn scross_x(a: Vec3d, b: Vec3d) -> int {
    a.y * b.z - a.z * b.y
}

pub open spec fn scross_y(a: Vec3d, b: Vec3d) -> int {
    a.z * b.x - a.x * b.z
}

pub open spec fn scross_z(a: Vec3d, b: Vec3d) -> int {
    a.x * b.y - a.y * b.x
}

/// A dot product is bounded by three times the product of the component
/// bounds.
pub proof fn lemma_sdot_bound(a: Vec3d, b: Vec3d, bound_a: int, bound_b: int)
    requires
        in_range(a, bound_a),
        in_range(b, bound_b),
        0 <= bound_a,
        0 <= bound_b,
    ensures
        -(3 * bound_a * bound_b) <= sdot(a, b) <= 3 * bound_a * bound_b,
{
    crate::arith::lemma_mul_bound(a.x as int, b.x as int, bound_a, bound_b);
    crate::arith::lemma_mul_bound(a.y as int, b.y as int, bound_a, bound_b);
    crate::arith::lemma_mul_bound(a.z as int, b.z as int, bound_a, bound_b);
    assert(3 * bound_a * bound_b == bound_a * bound_b + bound_a * bound_b + bound_a * bound_b)
        by (nonlinear_arith);
}

/// Each cross product component is bounded by twice the product of the
/// component bounds.
pub proof fn lemma_scross_bound(a: Vec3d, b: Vec3d, bound_a: int, bound_b: int)
    requires
        in_range(a, bound_a),
        in_range(b, bound_b),
        0 <= bound_a,
        0 <= bound_b,
    ensures
        -(2 * bound_a * bound_b) <= scross_x(a, b) <= 2 * bound_a * bound_b,
        -(2 * bound_a * bound_b) <= scross_y(a, b) <= 2 * bound_a * bound_b,
        -(2 * bound_a * bound_b) <= scross_z(a, b) <= 2 * bound_a * bound_b,
{
    crate::arith::lemma_mul_bound(a.x as int, b.y as int, bound_a, bound_b);
    crate::arith::lemma_mul_bound(a.x as int, b.z as int, bound_a, bound_b);
    crate::arith::lemma_mul_bound(a.y as int, b.x as int, bound_a, bound_b);
    crate::arith::lemma_mul_bound(a.y as int, b.z as int, bound_a, bound_b);
    crate::arith::lemma_mul_bound(a.z as int, b.x as int, bound_a, bound_b);
    crate::arith::lemma_mul_bound(a.z as int, b.y as int, bound_a, bound_b);
    assert(2 * bound_a * bound_b == bound_a * bound_b + bound_a * bound_b) by (nonlinear_arith);
}

impl Vec3d {
    pub fn new(x: i64, y: i64, z: i64) -> (r: Vec3d)
        ensures
            r == (Vec3d { x, y, z }),
    {
        Vec3d { x, y, z }
    }

    pub open spec fn is_zero(self) -> bool {
        self.x == 0 && self.y == 0 && self.z == 0
    }

    pub fn add(self, o: Vec3d) -> (r: Vec3d)
        requires
            in_range(self, 0x2000_0000_0000_0000),
            in_range(o, 0x2000_0000_0000_0000),
        ensures
            r.x == self.x + o.x,
            r.y == self.y + o.y,
            r.z == self.z + o.z,
    {
        Vec3d { x: self.x + o.x, y: self.y + o.y, z: self.z + o.z }
    }

    pub fn sub(self, o: Vec3d) -> (r: Vec3d)
        requires
            in_range(self, 0x2000_0000_0000_0000),
            in_range(o, 0x2000_0000_0000_0000),
        ensures
            r.x == self.x - o.x,
            r.y == self.y - o.y,
            r.z == self.z - o.z,
    {
        Vec3d { x: self.x - o.x, y: self.y - o.y, z: self.z - o.z }
    }

    pub fn neg(self) -> (r: Vec3d)
        requires
            in_range(self, 0x2000_0000_0000_0000),
        ensures
            r.x == -self.x,
            r.y == -self.y,
            r.z == -self.z,
    {
        Vec3d { x: -self.x, y: -self.y, z: -self.z }
    }

    /// Dot product, exact; the `i128` result cannot overflow for the stated
    /// ranges.
    pub fn dot(self, o: Vec3d) -> (r: i128)
        requires
            in_range(self, 0x2000_0000_0000_0000),
            in_range(o, 0x2000_0000_0000_0000),
        ensures
            r == sdot(self, o),
    {
        proof {
            crate::arith::lemma_mul_bound(
                self.x as int,
                o.x as int,
                0x2000_0000_0000_0000,
                0x2000_0000_0000_0000,
            );
            crate::arith::lemma_mul_bound(
                self.y as int,
                o.y as int,
                0x2000_0000_0000_0000,
                0x2000_0000_0000_0000,
            );
            crate::arith::lemma_mul_bound(
                self.z as int,
                o.z as int,
                0x2000_0000_0000_0000,
                0x2000_0000_0000_0000,
            );
        }
        (self.x as i128) * (o.x as i128) + (self.y as i128) * (o.y as i128) + (self.z as i128)
            * (o.z as i128)
    }

    /// Cross product, exact for the bounded inputs the scene model allows.
    pub fn cross(self, o: Vec3d) -> (r: Vec3d)
        requires
            in_range(self, 0x4000_0000),
            in_range(o, 0x4000_0000),
        ensures
            r.x == scross_x(self, o),
            r.y == scross_y(self, o),
            r.z == scross_z(self, o),
    {
        proof {
            crate::arith::lemma_mul_bound(self.x as int, o.y as int, 0x4000_0000, 0x4000_0000);
            crate::arith::lemma_mul_bound(self.x as int, o.z as int, 0x4000_0000, 0x4000_0000);
            crate::arith::lemma_mul_bound(self.y as int, o.x as int, 0x4000_0000, 0x4000_0000);
            crate::arith::lemma_mul_bound(self.y as int, o.z as int, 0x4000_0000, 0x4000_0000);
            crate::arith::lemma_mul_bound(self.z as int, o.x as int, 0x4000_0000, 0x4000_0000);
            crate::arith::lemma_mul_bound(self.z as int, o.y as int, 0x4000_0000, 0x4000_0000);
        }
        Vec3d {
            x: self.y * o.z - self.z * o.y,
            y: self.z * o.x - self.x * o.z,
            z: self.x * o.y - self.y * o.x,
        }
    }

    /// The squared Euclidean length, exact.
    pub fn len_squared(self) -> (r: i128)
        requires
            in_range(self, 0x2000_0000_0000_0000),
        ensures
            r == sdot(self, self),
            r >= 0,
    {
        proof {
            crate::arith::lemma_dot_self(self.x as int, self.y as int, self.z as int);
        }
        self.dot(self)
    }

    /// Componentwise division by a positive scalar, rounding down.
    pub fn div(self, k: i64) -> (r: Vec3d)
        requires
            in_range(self, 0x7FFF_FFFF_FFFF_FFFF),
            k > 0,
        ensures
            r.x == self.x as int / k as int,
            r.y == self.y as int / k as int,
            r.z == self.z as int / k as int,
    {
        proof {
            crate::arith::lemma_div_bound(self.x as int, k as int, 0x7FFF_FFFF_FFFF_FFFF);
            crate::arith::lemma_div_bound(self.y as int, k as int, 0x7FFF_FFFF_FFFF_FFFF);
            crate::arith::lemma_div_bound(self.z as int, k as int, 0x7FFF_FFFF_FFFF_FFFF);
        }
        Vec3d {
            x: div_floor(self.x as i128, k as i128) as i64,
            y: div_floor(self.y as i128, k as i128) as i64,
            z: div_floor(self.z as i128, k as i128) as i64,
        }
    }

    pub fn get_axis(self, axis: usize) -> (r: i64)
        requires
            axis < 3,
        ensures
            axis == 0 ==> r == self.x,
            axis == 1 ==> r == self.y,
            axis == 2 ==> r == self.z,
    {
        if axis == 0 {
            self.x
        } else if axis == 1 {
            self.y
        } else {
            self.z
        }
    }
}

/// Scales a vector to length one in `T_SCALE` units, rounding down; nothing
/// for the zero vector.
pub fn unit_scaled(v: Vec3d) -> (r: Option<Vec3d>)
    requires
        in_range(v, 0x2000_0000_0000_0000),
    ensures
        r is Some <==> !v.is_zero(),
        r matches Some(u) ==> ({
            let l = crate::sqrt::sqrt_floor(sdot(v, v) as nat) as int;
            &&& in_range(u, 2 * crate::T_SCALE as int)
            &&& u.x == v.x * (crate::T_SCALE as int) / l
            &&& u.y == v.y * (crate::T_SCALE as int) / l
            &&& u.z == v.z * (crate::T_SCALE as int) / l
        }),
{
    proof {
        lemma_sdot_bound(v, v, 0x2000_0000_0000_0000, 0x2000_0000_0000_0000);
        crate::arith::lemma_dot_self(v.x as int, v.y as int, v.z as int);
    }
    let l2 = v.dot(v);
    if l2 == 0 {
        proof {
            assert(v.x * v.x >= 0 && v.y * v.y >= 0 && v.z * v.z >= 0) by (nonlinear_arith);
        }
        return None;
    }
    let l = isqrt(l2);
    proof {
        crate::sqrt::lemma_sqrt_floor_bounds(l2 as nat);
        crate::arith::lemma_mul_bound(v.x as int, crate::T_SCALE as int, 0x2000_0000_0000_0000, crate::T_SCALE as int);
        crate::arith::lemma_mul_bound(v.y as int, crate::T_SCALE as int, 0x2000_0000_0000_0000, crate::T_SCALE as int);
        crate::arith::lemma_mul_bound(v.z as int, crate::T_SCALE as int, 0x2000_0000_0000_0000, crate::T_SCALE as int);
        assert(v.x * v.x >= 0 && v.y * v.y >= 0 && v.z * v.z >= 0) by (nonlinear_arith);
        assert(l >= 1) by {
            if l == 0 {
                assert((l as int + 1) * (l as int + 1) == 1) by (nonlinear_arith)
                    requires
                        l == 0,
                ;
            }
        }
        lemma_unit_component(v.x as int, l as int, l2 as int);
        lemma_unit_component(v.y as int, l as int, l2 as int);
        lemma_unit_component(v.z as int, l as int, l2 as int);
    }
    let ux = div_floor((v.x as i128) * (crate::T_SCALE as i128), l);
    let uy = div_floor((v.y as i128) * (crate::T_SCALE as i128), l);
    let uz = div_floor((v.z as i128) * (crate::T_SCALE as i128), l);
    Some(Vec3d { x: ux as i64, y: uy as i64, z: uz as i64 })
}

/// A component of a vector scaled by its own length stays within twice the
/// unit scale.
proof fn lemma_unit_component(c: int, l: int, l2: int)
    requires
        l >= 1,
        c * c <= l2,
        l2 < (l + 1) * (l + 1),
    ensures
        -(2 * crate::T_SCALE as int) <= c * (crate::T_SCALE as int) / l <= 2 * crate::T_SCALE as int,
{
    let ts = crate::T_SCALE as int;
    assert(-(l + 1) <= c <= l + 1) by (nonlinear_arith)
        requires
            c * c <= l2,
            l2 < (l + 1) * (l + 1),
            l >= 1,
    ;
    assert(c * ts <= (l + 1) * ts && -((l + 1) * ts) <= c * ts) by (nonlinear_arith)
        requires
            -(l + 1) <= c <= l + 1,
            ts > 0,
    ;
    assert((l + 1) * ts <= 2 * l * ts) by (nonlinear_arith)
        requires
            l >= 1,
            ts > 0,
    ;
    vstd::arithmetic::div_mod::lemma_div_is_ordered(c * ts, 2 * l * ts, l);
    vstd::arithmetic::div_mod::lemma_div_is_ordered(-(2 * l * ts), c * ts, l);
    assert((2 * l * ts) / l == 2 * ts && (-(2 * l * ts)) / l == -(2 * ts)) by {
        vstd::arithmetic::div_mod::lemma_fundamental_div_mod_converse(2 * l * ts, l, 2 * ts, 0);
        vstd::arithmetic::div_mod::lemma_fundamental_div_mod_converse(
            -(2 * l * ts),
            l,
            -(2 * ts),
            0,
        );
    }
}

} // verus!
