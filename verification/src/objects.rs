use vstd::prelude::*;
use crate::vec3d::{Vec3d, in_range};
use crate::ray::{Ray, T_LIMIT, scene_ray_ok, at_scaled_x, at_scaled_y, at_scaled_z};
use crate::aabb::{BoundingBox, spec_box, spec_surrounding_box, strictly_inside_at};
use crate::hit_record::HitRecord;
use crate::sqrt::{sqrt_floor, isqrt, div_floor};
use crate::arith::{lemma_mul_bound, lemma_div_bound, lemma_dot_self};

verus! {

/// Boxes around geometry carry this pad on every side. It absorbs the
/// fixed-point rounding of hit points, and it gives flat geometry (such as an
/// axis-aligned rectangle) a box with volume, which the strict slab test
/// needs.
pub const PAD: i64 = 128;

/// Pad used by the tight triangle box on an axis whose extent is exactly
/// zero, so that the box keeps a positive thickness there.
pub const THIN_PAD: i64 = 66;

/// Thickness the tight box of an axis-aligned rectangle carries on its flat
/// axis.
pub const RECT_PAD: i64 = 7;

/// The point a ray reaches at parameter `t`, scaled by `T_SCALE`.
pub open spec fn spec_point_at(ray: Ray, t: int) -> Vec3d {
    Vec3d {
        x: at_scaled_x(ray, t) as i64,
        y: at_scaled_y(ray, t) as i64,
        z: at_scaled_z(ray, t) as i64,
    }
}

/// Checks that the point reached at parameter `t` is strictly inside the box,
/// all coordinates scaled by `T_SCALE`. Every produced hit passes this test,
/// so a hierarchy node whose box covers this box can never prune a real hit.
fn inside_box_check(bx: &BoundingBox, p: Vec3d, ray: &Ray, t: i64) -> (r: bool)
    requires
        bx.wf(),
        p.x == at_scaled_x(*ray, t as int),
        p.y == at_scaled_y(*ray, t as int),
        p.z == at_scaled_z(*ray, t as int),
    ensures
        r == strictly_inside_at(
            bx.min,
            bx.max,
            ray.origin,
            ray.direction,
            t as int,
            crate::T_SCALE as int,
        ),
{
    let ts = crate::T_SCALE as i128;
    ((bx.min.x as i128) * ts < (p.x as i128) && (p.x as i128) < (bx.max.x as i128) * ts) && ((
    bx.min.y as i128) * ts < (p.y as i128) && (p.y as i128) < (bx.max.y as i128) * ts) && ((
    bx.min.z as i128) * ts < (p.z as i128) && (p.z as i128) < (bx.max.z as i128) * ts)
}


/// Clamps a coordinate of a roughly unit direction into `[-T_SCALE, T_SCALE]`.
pub open spec fn clamp_unit(a: int) -> int {
    if a < -(crate::T_SCALE as int) {
        -(crate::T_SCALE as int)
    } else if a > crate::T_SCALE as int {
        crate::T_SCALE as int
    } else {
        a
    }
}

/// Surface coordinates of a point on the unit sphere, in `T_SCALE` units:
///
/// - `u` is the fraction of the turn around the y axis from `x == -1`,
/// - `v` is the fraction of the way from `y == -1` to `y == +1`.
///
/// The angles are piecewise-linear approximations (a diamond angle for the
/// turn, a chord for the latitude); both are exact on the coordinate axes
/// and at the poles, and `u` lies in `[0, 1)`, `v` in `[0, 1]`.
pub open spec fn spec_sphere_uv(p: Vec3d) -> (int, int) {
    let ts = crate::T_SCALE as int;
    let px = clamp_unit(p.x as int);
    let py = clamp_unit(p.y as int);
    let yy = clamp_unit(-(p.z as int));
    let ax = (if px >= 0 { px } else { -px }) + (if yy >= 0 { yy } else { -yy });
    let dturn = if ax == 0 {
        0
    } else {
        let tt = yy * ts / ax;
        if px >= 0 {
            tt
        } else {
            2 * ts - tt
        }
    };
    let u0 = (dturn + 2 * ts) / 4;
    let u = if u0 >= ts {
        u0 - ts
    } else {
        u0
    };
    let v = (py + ts) / 2;
    (u, v)
}

/// Given a point on the unit sphere returns the coordinates of that point in
/// the form `(u, v)`; see `spec_sphere_uv`.
pub fn get_sphere_uv(point: Vec3d) -> (r: (i64, i64))
    ensures
        (r.0 as int, r.1 as int) == spec_sphere_uv(point),
        0 <= r.0 < crate::T_SCALE,
        0 <= r.1 <= crate::T_SCALE,
{
    let ts = crate::T_SCALE;
    let px = if point.x < -ts {
        -ts
    } else if point.x > ts {
        ts
    } else {
        point.x
    };
    let py = if point.y < -ts {
        -ts
    } else if point.y > ts {
        ts
    } else {
        point.y
    };
    let z0 = if point.z < -ts {
        -ts
    } else if point.z > ts {
        ts
    } else {
        point.z
    };
    let yy = -z0;
    proof {
        assert(clamp_unit(-(point.z as int)) == -(z0 as int));
    }
    let ax = (if px >= 0 {
        px
    } else {
        -px
    }) + (if yy >= 0 {
        yy
    } else {
        -yy
    });
    let dturn: i64 = if ax == 0 {
        0
    } else {
        proof {
            lemma_mul_bound(yy as int, crate::T_SCALE as int, crate::T_SCALE as int, crate::T_SCALE as int);
            crate::arith::lemma_div_range(
                (yy as int) * (crate::T_SCALE as int),
                ax as int,
                (crate::T_SCALE as int) * (crate::T_SCALE as int),
            );
            assert((yy as int) * (crate::T_SCALE as int) <= ((crate::T_SCALE as int) * (
            crate::T_SCALE as int)) * (ax as int) && -(((crate::T_SCALE as int) * (
            crate::T_SCALE as int)) * (ax as int)) <= (yy as int) * (crate::T_SCALE as int))
                by (nonlinear_arith)
                requires
                    1 <= ax as int,
                    -(crate::T_SCALE as int) <= yy as int <= crate::T_SCALE as int,
            ;
            lemma_uv_ratio_range(yy as int, ax as int);
        }
        let tt = div_floor((yy as i128) * (ts as i128), ax as i128) as i64;
        if px >= 0 {
            tt
        } else {
            2 * ts - tt
        }
    };
    let u0 = div_floor((dturn as i128) + 2 * (ts as i128), 4) as i64;
    let u = if u0 >= ts {
        u0 - ts
    } else {
        u0
    };
    let v = div_floor((py as i128) + (ts as i128), 2) as i64;
    (u, v)
}

/// The diamond-angle ratio stays within one turn's quarter.
proof fn lemma_uv_ratio_range(yy: int, ax: int)
    requires
        ax >= 1,
        -ax <= yy <= ax,
        yy <= crate::T_SCALE as int,
        -(crate::T_SCALE as int) <= yy,
    ensures
        -(crate::T_SCALE as int) <= yy * (crate::T_SCALE as int) / ax <= crate::T_SCALE as int,
{
    assert(yy * (crate::T_SCALE as int) <= ax * (crate::T_SCALE as int) && -(ax * (
    crate::T_SCALE as int)) <= yy * (crate::T_SCALE as int)) by (nonlinear_arith)
        requires
            -ax <= yy <= ax,
            crate::T_SCALE as int > 0,
    ;
    crate::arith::lemma_div_range(yy * (crate::T_SCALE as int), ax, crate::T_SCALE as int)
}

// ---------------------------------------------------------------------------
// Sphere
// ---------------------------------------------------------------------------

/// The discriminant and the two candidate roots of the ray/sphere quadratic,
/// in fixed-point `T_SCALE` units, rounded down.
pub open spec fn sphere_roots(center: Vec3d, radius: i64, ray: Ray) -> (int, int, int) {
    let ocx = ray.origin.x - center.x;
    let ocy = ray.origin.y - center.y;
    let ocz = ray.origin.z - center.z;
    let dx = ray.direction.x as int;
    let dy = ray.direction.y as int;
    let dz = ray.direction.z as int;
    let qa = dx * dx + dy * dy + dz * dz;
    let hb = ocx * dx + ocy * dy + ocz * dz;
    let c0 = ocx * ocx + ocy * ocy + ocz * ocz - radius * radius;
    let disc = hb * hb - qa * c0;
    let ts = crate::T_SCALE as int;
    let s = sqrt_floor((disc * ts * ts) as nat) as int;
    let t1 = (-hb * ts - s) / qa;
    let t2 = (-hb * ts + s) / qa;
    (disc, t1, t2)
}

/// The root the sphere reports for the open window `(tmin, tmax)`: the nearer
/// root if it lies inside the window, else the farther one, else nothing.
pub open spec fn sphere_pick(center: Vec3d, radius: i64, ray: Ray, tmin: int, tmax: int) -> Option<
    int,
> {
    let (disc, t1, t2) = sphere_roots(center, radius, ray);
    if disc < 0 {
        None
    } else if tmin < t1 && t1 < tmax {
        Some(t1)
    } else if tmin < t2 && t2 < tmax {
        Some(t2)
    } else {
        None
    }
}

/// Builds the hit record for a sphere hit at parameter `t`, provided the hit
/// point is strictly inside the sphere's stored box. The normal is the
/// outward direction `(p - center)/radius`, scaled by `T_SCALE`.
pub open spec fn sphere_finish(
    center: Vec3d,
    radius: i64,
    bx: BoundingBox,
    mat: usize,
    ray: Ray,
    t: int,
) -> Option<HitRecord> {
    if strictly_inside_at(bx.min, bx.max, ray.origin, ray.direction, t, crate::T_SCALE as int) {
        let p = spec_point_at(ray, t);
        let ts = crate::T_SCALE as int;
        let gx = p.x - center.x * ts;
        let gy = p.y - center.y * ts;
        let gz = p.z - center.z * ts;
        let ff = ray.direction.x * gx + ray.direction.y * gy + ray.direction.z * gz < 0;
        let normal = Vec3d {
            x: (gx / (radius as int)) as i64,
            y: (gy / (radius as int)) as i64,
            z: (gz / (radius as int)) as i64,
        };
        let uv = spec_sphere_uv(normal);
        Some(
            HitRecord {
                point: p,
                normal: normal,
                material: mat,
                t: t as i64,
                u: uv.0 as i64,
                v: uv.1 as i64,
                front_face: ff,
            },
        )
    } else {
        None
    }
}

/// The full sphere intersection: pick a root in the window, then gate it on
/// the stored box.
pub open spec fn sphere_core_hit(
    center: Vec3d,
    radius: i64,
    bx: BoundingBox,
    mat: usize,
    ray: Ray,
    tmin: int,
    tmax: int,
) -> Option<HitRecord> {
    match sphere_pick(center, radius, ray, tmin, tmax) {
        Some(t) => sphere_finish(center, radius, bx, mat, ray, t),
        None => None,
    }
}

/// Finishing step of the sphere intersection, executable.
fn sphere_finish_e(center: Vec3d, radius: i64, bx: &BoundingBox, mat: usize, ray: &Ray, t: i64) -> (
    res: Option<HitRecord>)
    requires
        in_range(center, crate::aabb::BOX_LIMIT as int),
        0 < radius <= crate::COORD_LIMIT,
        bx.wf(),
        ray.wf(),
        -T_LIMIT <= t <= T_LIMIT,
    ensures
        res == sphere_finish(center, radius, *bx, mat, *ray, t as int),
{
    let p = ray.at(t);
    if !inside_box_check(bx, p, ray, t) {
        return None;
    }
    let ts = crate::T_SCALE as i128;
    proof {
        lemma_mul_bound(
            center.x as int,
            crate::T_SCALE as int,
            crate::aabb::BOX_LIMIT as int,
            crate::T_SCALE as int,
        );
        lemma_mul_bound(
            center.y as int,
            crate::T_SCALE as int,
            crate::aabb::BOX_LIMIT as int,
            crate::T_SCALE as int,
        );
        lemma_mul_bound(
            center.z as int,
            crate::T_SCALE as int,
            crate::aabb::BOX_LIMIT as int,
            crate::T_SCALE as int,
        );
    }
    let gx = (p.x as i128) - (center.x as i128) * ts;
    let gy = (p.y as i128) - (center.y as i128) * ts;
    let gz = (p.z as i128) - (center.z as i128) * ts;
    proof {
        lemma_div_bound(gx as int, radius as int, 0x200_0000_0000);
        lemma_div_bound(gy as int, radius as int, 0x200_0000_0000);
        lemma_div_bound(gz as int, radius as int, 0x200_0000_0000);
        lemma_mul_bound(ray.direction.x as int, gx as int, crate::ray::DIR_LIMIT as int, 0x200_0000_0000);
        lemma_mul_bound(ray.direction.y as int, gy as int, crate::ray::DIR_LIMIT as int, 0x200_0000_0000);
        lemma_mul_bound(ray.direction.z as int, gz as int, crate::ray::DIR_LIMIT as int, 0x200_0000_0000);
    }
    let nx = div_floor(gx, radius as i128);
    let ny = div_floor(gy, radius as i128);
    let nz = div_floor(gz, radius as i128);
    let ffv = (ray.direction.x as i128) * gx + (ray.direction.y as i128) * gy + (
    ray.direction.z as i128) * gz;
    let normal = Vec3d { x: nx as i64, y: ny as i64, z: nz as i64 };
    let uv = get_sphere_uv(normal);
    Some(
        HitRecord {
            point: p,
            normal,
            material: mat,
            t,
            u: uv.0,
            v: uv.1,
            front_face: ffv < 0,
        },
    )
}

/// Ray/sphere intersection, executable; exact with respect to
/// `sphere_core_hit`.
fn sphere_core(
    center: Vec3d,
    radius: i64,
    bx: &BoundingBox,
    mat: usize,
    ray: &Ray,
    t_min: i64,
    t_max: i64,
) -> (res: Option<HitRecord>)
    requires
        in_range(center, 0x40_0000),
        0 < radius <= crate::COORD_LIMIT,
        bx.wf(),
        ray.wf(),
        -T_LIMIT <= t_min <= T_LIMIT,
        -T_LIMIT <= t_max <= T_LIMIT,
    ensures
        res == sphere_core_hit(center, radius, *bx, mat, *ray, t_min as int, t_max as int),
{
    let oc = ray.origin.sub(center);
    let d = ray.direction;
    proof {
        assert(in_range(oc, 0xA0_0000));
        crate::vec3d::lemma_sdot_bound(d, d, 0x20_0000, 0x20_0000);
        crate::vec3d::lemma_sdot_bound(oc, d, 0xA0_0000, 0x20_0000);
        crate::vec3d::lemma_sdot_bound(oc, oc, 0xA0_0000, 0xA0_0000);
    }
    let qa = d.dot(d);
    let hb = oc.dot(d);
    let oc2 = oc.dot(oc);
    proof {
        lemma_mul_bound(
            radius as int,
            radius as int,
            crate::COORD_LIMIT as int,
            crate::COORD_LIMIT as int,
        );
    }
    let c0 = oc2 - (radius as i128) * (radius as i128);
    proof {
        lemma_mul_bound(hb as int, hb as int, 0x3C00_0000_0000, 0x3C00_0000_0000);
        lemma_mul_bound(qa as int, c0 as int, 0xC00_0000_0000, 0x12D00_0000_0000);
    }
    let disc = hb * hb - qa * c0;
    if disc < 0 {
        return None;
    }
    proof {
        lemma_dot_self(d.x as int, d.y as int, d.z as int);
        lemma_mul_bound(disc as int, crate::T_SCALE as int, 0x1D00_0000_0000_0000_0000_0000, crate::T_SCALE as int);
    }
    let dts = disc * (crate::T_SCALE as i128);
    proof {
        lemma_mul_bound(
            dts as int,
            crate::T_SCALE as int,
            0x1D00_0000_0000_0000_0000_0000_0000,
            crate::T_SCALE as int,
        );
    }
    let dtss = dts * (crate::T_SCALE as i128);
    let s = isqrt(dtss);
    proof {
        lemma_mul_bound(hb as int, crate::T_SCALE as int, 0x3C00_0000_0000, crate::T_SCALE as int);
    }
    let hbts = hb * (crate::T_SCALE as i128);
    let t1 = div_floor(-hbts - s, qa);
    if (t_min as i128) < t1 && t1 < (t_max as i128) {
        return sphere_finish_e(center, radius, bx, mat, ray, t1 as i64);
    }
    let t2 = div_floor(-hbts + s, qa);
    if (t_min as i128) < t2 && t2 < (t_max as i128) {
        return sphere_finish_e(center, radius, bx, mat, ray, t2 as i64);
    }
    None
}

/// A sphere given by its center, radius and material.
#[derive(Clone, Copy, Debug, PartialEq, Eq, Structural)]
pub struct Sphere {
    pub center: Vec3d,
    pub radius: i64,
    pub material: usize,
}

/// The sphere's stored box: the tight bounds padded by `PAD`.
pub open spec fn sphere_box_spec(center: Vec3d, radius: i64) -> BoundingBox {
    spec_box(
        Vec3d {
            x: (center.x - radius - PAD) as i64,
            y: (center.y - radius - PAD) as i64,
            z: (center.z - radius - PAD) as i64,
        },
        Vec3d {
            x: (center.x + radius + PAD) as i64,
            y: (center.y + radius + PAD) as i64,
            z: (center.z + radius + PAD) as i64,
        },
    )
}

impl Sphere {
    pub open spec fn wf(self) -> bool {
        &&& in_range(self.center, crate::COORD_LIMIT as int)
        &&& 0 < self.radius <= crate::COORD_LIMIT
    }

    pub open spec fn hit_spec(self, ray: Ray, tmin: int, tmax: int) -> Option<HitRecord> {
        sphere_core_hit(
            self.center,
            self.radius,
            sphere_box_spec(self.center, self.radius),
            self.material,
            ray,
            tmin,
            tmax,
        )
    }

    pub fn new(center: Vec3d, radius: i64, material: usize) -> (r: Sphere)
        requires
            in_range(center, crate::COORD_LIMIT as int),
            0 < radius <= crate::COORD_LIMIT,
        ensures
            r == (Sphere { center, radius, material }),
            r.wf(),
    {
        Sphere { center, radius, material }
    }

    /// The padded box the hierarchy stores for this sphere; every hit the
    /// sphere reports lies strictly inside it.
    pub fn stored_box(&self) -> (r: BoundingBox)
        requires
            self.wf(),
        ensures
            r == sphere_box_spec(self.center, self.radius),
            r.wf(),
            in_range(r.min, (2 * crate::COORD_LIMIT + PAD) as int),
            in_range(r.max, (2 * crate::COORD_LIMIT + PAD) as int),
    {
        let rp = self.radius + PAD;
        BoundingBox::new(
            Vec3d::new(self.center.x - rp, self.center.y - rp, self.center.z - rp),
            Vec3d::new(self.center.x + rp, self.center.y + rp, self.center.z + rp),
        )
    }

    pub fn hit(&self, ray: &Ray, t_min: i64, t_max: i64) -> (res: Option<HitRecord>)
        requires
            self.wf(),
            ray.wf(),
            -T_LIMIT <= t_min <= T_LIMIT,
            -T_LIMIT <= t_max <= T_LIMIT,
        ensures
            res == self.hit_spec(*ray, t_min as int, t_max as int),
    {
        let bx = self.stored_box();
        sphere_core(self.center, self.radius, &bx, self.material, ray, t_min, t_max)
    }
}

fn min3e(a: i64, b: i64, c: i64) -> (r: i64)
    ensures
        r == crate::aabb::min3(a as int, b as int, c as int),
{
    if a <= b && a <= c {
        a
    } else if b <= c {
        b
    } else {
        c
    }
}

fn max3e(a: i64, b: i64, c: i64) -> (r: i64)
    ensures
        r == crate::aabb::max3(a as int, b as int, c as int),
{
    if a >= b && a >= c {
        a
    } else if b >= c {
        b
    } else {
        c
    }
}

// ---------------------------------------------------------------------------
// Triangle
// ---------------------------------------------------------------------------

/// A triangle object that stores the three vertices of the triangle.
#[derive(Clone, Copy, Debug, PartialEq, Eq, Structural)]
pub struct Triangle {
    pub a: Vec3d,
    pub b: Vec3d,
    pub c: Vec3d,
    pub material: usize,
}

/// The oriented determinant and numerators of the Moller-Trumbore
/// intersection: `(dn, un, vn, tn)` with `dn >= 0`, so that the barycentric
/// coordinates are `un/dn` and `vn/dn` and the ray parameter is `tn/dn`.
pub open spec fn triangle_pre(t: Triangle, ray: Ray) -> (int, int, int, int) {
    let e1 = crate::vec3d::sub3(crate::vec3d::v3(t.b), crate::vec3d::v3(t.a));
    let e2 = crate::vec3d::sub3(crate::vec3d::v3(t.c), crate::vec3d::v3(t.a));
    let dd = crate::vec3d::v3(ray.direction);
    let rce2 = crate::vec3d::cross3(dd, e2);
    let det = crate::vec3d::dot3(e1, rce2);
    let s = crate::vec3d::sub3(crate::vec3d::v3(ray.origin), crate::vec3d::v3(t.a));
    let sxe1 = crate::vec3d::cross3(s, e1);
    let un = crate::vec3d::dot3(s, rce2);
    let vn = crate::vec3d::dot3(dd, sxe1);
    let tn = crate::vec3d::dot3(e2, sxe1);
    if det >= 0 {
        (det, un, vn, tn)
    } else {
        (-det, -un, -vn, -tn)
    }
}

/// The ray parameter the triangle reports: rejects parallel rays, plane hits
/// outside the triangle, and parameters outside the open window.
pub open spec fn triangle_pick(t: Triangle, ray: Ray, tmin: int, tmax: int) -> Option<int> {
    let (dn, un, vn, tn) = triangle_pre(t, ray);
    if dn == 0 {
        None
    } else if un < 0 || un > dn {
        None
    } else if vn < 0 || un + vn > dn {
        None
    } else {
        let tt = tn * (crate::T_SCALE as int) / dn;
        if tmin < tt && tt < tmax {
            Some(tt)
        } else {
            None
        }
    }
}

/// The hit record for a triangle hit at parameter `tt`: the point, the
/// barycentric surface coordinates, and the plane normal scaled to unit
/// length, gated on the stored box.
pub open spec fn triangle_finish(t: Triangle, bx: BoundingBox, ray: Ray, tt: int) -> Option<
    HitRecord,
> {
    if strictly_inside_at(bx.min, bx.max, ray.origin, ray.direction, tt, crate::T_SCALE as int) {
        let (dn, un, vn, tn) = triangle_pre(t, ray);
        let e1 = crate::vec3d::sub3(crate::vec3d::v3(t.b), crate::vec3d::v3(t.a));
        let e2 = crate::vec3d::sub3(crate::vec3d::v3(t.c), crate::vec3d::v3(t.a));
        let cr = crate::vec3d::cross3(e1, e2);
        let ll = sqrt_floor(crate::vec3d::dot3(cr, cr) as nat) as int;
        if ll == 0 {
            None
        } else {
            let p = spec_point_at(ray, tt);
            let ts = crate::T_SCALE as int;
            Some(
                HitRecord {
                    point: p,
                    normal: Vec3d {
                        x: (cr.0 * ts / ll) as i64,
                        y: (cr.1 * ts / ll) as i64,
                        z: (cr.2 * ts / ll) as i64,
                    },
                    material: t.material,
                    t: tt as i64,
                    u: (un * ts / dn) as i64,
                    v: (vn * ts / dn) as i64,
                    front_face: crate::vec3d::dot3(crate::vec3d::v3(ray.direction), cr) < 0,
                },
            )
        }
    } else {
        None
    }
}

/// The triangle's stored box: the vertex bounds padded by `PAD`.
pub open spec fn triangle_box_spec(t: Triangle) -> BoundingBox {
    spec_box(
        Vec3d {
            x: (crate::aabb::min3(t.a.x as int, t.b.x as int, t.c.x as int) - PAD) as i64,
            y: (crate::aabb::min3(t.a.y as int, t.b.y as int, t.c.y as int) - PAD) as i64,
            z: (crate::aabb::min3(t.a.z as int, t.b.z as int, t.c.z as int) - PAD) as i64,
        },
        Vec3d {
            x: (crate::aabb::max3(t.a.x as int, t.b.x as int, t.c.x as int) + PAD) as i64,
            y: (crate::aabb::max3(t.a.y as int, t.b.y as int, t.c.y as int) + PAD) as i64,
            z: (crate::aabb::max3(t.a.z as int, t.b.z as int, t.c.z as int) + PAD) as i64,
        },
    )
}

pub open spec fn triangle_hit_spec(t: Triangle, ray: Ray, tmin: int, tmax: int) -> Option<
    HitRecord,
> {
    match triangle_pick(t, ray, tmin, tmax) {
        Some(tt) => triangle_finish(t, triangle_box_spec(t), ray, tt),
        None => None,
    }
}

impl Triangle {
    pub open spec fn wf(self) -> bool {
        &&& in_range(self.a, crate::COORD_LIMIT as int)
        &&& in_range(self.b, crate::COORD_LIMIT as int)
        &&& in_range(self.c, crate::COORD_LIMIT as int)
    }

    pub fn new(a: Vec3d, b: Vec3d, c: Vec3d, material: usize) -> (r: Triangle)
        requires
            in_range(a, crate::COORD_LIMIT as int),
            in_range(b, crate::COORD_LIMIT as int),
            in_range(c, crate::COORD_LIMIT as int),
        ensures
            r == (Triangle { a, b, c, material }),
            r.wf(),
    {
        Triangle { a, b, c, material }
    }

    /// The padded box the hierarchy stores for this triangle.
    pub fn stored_box(&self) -> (r: BoundingBox)
        requires
            self.wf(),
        ensures
            r == triangle_box_spec(*self),
            r.wf(),
            in_range(r.min, (2 * crate::COORD_LIMIT + PAD) as int),
            in_range(r.max, (2 * crate::COORD_LIMIT + PAD) as int),
    {
        let min = Vec3d::new(
            min3e(self.a.x, self.b.x, self.c.x) - PAD,
            min3e(self.a.y, self.b.y, self.c.y) - PAD,
            min3e(self.a.z, self.b.z, self.c.z) - PAD,
        );
        let max = Vec3d::new(
            max3e(self.a.x, self.b.x, self.c.x) + PAD,
            max3e(self.a.y, self.b.y, self.c.y) + PAD,
            max3e(self.a.z, self.b.z, self.c.z) + PAD,
        );
        BoundingBox::new(min, max)
    }

    pub fn hit(&self, ray: &Ray, t_min: i64, t_max: i64) -> (res: Option<HitRecord>)
        requires
            self.wf(),
            ray.wf(),
            -T_LIMIT <= t_min <= T_LIMIT,
            -T_LIMIT <= t_max <= T_LIMIT,
        ensures
            res == triangle_hit_spec(*self, *ray, t_min as int, t_max as int),
    {
        let e1 = self.b.sub(self.a);
        let e2 = self.c.sub(self.a);
        let d = ray.direction;
        let rce2 = d.cross(e2);
        proof {
            crate::vec3d::lemma_scross_bound(d, e2, 0x20_0000, 0x40_0000);
            assert(in_range(rce2, 0x2000_0000_0000));
        }
        let det = e1.dot(rce2);
        let s = ray.origin.sub(self.a);
        let sxe1 = s.cross(e1);
        proof {
            crate::vec3d::lemma_scross_bound(s, e1, 0x70_0000, 0x20_0000);
            assert(in_range(sxe1, 0x2000_0000_0000));
        }
        let un0 = s.dot(rce2);
        let vn0 = d.dot(sxe1);
        let tn0 = e2.dot(sxe1);
        proof {
            crate::vec3d::lemma_sdot_bound(e1, rce2, 0x40_0000, 0x2000_0000_0000);
            crate::vec3d::lemma_sdot_bound(s, rce2, 0x70_0000, 0x2000_0000_0000);
            crate::vec3d::lemma_sdot_bound(d, sxe1, 0x20_0000, 0x2000_0000_0000);
            crate::vec3d::lemma_sdot_bound(e2, sxe1, 0x40_0000, 0x2000_0000_0000);
        }
        let (dn, un, vn, tn) = if det >= 0 {
            (det, un0, vn0, tn0)
        } else {
            (-det, -un0, -vn0, -tn0)
        };
        if dn == 0 {
            return None;
        }
        if un < 0 || un > dn {
            return None;
        }
        if vn < 0 || un + vn > dn {
            return None;
        }
        proof {
            crate::vec3d::lemma_sdot_bound(e2, sxe1, 0x40_0000, 0x2000_0000_0000);
            lemma_mul_bound(tn as int, crate::T_SCALE as int, 0x1_0000_0000_0000_0000_0000, crate::T_SCALE as int);
        }
        let tt = div_floor(tn * (crate::T_SCALE as i128), dn);
        if !((t_min as i128) < tt && tt < (t_max as i128)) {
            return None;
        }
        let bx = self.stored_box();
        let ti = tt as i64;
        let p = ray.at(ti);
        if !inside_box_check(&bx, p, ray, ti) {
            return None;
        }
        let cr = e1.cross(e2);
        proof {
            crate::vec3d::lemma_scross_bound(e1, e2, 0x40_0000, 0x40_0000);
            assert(in_range(cr, 0x2000_0000_0000));
            crate::vec3d::lemma_sdot_bound(cr, cr, 0x2000_0000_0000, 0x2000_0000_0000);
            lemma_dot_self(cr.x as int, cr.y as int, cr.z as int);
        }
        let l2 = cr.dot(cr);
        let ll = isqrt(l2);
        if ll == 0 {
            return None;
        }
        proof {
            lemma_mul_bound(cr.x as int, crate::T_SCALE as int, 0x2000_0000_0000, crate::T_SCALE as int);
            lemma_mul_bound(cr.y as int, crate::T_SCALE as int, 0x2000_0000_0000, crate::T_SCALE as int);
            lemma_mul_bound(cr.z as int, crate::T_SCALE as int, 0x2000_0000_0000, crate::T_SCALE as int);
            lemma_div_bound((cr.x as int) * (crate::T_SCALE as int), ll as int, 0x2000_0000_0000_0000);
            lemma_div_bound((cr.y as int) * (crate::T_SCALE as int), ll as int, 0x2000_0000_0000_0000);
            lemma_div_bound((cr.z as int) * (crate::T_SCALE as int), ll as int, 0x2000_0000_0000_0000);
            crate::vec3d::lemma_sdot_bound(s, rce2, 0x70_0000, 0x2000_0000_0000);
            lemma_mul_bound(un as int, crate::T_SCALE as int, 0x1_0000_0000_0000_0000_0000, crate::T_SCALE as int);
            crate::vec3d::lemma_sdot_bound(d, sxe1, 0x20_0000, 0x2000_0000_0000);
            lemma_mul_bound(vn as int, crate::T_SCALE as int, 0x1_0000_0000_0000_0000_0000, crate::T_SCALE as int);
            lemma_div_bound((un as int) * (crate::T_SCALE as int), dn as int, 0x1000_0000_0000_0000_0000_0000);
            lemma_div_bound((vn as int) * (crate::T_SCALE as int), dn as int, 0x1000_0000_0000_0000_0000_0000);
        }
        let nx = div_floor(cr.x as i128 * (crate::T_SCALE as i128), ll);
        let ny = div_floor(cr.y as i128 * (crate::T_SCALE as i128), ll);
        let nz = div_floor(cr.z as i128 * (crate::T_SCALE as i128), ll);
        let uu = div_floor(un * (crate::T_SCALE as i128), dn);
        let vv = div_floor(vn * (crate::T_SCALE as i128), dn);
        let ffv = d.dot(cr);
        Some(
            HitRecord {
                point: p,
                normal: Vec3d { x: nx as i64, y: ny as i64, z: nz as i64 },
                material: self.material,
                t: ti,
                u: uu as i64,
                v: vv as i64,
                front_face: ffv < 0,
            },
        )
    }
}

// ---------------------------------------------------------------------------
// Axis-aligned rectangles
// ---------------------------------------------------------------------------

/// The ray parameter at which the ray crosses the plane `axis == k`, given
/// the origin and direction components along that axis, rounded down in
/// `T_SCALE` units; nothing if the ray is parallel to the plane.
pub open spec fn plane_t(k: int, ok: int, dk: int) -> Option<int> {
    if dk == 0 {
        None
    } else if dk > 0 {
        Some(((k - ok) * (crate::T_SCALE as int)) / dk)
    } else {
        Some(((ok - k) * (crate::T_SCALE as int)) / (-dk))
    }
}

/// The plane-crossing parameter if it lies in the window and the in-plane
/// point lies within the rectangle `[a0, a1] x [b0, b1]` (closed bounds, as
/// scaled coordinates).
pub open spec fn rect_pick(
    k: int,
    a0: int,
    a1: int,
    b0: int,
    b1: int,
    ok: int,
    dk: int,
    oa: int,
    da: int,
    ob: int,
    db: int,
    tmin: int,
    tmax: int,
) -> Option<int> {
    match plane_t(k, ok, dk) {
        None => None,
        Some(tt) => {
            let ts = crate::T_SCALE as int;
            let pa = oa * ts + tt * da;
            let pb = ob * ts + tt * db;
            if pa < a0 * ts || pa > a1 * ts || pb < b0 * ts || pb > b1 * ts {
                None
            } else if tmin < tt && tt < tmax {
                Some(tt)
            } else {
                None
            }
        },
    }
}

/// The rectangle's surface coordinates at parameter `tt`, each in
/// `[0, T_SCALE]`.
pub open spec fn rect_uv(
    a0: int,
    a1: int,
    b0: int,
    b1: int,
    oa: int,
    da: int,
    ob: int,
    db: int,
    tt: int,
) -> (int, int) {
    let ts = crate::T_SCALE as int;
    let pa = oa * ts + tt * da;
    let pb = ob * ts + tt * db;
    ((pa - a0 * ts) / (a1 - a0), (pb - b0 * ts) / (b1 - b0))
}

/// Computes the plane-crossing parameter, executable.
fn plane_t_e(k: i64, ok: i64, dk: i64) -> (r: Option<i128>)
    requires
        -crate::COORD_LIMIT <= k <= crate::COORD_LIMIT,
        -crate::ray::ORIGIN_LIMIT <= ok <= crate::ray::ORIGIN_LIMIT,
        -crate::ray::DIR_LIMIT <= dk <= crate::ray::DIR_LIMIT,
    ensures
        match r {
            Some(t) => plane_t(k as int, ok as int, dk as int) == Some(t as int),
            None => plane_t(k as int, ok as int, dk as int) is None,
        },
{
    proof {
        lemma_mul_bound((k - ok) as int, crate::T_SCALE as int, 0x400_0000, crate::T_SCALE as int);
        lemma_mul_bound((ok - k) as int, crate::T_SCALE as int, 0x400_0000, crate::T_SCALE as int);
    }
    if dk == 0 {
        None
    } else if dk > 0 {
        Some(div_floor(((k - ok) as i128) * (crate::T_SCALE as i128), dk as i128))
    } else {
        Some(div_floor(((ok - k) as i128) * (crate::T_SCALE as i128), (-dk) as i128))
    }
}

/// Checks the in-plane rectangle bounds and the window, executable.
fn rect_gate(
    a0: i64,
    a1: i64,
    b0: i64,
    b1: i64,
    oa: i64,
    da: i64,
    ob: i64,
    db: i64,
    tt: i128,
    t_min: i64,
    t_max: i64,
) -> (r: bool)
    requires
        -crate::COORD_LIMIT <= a0 <= crate::COORD_LIMIT,
        -crate::COORD_LIMIT <= a1 <= crate::COORD_LIMIT,
        -crate::COORD_LIMIT <= b0 <= crate::COORD_LIMIT,
        -crate::COORD_LIMIT <= b1 <= crate::COORD_LIMIT,
        -crate::ray::ORIGIN_LIMIT <= oa <= crate::ray::ORIGIN_LIMIT,
        -crate::ray::ORIGIN_LIMIT <= ob <= crate::ray::ORIGIN_LIMIT,
        -crate::ray::DIR_LIMIT <= da <= crate::ray::DIR_LIMIT,
        -crate::ray::DIR_LIMIT <= db <= crate::ray::DIR_LIMIT,
        -0x4000_0000_0000_0000 <= tt <= 0x4000_0000_0000_0000,
    ensures
        ({
            let ts = crate::T_SCALE as int;
            let pa = oa * ts + tt * da;
            let pb = ob * ts + tt * db;
            r == (!(pa < a0 * ts || pa > a1 * ts || pb < b0 * ts || pb > b1 * ts) && (
            t_min as int) < tt && tt < (t_max as int))
        }),
{
    proof {
        lemma_mul_bound(tt as int, da as int, 0x4000_0000_0000_0000, crate::ray::DIR_LIMIT as int);
        lemma_mul_bound(tt as int, db as int, 0x4000_0000_0000_0000, crate::ray::DIR_LIMIT as int);
    }
    let ts = crate::T_SCALE as i128;
    let pa = (oa as i128) * ts + tt * (da as i128);
    let pb = (ob as i128) * ts + tt * (db as i128);
    !(pa < (a0 as i128) * ts || pa > (a1 as i128) * ts || pb < (b0 as i128) * ts || pb > (
    b1 as i128) * ts) && (t_min as i128) < tt && tt < (t_max as i128)
}

/// Computes the surface coordinates, executable.
fn rect_uv_e(a0: i64, a1: i64, b0: i64, b1: i64, oa: i64, da: i64, ob: i64, db: i64, tt: i64) -> (r:
    (i64, i64))
    requires
        -crate::COORD_LIMIT <= a0 <= crate::COORD_LIMIT,
        -crate::COORD_LIMIT <= a1 <= crate::COORD_LIMIT,
        -crate::COORD_LIMIT <= b0 <= crate::COORD_LIMIT,
        -crate::COORD_LIMIT <= b1 <= crate::COORD_LIMIT,
        a0 < a1,
        b0 < b1,
        -crate::ray::ORIGIN_LIMIT <= oa <= crate::ray::ORIGIN_LIMIT,
        -crate::ray::ORIGIN_LIMIT <= ob <= crate::ray::ORIGIN_LIMIT,
        -crate::ray::DIR_LIMIT <= da <= crate::ray::DIR_LIMIT,
        -crate::ray::DIR_LIMIT <= db <= crate::ray::DIR_LIMIT,
        -T_LIMIT <= tt <= T_LIMIT,
    ensures
        ({
            let uv = rect_uv(
                a0 as int,
                a1 as int,
                b0 as int,
                b1 as int,
                oa as int,
                da as int,
                ob as int,
                db as int,
                tt as int,
            );
            r.0 == uv.0 && r.1 == uv.1
        }),
{
    proof {
        lemma_mul_bound(tt as int, da as int, T_LIMIT as int, crate::ray::DIR_LIMIT as int);
        lemma_mul_bound(tt as int, db as int, T_LIMIT as int, crate::ray::DIR_LIMIT as int);
        lemma_div_bound(
            (oa as int) * (crate::T_SCALE as int) + (tt as int) * (da as int) - (a0 as int) * (
            crate::T_SCALE as int),
            (a1 - a0) as int,
            0x4000_0000_0000_0000,
        );
        lemma_div_bound(
            (ob as int) * (crate::T_SCALE as int) + (tt as int) * (db as int) - (b0 as int) * (
            crate::T_SCALE as int),
            (b1 - b0) as int,
            0x4000_0000_0000_0000,
        );
    }
    let ts = crate::T_SCALE as i128;
    let pa = (oa as i128) * ts + (tt as i128) * (da as i128);
    let pb = (ob as i128) * ts + (tt as i128) * (db as i128);
    let u = div_floor(pa - (a0 as i128) * ts, (a1 - a0) as i128);
    let v = div_floor(pb - (b0 as i128) * ts, (b1 - b0) as i128);
    (u as i64, v as i64)
}

/// Axis-aligned rectangle in the plane `z == k`.
#[derive(Clone, Copy, Debug, PartialEq, Eq, Structural)]
pub struct RectangleXY {
    pub x0: i64,
    pub x1: i64,
    pub y0: i64,
    pub y1: i64,
    pub k: i64,
    pub material: usize,
}

pub open spec fn rectanglexy_box_spec(r: RectangleXY) -> BoundingBox {
    spec_box(
        Vec3d {
            x: (r.x0 - PAD) as i64,
            y: (r.y0 - PAD) as i64,
            z: (r.k - PAD) as i64,
        },
        Vec3d {
            x: (r.x1 + PAD) as i64,
            y: (r.y1 + PAD) as i64,
            z: (r.k + PAD) as i64,
        },
    )
}

pub open spec fn rectanglexy_finish(r: RectangleXY, bx: BoundingBox, ray: Ray, tt: int) -> Option<
    HitRecord,
> {
    if strictly_inside_at(bx.min, bx.max, ray.origin, ray.direction, tt, crate::T_SCALE as int) {
        let p = spec_point_at(ray, tt);
        let uv = rect_uv(
            r.x0 as int,
            r.x1 as int,
            r.y0 as int,
            r.y1 as int,
            ray.origin.x as int,
            ray.direction.x as int,
            ray.origin.y as int,
            ray.direction.y as int,
            tt,
        );
        Some(
            HitRecord {
                point: p,
                normal: (Vec3d { x: 0, y: 0, z: crate::T_SCALE }),
                material: r.material,
                t: tt as i64,
                u: uv.0 as i64,
                v: uv.1 as i64,
                front_face: ray.direction.z < 0,
            },
        )
    } else {
        None
    }
}

pub open spec fn rectanglexy_pick(r: RectangleXY, ray: Ray, tmin: int, tmax: int) -> Option<int> {
    rect_pick(
        r.k as int,
        r.x0 as int,
        r.x1 as int,
        r.y0 as int,
        r.y1 as int,
        ray.origin.z as int,
        ray.direction.z as int,
        ray.origin.x as int,
        ray.direction.x as int,
        ray.origin.y as int,
        ray.direction.y as int,
        tmin,
        tmax,
    )
}

pub open spec fn rectanglexy_hit_spec(r: RectangleXY, ray: Ray, tmin: int, tmax: int) -> Option<
    HitRecord,
> {
    match rectanglexy_pick(r, ray, tmin, tmax) {
        Some(tt) => rectanglexy_finish(r, rectanglexy_box_spec(r), ray, tt),
        None => None,
    }
}

impl RectangleXY {
    pub open spec fn wf(self) -> bool {
        &&& -crate::COORD_LIMIT <= self.x0 < self.x1 <= crate::COORD_LIMIT
        &&& -crate::COORD_LIMIT <= self.y0 < self.y1 <= crate::COORD_LIMIT
        &&& -crate::COORD_LIMIT <= self.k <= crate::COORD_LIMIT
    }

    pub fn new(x0: i64, x1: i64, y0: i64, y1: i64, k: i64, material: usize) -> (r: RectangleXY)
        requires
            -crate::COORD_LIMIT <= x0 < x1 <= crate::COORD_LIMIT,
            -crate::COORD_LIMIT <= y0 < y1 <= crate::COORD_LIMIT,
            -crate::COORD_LIMIT <= k <= crate::COORD_LIMIT,
        ensures
            r == (RectangleXY { x0, x1, y0, y1, k, material }),
            r.wf(),
    {
        RectangleXY { x0, x1, y0, y1, k, material }
    }

    /// The padded box the hierarchy stores for this rectangle.
    pub fn stored_box(&self) -> (r: BoundingBox)
        requires
            self.wf(),
        ensures
            r == rectanglexy_box_spec(*self),
            r.wf(),
            in_range(r.min, (2 * crate::COORD_LIMIT + PAD) as int),
            in_range(r.max, (2 * crate::COORD_LIMIT + PAD) as int),
    {
        let mut min = Vec3d::new(0, 0, 0);
        let mut max = Vec3d::new(0, 0, 0);
        min.x = self.x0 - PAD;
        min.y = self.y0 - PAD;
        min.z = self.k - PAD;
        max.x = self.x1 + PAD;
        max.y = self.y1 + PAD;
        max.z = self.k + PAD;
        BoundingBox::new(min, max)
    }

    pub fn hit(&self, ray: &Ray, t_min: i64, t_max: i64) -> (res: Option<HitRecord>)
        requires
            self.wf(),
            ray.wf(),
            -T_LIMIT <= t_min <= T_LIMIT,
            -T_LIMIT <= t_max <= T_LIMIT,
        ensures
            res == rectanglexy_hit_spec(*self, *ray, t_min as int, t_max as int),
    {
        let tt_opt = plane_t_e(self.k, ray.origin.z, ray.direction.z);
        let tt = match tt_opt {
            None => {
                return None;
            },
            Some(t) => t,
        };
        proof {
            lemma_mul_bound(
                (self.k - ray.origin.z) as int,
                crate::T_SCALE as int,
                0x400_0000,
                crate::T_SCALE as int,
            );
            lemma_mul_bound(
                (ray.origin.z - self.k) as int,
                crate::T_SCALE as int,
                0x400_0000,
                crate::T_SCALE as int,
            );
            if ray.direction.z > 0 {
                lemma_div_bound(
                    ((self.k - ray.origin.z) as int) * (crate::T_SCALE as int),
                    ray.direction.z as int,
                    0x4000_0000_0000,
                );
            }
            if ray.direction.z < 0 {
                lemma_div_bound(
                    ((ray.origin.z - self.k) as int) * (crate::T_SCALE as int),
                    -(ray.direction.z as int),
                    0x4000_0000_0000,
                );
            }
        }
        if !rect_gate(
            self.x0,
            self.x1,
            self.y0,
            self.y1,
            ray.origin.x,
            ray.direction.x,
            ray.origin.y,
            ray.direction.y,
            tt,
            t_min,
            t_max,
        ) {
            return None;
        }
        let bx = self.stored_box();
        let ti = tt as i64;
        let p = ray.at(ti);
        if !inside_box_check(&bx, p, ray, ti) {
            return None;
        }
        let uv = rect_uv_e(
            self.x0,
            self.x1,
            self.y0,
            self.y1,
            ray.origin.x,
            ray.direction.x,
            ray.origin.y,
            ray.direction.y,
            ti,
        );
        Some(
            HitRecord {
                point: p,
                normal: (Vec3d { x: 0, y: 0, z: crate::T_SCALE }),
                material: self.material,
                t: ti,
                u: uv.0,
                v: uv.1,
                front_face: ray.direction.z < 0,
            },
        )
    }
}

/// Axis-aligned rectangle in the plane `y == k`.
#[derive(Clone, Copy, Debug, PartialEq, Eq, Structural)]
pub struct RectangleXZ {
    pub x0: i64,
    pub x1: i64,
    pub z0: i64,
    pub z1: i64,
    pub k: i64,
    pub material: usize,
}

pub open spec fn rectanglexz_box_spec(r: RectangleXZ) -> BoundingBox {
    spec_box(
        Vec3d {
            x: (r.x0 - PAD) as i64,
            z: (r.z0 - PAD) as i64,
            y: (r.k - PAD) as i64,
        },
        Vec3d {
            x: (r.x1 + PAD) as i64,
            z: (r.z1 + PAD) as i64,
            y: (r.k + PAD) as i64,
        },
    )
}

pub open spec fn rectanglexz_finish(r: RectangleXZ, bx: BoundingBox, ray: Ray, tt: int) -> Option<
    HitRecord,
> {
    if strictly_inside_at(bx.min, bx.max, ray.origin, ray.direction, tt, crate::T_SCALE as int) {
        let p = spec_point_at(ray, tt);
        let uv = rect_uv(
            r.x0 as int,
            r.x1 as int,
            r.z0 as int,
            r.z1 as int,
            ray.origin.x as int,
            ray.direction.x as int,
            ray.origin.z as int,
            ray.direction.z as int,
            tt,
        );
        Some(
            HitRecord {
                point: p,
                normal: (Vec3d { x: 0, y: crate::T_SCALE, z: 0 }),
                material: r.material,
                t: tt as i64,
                u: uv.0 as i64,
                v: uv.1 as i64,
                front_face: ray.direction.y < 0,
            },
        )
    } else {
        None
    }
}

pub open spec fn rectanglexz_pick(r: RectangleXZ, ray: Ray, tmin: int, tmax: int) -> Option<int> {
    rect_pick(
        r.k as int,
        r.x0 as int,
        r.x1 as int,
        r.z0 as int,
        r.z1 as int,
        ray.origin.y as int,
        ray.direction.y as int,
        ray.origin.x as int,
        ray.direction.x as int,
        ray.origin.z as int,
        ray.direction.z as int,
        tmin,
        tmax,
    )
}

pub open spec fn rectanglexz_hit_spec(r: RectangleXZ, ray: Ray, tmin: int, tmax: int) -> Option<
    HitRecord,
> {
    match rectanglexz_pick(r, ray, tmin, tmax) {
        Some(tt) => rectanglexz_finish(r, rectanglexz_box_spec(r), ray, tt),
        None => None,
    }
}

impl RectangleXZ {
    pub open spec fn wf(self) -> bool {
        &&& -crate::COORD_LIMIT <= self.x0 < self.x1 <= crate::COORD_LIMIT
        &&& -crate::COORD_LIMIT <= self.z0 < self.z1 <= crate::COORD_LIMIT
        &&& -crate::COORD_LIMIT <= self.k <= crate::COORD_LIMIT
    }

    pub fn new(x0: i64, x1: i64, z0: i64, z1: i64, k: i64, material: usize) -> (r: RectangleXZ)
        requires
            -crate::COORD_LIMIT <= x0 < x1 <= crate::COORD_LIMIT,
            -crate::COORD_LIMIT <= z0 < z1 <= crate::COORD_LIMIT,
            -crate::COORD_LIMIT <= k <= crate::COORD_LIMIT,
        ensures
            r == (RectangleXZ { x0, x1, z0, z1, k, material }),
            r.wf(),
    {
        RectangleXZ { x0, x1, z0, z1, k, material }
    }

    /// The padded box the hierarchy stores for this rectangle.
    pub fn stored_box(&self) -> (r: BoundingBox)
        requires
            self.wf(),
        ensures
            r == rectanglexz_box_spec(*self),
            r.wf(),
            in_range(r.min, (2 * crate::COORD_LIMIT + PAD) as int),
            in_range(r.max, (2 * crate::COORD_LIMIT + PAD) as int),
    {
        let mut min = Vec3d::new(0, 0, 0);
        let mut max = Vec3d::new(0, 0, 0);
        min.x = self.x0 - PAD;
        min.z = self.z0 - PAD;
        min.y = self.k - PAD;
        max.x = self.x1 + PAD;
        max.z = self.z1 + PAD;
        max.y = self.k + PAD;
        BoundingBox::new(min, max)
    }

    pub fn hit(&self, ray: &Ray, t_min: i64, t_max: i64) -> (res: Option<HitRecord>)
        requires
            self.wf(),
            ray.wf(),
            -T_LIMIT <= t_min <= T_LIMIT,
            -T_LIMIT <= t_max <= T_LIMIT,
        ensures
            res == rectanglexz_hit_spec(*self, *ray, t_min as int, t_max as int),
    {
        let tt_opt = plane_t_e(self.k, ray.origin.y, ray.direction.y);
        let tt = match tt_opt {
            None => {
                return None;
            },
            Some(t) => t,
        };
        proof {
            lemma_mul_bound(
                (self.k - ray.origin.y) as int,
                crate::T_SCALE as int,
                0x400_0000,
                crate::T_SCALE as int,
            );
            lemma_mul_bound(
                (ray.origin.y - self.k) as int,
                crate::T_SCALE as int,
                0x400_0000,
                crate::T_SCALE as int,
            );
            if ray.direction.y > 0 {
                lemma_div_bound(
                    ((self.k - ray.origin.y) as int) * (crate::T_SCALE as int),
                    ray.direction.y as int,
                    0x4000_0000_0000,
                );
            }
            if ray.direction.y < 0 {
                lemma_div_bound(
                    ((ray.origin.y - self.k) as int) * (crate::T_SCALE as int),
                    -(ray.direction.y as int),
                    0x4000_0000_0000,
                );
            }
        }
        if !rect_gate(
            self.x0,
            self.x1,
            self.z0,
            self.z1,
            ray.origin.x,
            ray.direction.x,
            ray.origin.z,
            ray.direction.z,
            tt,
            t_min,
            t_max,
        ) {
            return None;
        }
        let bx = self.stored_box();
        let ti = tt as i64;
        let p = ray.at(ti);
        if !inside_box_check(&bx, p, ray, ti) {
            return None;
        }
        let uv = rect_uv_e(
            self.x0,
            self.x1,
            self.z0,
            self.z1,
            ray.origin.x,
            ray.direction.x,
            ray.origin.z,
            ray.direction.z,
            ti,
        );
        Some(
            HitRecord {
                point: p,
                normal: (Vec3d { x: 0, y: crate::T_SCALE, z: 0 }),
                material: self.material,
                t: ti,
                u: uv.0,
                v: uv.1,
                front_face: ray.direction.y < 0,
            },
        )
    }
}

/// Axis-aligned rectangle in the plane `x == k`.
#[derive(Clone, Copy, Debug, PartialEq, Eq, Structural)]
pub struct RectangleYZ {
    pub y0: i64,
    pub y1: i64,
    pub z0: i64,
    pub z1: i64,
    pub k: i64,
    pub material: usize,
}

pub open spec fn rectangleyz_box_spec(r: RectangleYZ) -> BoundingBox {
    spec_box(
        Vec3d {
            y: (r.y0 - PAD) as i64,
            z: (r.z0 - PAD) as i64,
            x: (r.k - PAD) as i64,
        },
        Vec3d {
            y: (r.y1 + PAD) as i64,
            z: (r.z1 + PAD) as i64,
            x: (r.k + PAD) as i64,
        },
    )
}

pub open spec fn rectangleyz_finish(r: RectangleYZ, bx: BoundingBox, ray: Ray, tt: int) -> Option<
    HitRecord,
> {
    if strictly_inside_at(bx.min, bx.max, ray.origin, ray.direction, tt, crate::T_SCALE as int) {
        let p = spec_point_at(ray, tt);
        let uv = rect_uv(
            r.y0 as int,
            r.y1 as int,
            r.z0 as int,
            r.z1 as int,
            ray.origin.y as int,
            ray.direction.y as int,
            ray.origin.z as int,
            ray.direction.z as int,
            tt,
        );
        Some(
            HitRecord {
                point: p,
                normal: (Vec3d { x: crate::T_SCALE, y: 0, z: 0 }),
                material: r.material,
                t: tt as i64,
                u: uv.0 as i64,
                v: uv.1 as i64,
                front_face: ray.direction.x < 0,
            },
        )
    } else {
        None
    }
}

pub open spec fn rectangleyz_pick(r: RectangleYZ, ray: Ray, tmin: int, tmax: int) -> Option<int> {
    rect_pick(
        r.k as int,
        r.y0 as int,
        r.y1 as int,
        r.z0 as int,
        r.z1 as int,
        ray.origin.x as int,
        ray.direction.x as int,
        ray.origin.y as int,
        ray.direction.y as int,
        ray.origin.z as int,
        ray.direction.z as int,
        tmin,
        tmax,
    )
}

pub open spec fn rectangleyz_hit_spec(r: RectangleYZ, ray: Ray, tmin: int, tmax: int) -> Option<
    HitRecord,
> {
    match rectangleyz_pick(r, ray, tmin, tmax) {
        Some(tt) => rectangleyz_finish(r, rectangleyz_box_spec(r), ray, tt),
        None => None,
    }
}

impl RectangleYZ {
    pub open spec fn wf(self) -> bool {
        &&& -crate::COORD_LIMIT <= self.y0 < self.y1 <= crate::COORD_LIMIT
        &&& -crate::COORD_LIMIT <= self.z0 < self.z1 <= crate::COORD_LIMIT
        &&& -crate::COORD_LIMIT <= self.k <= crate::COORD_LIMIT
    }

    pub fn new(y0: i64, y1: i64, z0: i64, z1: i64, k: i64, material: usize) -> (r: RectangleYZ)
        requires
            -crate::COORD_LIMIT <= y0 < y1 <= crate::COORD_LIMIT,
            -crate::COORD_LIMIT <= z0 < z1 <= crate::COORD_LIMIT,
            -crate::COORD_LIMIT <= k <= crate::COORD_LIMIT,
        ensures
            r == (RectangleYZ { y0, y1, z0, z1, k, material }),
            r.wf(),
    {
        RectangleYZ { y0, y1, z0, z1, k, material }
    }

    /// The padded box the hierarchy stores for this rectangle.
    pub fn stored_box(&self) -> (r: BoundingBox)
        requires
            self.wf(),
        ensures
            r == rectangleyz_box_spec(*self),
            r.wf(),
            in_range(r.min, (2 * crate::COORD_LIMIT + PAD) as int),
            in_range(r.max, (2 * crate::COORD_LIMIT + PAD) as int),
    {
        let mut min = Vec3d::new(0, 0, 0);
        let mut max = Vec3d::new(0, 0, 0);
        min.y = self.y0 - PAD;
        min.z = self.z0 - PAD;
        min.x = self.k - PAD;
        max.y = self.y1 + PAD;
        max.z = self.z1 + PAD;
        max.x = self.k + PAD;
        BoundingBox::new(min, max)
    }

    pub fn hit(&self, ray: &Ray, t_min: i64, t_max: i64) -> (res: Option<HitRecord>)
        requires
            self.wf(),
            ray.wf(),
            -T_LIMIT <= t_min <= T_LIMIT,
            -T_LIMIT <= t_max <= T_LIMIT,
        ensures
            res == rectangleyz_hit_spec(*self, *ray, t_min as int, t_max as int),
    {
        let tt_opt = plane_t_e(self.k, ray.origin.x, ray.direction.x);
        let tt = match tt_opt {
            None => {
                return None;
            },
            Some(t) => t,
        };
        proof {
            lemma_mul_bound(
                (self.k - ray.origin.x) as int,
                crate::T_SCALE as int,
                0x400_0000,
                crate::T_SCALE as int,
            );
            lemma_mul_bound(
                (ray.origin.x - self.k) as int,
                crate::T_SCALE as int,
                0x400_0000,
                crate::T_SCALE as int,
            );
            if ray.direction.x > 0 {
                lemma_div_bound(
                    ((self.k - ray.origin.x) as int) * (crate::T_SCALE as int),
                    ray.direction.x as int,
                    0x4000_0000_0000,
                );
            }
            if ray.direction.x < 0 {
                lemma_div_bound(
                    ((ray.origin.x - self.k) as int) * (crate::T_SCALE as int),
                    -(ray.direction.x as int),
                    0x4000_0000_0000,
                );
            }
        }
        if !rect_gate(
            self.y0,
            self.y1,
            self.z0,
            self.z1,
            ray.origin.y,
            ray.direction.y,
            ray.origin.z,
            ray.direction.z,
            tt,
            t_min,
            t_max,
        ) {
            return None;
        }
        let bx = self.stored_box();
        let ti = tt as i64;
        let p = ray.at(ti);
        if !inside_box_check(&bx, p, ray, ti) {
            return None;
        }
        let uv = rect_uv_e(
            self.y0,
            self.y1,
            self.z0,
            self.z1,
            ray.origin.y,
            ray.direction.y,
            ray.origin.z,
            ray.direction.z,
            ti,
        );
        Some(
            HitRecord {
                point: p,
                normal: (Vec3d { x: crate::T_SCALE, y: 0, z: 0 }),
                material: self.material,
                t: ti,
                u: uv.0,
                v: uv.1,
                front_face: ray.direction.x < 0,
            },
        )
    }
}

// ---------------------------------------------------------------------------
// Moving sphere
// ---------------------------------------------------------------------------

/// A sphere whose center moves linearly from `center0` at `time0` to
/// `center1` at `time1`; a ray intersects it at the center interpolated for
/// the ray's own time.
#[derive(Clone, Copy, Debug, PartialEq, Eq, Structural)]
pub struct MovingSphere {
    pub center0: Vec3d,
    pub center1: Vec3d,
    pub time0: i64,
    pub time1: i64,
    pub radius: i64,
    pub material: usize,
}

/// The interpolated center at `time`, rounded down componentwise.
pub open spec fn ms_center(ms: MovingSphere, time: int) -> (int, int, int) {
    let dt = ms.time1 - ms.time0;
    (
        ms.center0.x + (time - ms.time0) * (ms.center1.x - ms.center0.x) / dt,
        ms.center0.y + (time - ms.time0) * (ms.center1.y - ms.center0.y) / dt,
        ms.center0.z + (time - ms.time0) * (ms.center1.z - ms.center0.z) / dt,
    )
}

/// For ray times far outside the motion interval the extrapolated center
/// leaves the coordinate range; such a sphere is entirely outside its own
/// stored box and reports no hit.
pub open spec fn ms_center_in_range(c: (int, int, int)) -> bool {
    &&& -0x40_0000 <= c.0 <= 0x40_0000
    &&& -0x40_0000 <= c.1 <= 0x40_0000
    &&& -0x40_0000 <= c.2 <= 0x40_0000
}

/// The moving sphere's stored box: the union of the endpoint boxes, padded.
pub open spec fn ms_box_spec(ms: MovingSphere) -> BoundingBox {
    spec_surrounding_box(
        sphere_box_spec(ms.center0, ms.radius),
        sphere_box_spec(ms.center1, ms.radius),
    )
}

pub open spec fn ms_pick(ms: MovingSphere, ray: Ray, tmin: int, tmax: int) -> Option<int> {
    let c = ms_center(ms, ray.time as int);
    if !ms_center_in_range(c) {
        None
    } else {
        sphere_pick(
            Vec3d { x: c.0 as i64, y: c.1 as i64, z: c.2 as i64 },
            ms.radius,
            ray,
            tmin,
            tmax,
        )
    }
}

pub open spec fn ms_finish(ms: MovingSphere, ray: Ray, tt: int) -> Option<HitRecord> {
    let c = ms_center(ms, ray.time as int);
    sphere_finish(
        Vec3d { x: c.0 as i64, y: c.1 as i64, z: c.2 as i64 },
        ms.radius,
        ms_box_spec(ms),
        ms.material,
        ray,
        tt,
    )
}

pub open spec fn ms_hit_spec(ms: MovingSphere, ray: Ray, tmin: int, tmax: int) -> Option<
    HitRecord,
> {
    match ms_pick(ms, ray, tmin, tmax) {
        Some(tt) => ms_finish(ms, ray, tt),
        None => None,
    }
}

impl MovingSphere {
    pub open spec fn wf(self) -> bool {
        &&& in_range(self.center0, crate::COORD_LIMIT as int)
        &&& in_range(self.center1, crate::COORD_LIMIT as int)
        &&& 0 < self.radius <= crate::COORD_LIMIT
        &&& -T_LIMIT <= self.time0 < self.time1 <= T_LIMIT
    }

    pub fn new(
        center0: Vec3d,
        center1: Vec3d,
        time0: i64,
        time1: i64,
        radius: i64,
        material: usize,
    ) -> (r: MovingSphere)
        requires
            in_range(center0, crate::COORD_LIMIT as int),
            in_range(center1, crate::COORD_LIMIT as int),
            0 < radius <= crate::COORD_LIMIT,
            -T_LIMIT <= time0 < time1 <= T_LIMIT,
        ensures
            r == (MovingSphere { center0, center1, time0, time1, radius, material }),
            r.wf(),
    {
        MovingSphere { center0, center1, time0, time1, radius, material }
    }

    /// The interpolated center at `time`, componentwise; nothing when the
    /// extrapolated center leaves the coordinate range the intersection
    /// arithmetic is proved for.
    pub fn center(&self, time: i64) -> (r: Option<Vec3d>)
        requires
            self.wf(),
            -T_LIMIT <= time <= T_LIMIT,
        ensures
            ({
                let c = ms_center(*self, time as int);
                match r {
                    Some(v) => ms_center_in_range(c) && v.x == c.0 && v.y == c.1 && v.z == c.2,
                    None => !ms_center_in_range(c),
                }
            }),
    {
        let dt = self.time1 - self.time0;
        let ft = (time - self.time0) as i128;
        proof {
            lemma_mul_bound(
                ft as int,
                (self.center1.x - self.center0.x) as int,
                0x200_0000_0000,
                0x20_0000,
            );
            lemma_mul_bound(
                ft as int,
                (self.center1.y - self.center0.y) as int,
                0x200_0000_0000,
                0x20_0000,
            );
            lemma_mul_bound(
                ft as int,
                (self.center1.z - self.center0.z) as int,
                0x200_0000_0000,
                0x20_0000,
            );
            lemma_div_bound(
                (ft as int) * ((self.center1.x - self.center0.x) as int),
                dt as int,
                0x4000_0000_0000_0000,
            );
            lemma_div_bound(
                (ft as int) * ((self.center1.y - self.center0.y) as int),
                dt as int,
                0x4000_0000_0000_0000,
            );
            lemma_div_bound(
                (ft as int) * ((self.center1.z - self.center0.z) as int),
                dt as int,
                0x4000_0000_0000_0000,
            );
        }
        let cx = (self.center0.x as i128) + div_floor(
            ft * ((self.center1.x - self.center0.x) as i128),
            dt as i128,
        );
        let cy = (self.center0.y as i128) + div_floor(
            ft * ((self.center1.y - self.center0.y) as i128),
            dt as i128,
        );
        let cz = (self.center0.z as i128) + div_floor(
            ft * ((self.center1.z - self.center0.z) as i128),
            dt as i128,
        );
        let lim = 0x40_0000i128;
        if cx < -lim || cx > lim || cy < -lim || cy > lim || cz < -lim || cz > lim {
            return None;
        }
        Some(Vec3d::new(cx as i64, cy as i64, cz as i64))
    }

    /// The padded box the hierarchy stores: it covers the sphere's whole
    /// motion.
    pub fn stored_box(&self) -> (r: BoundingBox)
        requires
            self.wf(),
        ensures
            r == ms_box_spec(*self),
            r.wf(),
            in_range(r.min, (2 * crate::COORD_LIMIT + PAD) as int),
            in_range(r.max, (2 * crate::COORD_LIMIT + PAD) as int),
    {
        let rp = self.radius + PAD;
        let b0 = BoundingBox::new(
            Vec3d::new(self.center0.x - rp, self.center0.y - rp, self.center0.z - rp),
            Vec3d::new(self.center0.x + rp, self.center0.y + rp, self.center0.z + rp),
        );
        let b1 = BoundingBox::new(
            Vec3d::new(self.center1.x - rp, self.center1.y - rp, self.center1.z - rp),
            Vec3d::new(self.center1.x + rp, self.center1.y + rp, self.center1.z + rp),
        );
        crate::aabb::surrounding_box(b0, b1)
    }

    pub fn hit(&self, ray: &Ray, t_min: i64, t_max: i64) -> (res: Option<HitRecord>)
        requires
            self.wf(),
            ray.wf(),
            -T_LIMIT <= t_min <= T_LIMIT,
            -T_LIMIT <= t_max <= T_LIMIT,
        ensures
            res == ms_hit_spec(*self, *ray, t_min as int, t_max as int),
    {
        let c = match self.center(ray.time) {
            None => {
                return None;
            },
            Some(c) => c,
        };
        let bx = self.stored_box();
        sphere_core(c, self.radius, &bx, self.material, ray, t_min, t_max)
    }
}

// ---------------------------------------------------------------------------
// Shapes and primitives
// ---------------------------------------------------------------------------

/// The closed set of basic geometric shapes a ray can hit.
#[derive(Clone, Copy, Debug, PartialEq, Eq, Structural)]
pub enum Shape {
    Sphere(Sphere),
    MovingSphere(MovingSphere),
    Triangle(Triangle),
    RectangleXY(RectangleXY),
    RectangleXZ(RectangleXZ),
    RectangleYZ(RectangleYZ),
}

pub open spec fn shape_wf(s: Shape) -> bool {
    match s {
        Shape::Sphere(x) => x.wf(),
        Shape::MovingSphere(x) => x.wf(),
        Shape::Triangle(x) => x.wf(),
        Shape::RectangleXY(x) => x.wf(),
        Shape::RectangleXZ(x) => x.wf(),
        Shape::RectangleYZ(x) => x.wf(),
    }
}

pub open spec fn shape_box(s: Shape) -> BoundingBox {
    match s {
        Shape::Sphere(x) => sphere_box_spec(x.center, x.radius),
        Shape::MovingSphere(x) => ms_box_spec(x),
        Shape::Triangle(x) => triangle_box_spec(x),
        Shape::RectangleXY(x) => rectanglexy_box_spec(x),
        Shape::RectangleXZ(x) => rectanglexz_box_spec(x),
        Shape::RectangleYZ(x) => rectangleyz_box_spec(x),
    }
}

pub open spec fn shape_mat(s: Shape) -> usize {
    match s {
        Shape::Sphere(x) => x.material,
        Shape::MovingSphere(x) => x.material,
        Shape::Triangle(x) => x.material,
        Shape::RectangleXY(x) => x.material,
        Shape::RectangleXZ(x) => x.material,
        Shape::RectangleYZ(x) => x.material,
    }
}

pub open spec fn shape_hit_spec(s: Shape, ray: Ray, tmin: int, tmax: int) -> Option<HitRecord> {
    match s {
        Shape::Sphere(x) => x.hit_spec(ray, tmin, tmax),
        Shape::MovingSphere(x) => ms_hit_spec(x, ray, tmin, tmax),
        Shape::Triangle(x) => triangle_hit_spec(x, ray, tmin, tmax),
        Shape::RectangleXY(x) => rectanglexy_hit_spec(x, ray, tmin, tmax),
        Shape::RectangleXZ(x) => rectanglexz_hit_spec(x, ray, tmin, tmax),
        Shape::RectangleYZ(x) => rectangleyz_hit_spec(x, ray, tmin, tmax),
    }
}

impl Shape {
    /// The padded box the hierarchy stores for this shape.
    pub fn stored_box(&self) -> (r: BoundingBox)
        requires
            shape_wf(*self),
        ensures
            r == shape_box(*self),
            r.wf(),
            in_range(r.min, (2 * crate::COORD_LIMIT + PAD) as int),
            in_range(r.max, (2 * crate::COORD_LIMIT + PAD) as int),
    {
        match self {
            Shape::Sphere(x) => x.stored_box(),
            Shape::MovingSphere(x) => x.stored_box(),
            Shape::Triangle(x) => x.stored_box(),
            Shape::RectangleXY(x) => x.stored_box(),
            Shape::RectangleXZ(x) => x.stored_box(),
            Shape::RectangleYZ(x) => x.stored_box(),
        }
    }

    pub fn hit(&self, ray: &Ray, t_min: i64, t_max: i64) -> (res: Option<HitRecord>)
        requires
            shape_wf(*self),
            ray.wf(),
            -T_LIMIT <= t_min <= T_LIMIT,
            -T_LIMIT <= t_max <= T_LIMIT,
        ensures
            res == shape_hit_spec(*self, *ray, t_min as int, t_max as int),
    {
        match self {
            Shape::Sphere(x) => x.hit(ray, t_min, t_max),
            Shape::MovingSphere(x) => x.hit(ray, t_min, t_max),
            Shape::Triangle(x) => x.hit(ray, t_min, t_max),
            Shape::RectangleXY(x) => x.hit(ray, t_min, t_max),
            Shape::RectangleXZ(x) => x.hit(ray, t_min, t_max),
            Shape::RectangleYZ(x) => x.hit(ray, t_min, t_max),
        }
    }
}

/// Moves a shape by an offset without rewriting its coordinates: rays are
/// shifted into the shape's own frame, and the hit point is shifted back.
#[derive(Clone, Copy, Debug, PartialEq, Eq, Structural)]
pub struct Translate {
    pub offset: Vec3d,
    pub object: Shape,
}

/// The ray as seen from the translated shape's own frame.
pub open spec fn shifted_ray(ray: Ray, offset: Vec3d) -> Ray {
    Ray {
        origin: Vec3d {
            x: (ray.origin.x - offset.x) as i64,
            y: (ray.origin.y - offset.y) as i64,
            z: (ray.origin.z - offset.z) as i64,
        },
        direction: ray.direction,
        time: ray.time,
    }
}

pub open spec fn translate_box_spec(t: Translate) -> BoundingBox {
    spec_box(
        Vec3d {
            x: (shape_box(t.object).min.x + t.offset.x) as i64,
            y: (shape_box(t.object).min.y + t.offset.y) as i64,
            z: (shape_box(t.object).min.z + t.offset.z) as i64,
        },
        Vec3d {
            x: (shape_box(t.object).max.x + t.offset.x) as i64,
            y: (shape_box(t.object).max.y + t.offset.y) as i64,
            z: (shape_box(t.object).max.z + t.offset.z) as i64,
        },
    )
}

pub open spec fn translate_hit_spec(t: Translate, ray: Ray, tmin: int, tmax: int) -> Option<
    HitRecord,
> {
    match shape_hit_spec(t.object, shifted_ray(ray, t.offset), tmin, tmax) {
        Some(rec) => Some(
            HitRecord {
                point: Vec3d {
                    x: (rec.point.x + t.offset.x * (crate::T_SCALE as int)) as i64,
                    y: (rec.point.y + t.offset.y * (crate::T_SCALE as int)) as i64,
                    z: (rec.point.z + t.offset.z * (crate::T_SCALE as int)) as i64,
                },
                ..rec
            },
        ),
        None => None,
    }
}

impl Translate {
    pub open spec fn wf(self) -> bool {
        &&& in_range(self.offset, crate::COORD_LIMIT as int)
        &&& shape_wf(self.object)
    }

    pub fn new(offset: Vec3d, object: Shape) -> (r: Translate)
        requires
            in_range(offset, crate::COORD_LIMIT as int),
            shape_wf(object),
        ensures
            r == (Translate { offset, object }),
            r.wf(),
    {
        Translate { offset, object }
    }
}

/// A piece of scene geometry: a basic shape, in place or behind an instance
/// transform that moves, turns or stretches it.
#[derive(Clone, Copy, Debug, PartialEq, Eq, Structural)]
pub enum Primitive {
    Shape(Shape),
    Translate(Translate),
    RotateX(RotateX),
    RotateY(RotateY),
    RotateZ(RotateZ),
    Scale(Scale),
}

pub open spec fn prim_wf(p: Primitive) -> bool {
    match p {
        Primitive::Shape(s) => shape_wf(s),
        Primitive::Translate(t) => t.wf(),
        Primitive::RotateX(r) => r.wf(),
        Primitive::RotateY(r) => r.wf(),
        Primitive::RotateZ(r) => r.wf(),
        Primitive::Scale(sc) => sc.wf(),
    }
}

pub open spec fn prim_box(p: Primitive) -> BoundingBox {
    match p {
        Primitive::Shape(s) => shape_box(s),
        Primitive::Translate(t) => translate_box_spec(t),
        Primitive::RotateX(r) => rotatex_box_spec(r),
        Primitive::RotateY(r) => rotatey_box_spec(r),
        Primitive::RotateZ(r) => rotatez_box_spec(r),
        Primitive::Scale(sc) => scale_box_spec(sc),
    }
}

pub open spec fn prim_mat(p: Primitive) -> usize {
    match p {
        Primitive::Shape(s) => shape_mat(s),
        Primitive::Translate(t) => shape_mat(t.object),
        Primitive::RotateX(r) => shape_mat(r.object),
        Primitive::RotateY(r) => shape_mat(r.object),
        Primitive::RotateZ(r) => shape_mat(r.object),
        Primitive::Scale(sc) => shape_mat(sc.object),
    }
}

/// What a primitive reports for a ray over the open window `(tmin, tmax)`.
pub open spec fn prim_hit(p: Primitive, ray: Ray, tmin: int, tmax: int) -> Option<HitRecord> {
    match p {
        Primitive::Shape(s) => shape_hit_spec(s, ray, tmin, tmax),
        Primitive::Translate(t) => translate_hit_spec(t, ray, tmin, tmax),
        Primitive::RotateX(r) => rotatex_hit_spec(r, ray, tmin, tmax),
        Primitive::RotateY(r) => rotatey_hit_spec(r, ray, tmin, tmax),
        Primitive::RotateZ(r) => rotatez_hit_spec(r, ray, tmin, tmax),
        Primitive::Scale(sc) => scale_hit_spec(sc, ray, tmin, tmax),
    }
}

impl Primitive {
    /// The padded box the hierarchy stores for this primitive; the query
    /// times do not change it, because a moving sphere's stored box covers
    /// its whole motion.
    pub fn stored_box(&self) -> (r: BoundingBox)
        requires
            prim_wf(*self),
        ensures
            r == prim_box(*self),
            r.wf(),
    {
        match self {
            Primitive::Shape(s) => s.stored_box(),
            Primitive::Translate(t) => {
                let inner = t.object.stored_box();
                BoundingBox::new(
                    Vec3d::new(
                        inner.min.x + t.offset.x,
                        inner.min.y + t.offset.y,
                        inner.min.z + t.offset.z,
                    ),
                    Vec3d::new(
                        inner.max.x + t.offset.x,
                        inner.max.y + t.offset.y,
                        inner.max.z + t.offset.z,
                    ),
                )
            },
            Primitive::RotateX(r) => r.stored_box(),
            Primitive::RotateY(r) => r.stored_box(),
            Primitive::RotateZ(r) => r.stored_box(),
            Primitive::Scale(sc) => sc.stored_box(),
        }
    }

    pub fn hit(&self, ray: &Ray, t_min: i64, t_max: i64) -> (res: Option<HitRecord>)
        requires
            prim_wf(*self),
            crate::ray::scene_ray_ok(*ray),
            -T_LIMIT <= t_min <= T_LIMIT,
            -T_LIMIT <= t_max <= T_LIMIT,
        ensures
            res == prim_hit(*self, *ray, t_min as int, t_max as int),
    {
        match self {
            Primitive::Shape(s) => s.hit(ray, t_min, t_max),
            Primitive::Translate(t) => {
                let inner_ray = Ray::new(
                    ray.origin.sub(t.offset),
                    ray.direction,
                    ray.time,
                );
                match t.object.hit(&inner_ray, t_min, t_max) {
                    Some(rec) => {
                        proof {
                            lemma_shape_hit_in_box(
                                t.object,
                                inner_ray,
                                t_min as int,
                                t_max as int,
                            );
                            lemma_shape_box_bounds(t.object);
                        }
                        let ts = crate::T_SCALE;
                        Some(
                            HitRecord {
                                point: Vec3d::new(
                                    rec.point.x + t.offset.x * ts,
                                    rec.point.y + t.offset.y * ts,
                                    rec.point.z + t.offset.z * ts,
                                ),
                                ..rec
                            },
                        )
                    },
                    None => None,
                }
            },
            Primitive::RotateX(r) => r.hit(ray, t_min, t_max),
            Primitive::RotateY(r) => r.hit(ray, t_min, t_max),
            Primitive::RotateZ(r) => r.hit(ray, t_min, t_max),
            Primitive::Scale(sc) => sc.hit(ray, t_min, t_max),
        }
    }
}

/// The stored box of a well-formed shape has bounded coordinates.
pub proof fn lemma_shape_box_bounds(s: Shape)
    requires
        shape_wf(s),
    ensures
        in_range(shape_box(s).min, (2 * crate::COORD_LIMIT + PAD) as int),
        in_range(shape_box(s).max, (2 * crate::COORD_LIMIT + PAD) as int),
        shape_box(s).min.x <= shape_box(s).max.x,
        shape_box(s).min.y <= shape_box(s).max.y,
        shape_box(s).min.z <= shape_box(s).max.z,
{
}

/// Hits of the shared sphere intersection lie strictly inside the window and
/// the stored box.
proof fn lemma_sphere_core_in_box(
    center: Vec3d,
    radius: i64,
    bx: BoundingBox,
    mat: usize,
    ray: Ray,
    tmin: int,
    tmax: int,
)
    requires
        -T_LIMIT <= tmin <= T_LIMIT,
        -T_LIMIT <= tmax <= T_LIMIT,
    ensures
        sphere_core_hit(center, radius, bx, mat, ray, tmin, tmax) matches Some(rec) ==> {
            &&& tmin < rec.t < tmax
            &&& strictly_inside_at(
                bx.min,
                bx.max,
                ray.origin,
                ray.direction,
                rec.t as int,
                crate::T_SCALE as int,
            )
            &&& rec.point == spec_point_at(ray, rec.t as int)
            &&& rec.material == mat
        },
{
}

/// A shape's hit lies strictly inside the shape's stored box, at a parameter
/// strictly inside the query window, and carries the shape's material.
pub proof fn lemma_shape_hit_in_box(s: Shape, ray: Ray, tmin: int, tmax: int)
    requires
        -T_LIMIT <= tmin <= T_LIMIT,
        -T_LIMIT <= tmax <= T_LIMIT,
    ensures
        shape_hit_spec(s, ray, tmin, tmax) matches Some(rec) ==> {
            &&& tmin < rec.t < tmax
            &&& strictly_inside_at(
                shape_box(s).min,
                shape_box(s).max,
                ray.origin,
                ray.direction,
                rec.t as int,
                crate::T_SCALE as int,
            )
            &&& rec.point == spec_point_at(ray, rec.t as int)
            &&& rec.material == shape_mat(s)
        },
{
    match s {
        Shape::Sphere(x) => {
            lemma_sphere_core_in_box(
                x.center,
                x.radius,
                sphere_box_spec(x.center, x.radius),
                x.material,
                ray,
                tmin,
                tmax,
            );
        },
        Shape::MovingSphere(x) => {
            let c = ms_center(x, ray.time as int);
            if ms_center_in_range(c) {
                let cv = Vec3d { x: c.0 as i64, y: c.1 as i64, z: c.2 as i64 };
                lemma_sphere_core_in_box(
                    cv,
                    x.radius,
                    ms_box_spec(x),
                    x.material,
                    ray,
                    tmin,
                    tmax,
                );
                assert(ms_hit_spec(x, ray, tmin, tmax) == sphere_core_hit(
                    cv,
                    x.radius,
                    ms_box_spec(x),
                    x.material,
                    ray,
                    tmin,
                    tmax,
                ));
            }
        },
        Shape::Triangle(x) => {
        },
        Shape::RectangleXY(x) => {
        },
        Shape::RectangleXZ(x) => {
        },
        Shape::RectangleYZ(x) => {
        },
    }
}

/// Restricting the upper end of the window keeps a hit that still fits and
/// drops every other, for the shared sphere intersection.
proof fn lemma_sphere_pick_window(
    center: Vec3d,
    radius: i64,
    ray: Ray,
    tmin: int,
    tmax: int,
    tmax2: int,
)
    requires
        tmax2 <= tmax,
        !ray.direction.is_zero(),
    ensures
        sphere_pick(center, radius, ray, tmin, tmax2) == (match sphere_pick(
            center,
            radius,
            ray,
            tmin,
            tmax,
        ) {
            Some(t) => if t < tmax2 {
                Some(t)
            } else {
                None::<int>
            },
            None => None::<int>,
        }),
{
    let (disc, t1, t2) = sphere_roots(center, radius, ray);
    let dx = ray.direction.x as int;
    let dy = ray.direction.y as int;
    let dz = ray.direction.z as int;
    crate::arith::lemma_dot_self(dx, dy, dz);
    let qa = dx * dx + dy * dy + dz * dz;
    let ts = crate::T_SCALE as int;
    let ocx = ray.origin.x - center.x;
    let ocy = ray.origin.y - center.y;
    let ocz = ray.origin.z - center.z;
    let hb = ocx * dx + ocy * dy + ocz * dz;
    let c0 = ocx * ocx + ocy * ocy + ocz * ocz - radius * radius;
    let s = sqrt_floor(((hb * hb - qa * c0) * ts * ts) as nat) as int;
    assert(t1 == (-hb * ts - s) / qa);
    assert(t2 == (-hb * ts + s) / qa);
    vstd::arithmetic::div_mod::lemma_div_is_ordered(-hb * ts - s, -hb * ts + s, qa);
    assert(t1 <= t2);
}

/// Restricting the upper end of the window keeps a hit that still fits and
/// drops every other.
pub proof fn lemma_shape_hit_window(s: Shape, ray: Ray, tmin: int, tmax: int, tmax2: int)
    requires
        tmax2 <= tmax,
        -T_LIMIT <= tmin <= T_LIMIT,
        -T_LIMIT <= tmax <= T_LIMIT,
        -T_LIMIT <= tmax2 <= T_LIMIT,
        !ray.direction.is_zero(),
    ensures
        shape_hit_spec(s, ray, tmin, tmax2) == (match shape_hit_spec(s, ray, tmin, tmax) {
            Some(rec) => if (rec.t as int) < tmax2 {
                Some(rec)
            } else {
                None::<HitRecord>
            },
            None => None::<HitRecord>,
        }),
{
    lemma_shape_hit_in_box(s, ray, tmin, tmax);
    lemma_shape_hit_in_box(s, ray, tmin, tmax2);
    match s {
        Shape::Sphere(x) => {
            lemma_sphere_pick_window(x.center, x.radius, ray, tmin, tmax, tmax2);
        },
        Shape::MovingSphere(x) => {
            let c = ms_center(x, ray.time as int);
            if ms_center_in_range(c) {
                let cv = Vec3d { x: c.0 as i64, y: c.1 as i64, z: c.2 as i64 };
                lemma_sphere_pick_window(cv, x.radius, ray, tmin, tmax, tmax2);
            }
        },
        Shape::Triangle(x) => {
        },
        Shape::RectangleXY(x) => {
        },
        Shape::RectangleXZ(x) => {
        },
        Shape::RectangleYZ(x) => {
        },
    }
}

/// A primitive's hit lies strictly inside the window and strictly inside the
/// primitive's stored box, and carries the primitive's material.
pub proof fn lemma_prim_hit_in_box(p: Primitive, ray: Ray, tmin: int, tmax: int)
    requires
        prim_wf(p),
        crate::ray::scene_ray_ok(ray),
        -T_LIMIT <= tmin <= T_LIMIT,
        -T_LIMIT <= tmax <= T_LIMIT,
    ensures
        prim_hit(p, ray, tmin, tmax) matches Some(rec) ==> {
            &&& tmin < rec.t < tmax
            &&& strictly_inside_at(
                prim_box(p).min,
                prim_box(p).max,
                ray.origin,
                ray.direction,
                rec.t as int,
                crate::T_SCALE as int,
            )
            &&& rec.material == prim_mat(p)
        },
{
    match p {
        Primitive::Shape(s) => {
            lemma_shape_hit_in_box(s, ray, tmin, tmax);
        },
        Primitive::Translate(t) => {
            let inner = shifted_ray(ray, t.offset);
            lemma_shape_hit_in_box(t.object, inner, tmin, tmax);
            lemma_shape_box_bounds(t.object);
        },
        Primitive::RotateX(r) => {
            lemma_shape_hit_in_box(r.object, rotatex_in_ray(r, ray), tmin, tmax);
        },
        Primitive::RotateY(r) => {
            lemma_shape_hit_in_box(r.object, rotatey_in_ray(r, ray), tmin, tmax);
        },
        Primitive::RotateZ(r) => {
            lemma_shape_hit_in_box(r.object, rotatez_in_ray(r, ray), tmin, tmax);
        },
        Primitive::Scale(sc) => {
            lemma_shape_hit_in_box(sc.object, scale_in_ray(sc, ray), tmin, tmax);
        },
    }
}

/// Restricting the upper end of the window keeps a primitive hit that still
/// fits and drops every other.
pub proof fn lemma_prim_hit_window(p: Primitive, ray: Ray, tmin: int, tmax: int, tmax2: int)
    requires
        prim_wf(p),
        crate::ray::scene_ray_ok(ray),
        tmax2 <= tmax,
        -T_LIMIT <= tmin <= T_LIMIT,
        -T_LIMIT <= tmax <= T_LIMIT,
        -T_LIMIT <= tmax2 <= T_LIMIT,
    ensures
        prim_hit(p, ray, tmin, tmax2) == (match prim_hit(p, ray, tmin, tmax) {
            Some(rec) => if (rec.t as int) < tmax2 {
                Some(rec)
            } else {
                None::<HitRecord>
            },
            None => None::<HitRecord>,
        }),
{
    match p {
        Primitive::Shape(s) => {
            lemma_shape_hit_window(s, ray, tmin, tmax, tmax2);
        },
        Primitive::Translate(t) => {
            let inner = shifted_ray(ray, t.offset);
            lemma_shape_hit_window(t.object, inner, tmin, tmax, tmax2);
        },
        Primitive::RotateX(r) => {
            if !rotatex_in_ray(r, ray).direction.is_zero() {
                lemma_shape_hit_window(r.object, rotatex_in_ray(r, ray), tmin, tmax, tmax2);
            }
        },
        Primitive::RotateY(r) => {
            if !rotatey_in_ray(r, ray).direction.is_zero() {
                lemma_shape_hit_window(r.object, rotatey_in_ray(r, ray), tmin, tmax, tmax2);
            }
        },
        Primitive::RotateZ(r) => {
            if !rotatez_in_ray(r, ray).direction.is_zero() {
                lemma_shape_hit_window(r.object, rotatez_in_ray(r, ray), tmin, tmax, tmax2);
            }
        },
        Primitive::Scale(sc) => {
            if !scale_in_ray(sc, ray).direction.is_zero() {
                lemma_shape_hit_window(sc.object, scale_in_ray(sc, ray), tmin, tmax, tmax2);
            }
        },
    }
}

/// A box with opposite corners `p0` and `p1`: six axis-aligned rectangles.
#[derive(Clone, Debug)]
pub struct BoxObj {
    pub sides: Vec<Primitive>,
}

impl BoxObj {
    /// Builds the six sides of the box; they can be added to a scene one by
    /// one.
    pub fn new(p0: Vec3d, p1: Vec3d, material: usize) -> (r: BoxObj)
        requires
            in_range(p0, crate::COORD_LIMIT as int),
            in_range(p1, crate::COORD_LIMIT as int),
            p0.x < p1.x,
            p0.y < p1.y,
            p0.z < p1.z,
        ensures
            r.sides@.len() == 6,
            r.sides@[0] == Primitive::Shape(
                Shape::RectangleXY(
                    RectangleXY { x0: p0.x, x1: p1.x, y0: p0.y, y1: p1.y, k: p1.z, material },
                ),
            ),
            r.sides@[1] == Primitive::Shape(
                Shape::RectangleXY(
                    RectangleXY { x0: p0.x, x1: p1.x, y0: p0.y, y1: p1.y, k: p0.z, material },
                ),
            ),
            r.sides@[2] == Primitive::Shape(
                Shape::RectangleXZ(
                    RectangleXZ { x0: p0.x, x1: p1.x, z0: p0.z, z1: p1.z, k: p1.y, material },
                ),
            ),
            r.sides@[3] == Primitive::Shape(
                Shape::RectangleXZ(
                    RectangleXZ { x0: p0.x, x1: p1.x, z0: p0.z, z1: p1.z, k: p0.y, material },
                ),
            ),
            r.sides@[4] == Primitive::Shape(
                Shape::RectangleYZ(
                    RectangleYZ { y0: p0.y, y1: p1.y, z0: p0.z, z1: p1.z, k: p1.x, material },
                ),
            ),
            r.sides@[5] == Primitive::Shape(
                Shape::RectangleYZ(
                    RectangleYZ { y0: p0.y, y1: p1.y, z0: p0.z, z1: p1.z, k: p0.x, material },
                ),
            ),
            forall|k: int| 0 <= k < 6 ==> prim_wf(#[trigger] r.sides@[k]),
    {
        BoxObj { sides: box_object(p0, p1, material) }
    }
}

/// The six axis-aligned rectangles that make up the surface of a box with
/// opposite corners `p0` and `p1`, all with the same material.
pub fn box_object(p0: Vec3d, p1: Vec3d, material: usize) -> (r: Vec<Primitive>)
    requires
        in_range(p0, crate::COORD_LIMIT as int),
        in_range(p1, crate::COORD_LIMIT as int),
        p0.x < p1.x,
        p0.y < p1.y,
        p0.z < p1.z,
    ensures
        r@.len() == 6,
        r@[0] == Primitive::Shape(
            Shape::RectangleXY(
                RectangleXY { x0: p0.x, x1: p1.x, y0: p0.y, y1: p1.y, k: p1.z, material },
            ),
        ),
        r@[1] == Primitive::Shape(
            Shape::RectangleXY(
                RectangleXY { x0: p0.x, x1: p1.x, y0: p0.y, y1: p1.y, k: p0.z, material },
            ),
        ),
        r@[2] == Primitive::Shape(
            Shape::RectangleXZ(
                RectangleXZ { x0: p0.x, x1: p1.x, z0: p0.z, z1: p1.z, k: p1.y, material },
            ),
        ),
        r@[3] == Primitive::Shape(
            Shape::RectangleXZ(
                RectangleXZ { x0: p0.x, x1: p1.x, z0: p0.z, z1: p1.z, k: p0.y, material },
            ),
        ),
        r@[4] == Primitive::Shape(
            Shape::RectangleYZ(
                RectangleYZ { y0: p0.y, y1: p1.y, z0: p0.z, z1: p1.z, k: p1.x, material },
            ),
        ),
        r@[5] == Primitive::Shape(
            Shape::RectangleYZ(
                RectangleYZ { y0: p0.y, y1: p1.y, z0: p0.z, z1: p1.z, k: p0.x, material },
            ),
        ),
        forall|k: int| 0 <= k < 6 ==> prim_wf(#[trigger] r@[k]),
{
    let mut sides: Vec<Primitive> = Vec::new();
    sides.push(
        Primitive::Shape(
            Shape::RectangleXY(RectangleXY::new(p0.x, p1.x, p0.y, p1.y, p1.z, material)),
        ),
    );
    sides.push(
        Primitive::Shape(
            Shape::RectangleXY(RectangleXY::new(p0.x, p1.x, p0.y, p1.y, p0.z, material)),
        ),
    );
    sides.push(
        Primitive::Shape(
            Shape::RectangleXZ(RectangleXZ::new(p0.x, p1.x, p0.z, p1.z, p1.y, material)),
        ),
    );
    sides.push(
        Primitive::Shape(
            Shape::RectangleXZ(RectangleXZ::new(p0.x, p1.x, p0.z, p1.z, p0.y, material)),
        ),
    );
    sides.push(
        Primitive::Shape(
            Shape::RectangleYZ(RectangleYZ::new(p0.y, p1.y, p0.z, p1.z, p1.x, material)),
        ),
    );
    sides.push(
        Primitive::Shape(
            Shape::RectangleYZ(RectangleYZ::new(p0.y, p1.y, p0.z, p1.z, p0.x, material)),
        ),
    );
    sides
}

/// The five corners of a square-based pyramid: the four base corners, from
/// half a base diagonal, and the apex raised `height` above the base center
/// along the base normal. Exact except for the fixed-point rounding of the
/// normal direction.
pub open spec fn spec_pyramid_vertices(b0: Vec3d, b1: Vec3d, b3: Vec3d, height: i64) -> (
    Vec3d,
    Vec3d,
    Vec3d,
    Vec3d,
    Vec3d,
) {
    let cx = b3.x + (b1.x - b3.x) / 2;
    let cy = b3.y + (b1.y - b3.y) / 2;
    let cz = b3.z + (b1.z - b3.z) / 2;
    let b2 = Vec3d {
        x: (b0.x + 2 * (cx - b0.x)) as i64,
        y: (b0.y + 2 * (cy - b0.y)) as i64,
        z: (b0.z + 2 * (cz - b0.z)) as i64,
    };
    let e1 = crate::vec3d::sub3(crate::vec3d::v3(b1), crate::vec3d::v3(b0));
    let e2 = crate::vec3d::sub3(crate::vec3d::v3(b3), crate::vec3d::v3(b0));
    let cr = crate::vec3d::cross3(e1, e2);
    let l = crate::sqrt::sqrt_floor(crate::vec3d::dot3(cr, cr) as nat) as int;
    let ts = crate::T_SCALE as int;
    let p = if l >= 1 {
        Vec3d {
            x: (cx + height * (cr.0 * ts / l) / ts) as i64,
            y: (cy + height * (cr.1 * ts / l) / ts) as i64,
            z: (cz + height * (cr.2 * ts / l) / ts) as i64,
        }
    } else {
        Vec3d { x: cx as i64, y: cy as i64, z: cz as i64 }
    };
    (b0, b1, b2, b3, p)
}

/// Computes the pyramid corners, executable.
///
/// * `base_triangle`: half the base of the pyramid; the first corner is the
///   outer corner opposite the computed fourth one. The quarter-range bound
///   on the inputs is headroom for the far base corner and the apex, which
///   reach beyond the given corners.
/// * `height`: height of the apex above the base.
pub fn get_pyramid_vertices(base_triangle: (Vec3d, Vec3d, Vec3d), height: i64) -> (r: (
    Vec3d,
    Vec3d,
    Vec3d,
    Vec3d,
    Vec3d,
))
    requires
        in_range(base_triangle.0, (crate::COORD_LIMIT / 4) as int),
        in_range(base_triangle.1, (crate::COORD_LIMIT / 4) as int),
        in_range(base_triangle.2, (crate::COORD_LIMIT / 4) as int),
        0 < height <= crate::COORD_LIMIT / 4,
    ensures
        r == spec_pyramid_vertices(base_triangle.0, base_triangle.1, base_triangle.2, height),
        in_range(r.0, crate::COORD_LIMIT as int),
        in_range(r.1, crate::COORD_LIMIT as int),
        in_range(r.2, crate::COORD_LIMIT as int),
        in_range(r.3, crate::COORD_LIMIT as int),
        in_range(r.4, crate::COORD_LIMIT as int),
{
    let (b0, b1, b3) = base_triangle;
    let cx = b3.x + div_floor((b1.x - b3.x) as i128, 2) as i64;
    let cy = b3.y + div_floor((b1.y - b3.y) as i128, 2) as i64;
    let cz = b3.z + div_floor((b1.z - b3.z) as i128, 2) as i64;
    let b2 = Vec3d::new(
        b0.x + 2 * (cx - b0.x),
        b0.y + 2 * (cy - b0.y),
        b0.z + 2 * (cz - b0.z),
    );
    let e1 = b1.sub(b0);
    let e2 = b3.sub(b0);
    let cr = e1.cross(e2);
    proof {
        crate::vec3d::lemma_scross_bound(e1, e2, 0x20_0000, 0x20_0000);
        assert(in_range(cr, 0x2000_0000_0000_0000));
    }
    proof {
        crate::arith::lemma_dot_self(cr.x as int, cr.y as int, cr.z as int);
        crate::sqrt::lemma_sqrt_floor_bounds(crate::vec3d::sdot(cr, cr) as nat);
        let l = crate::sqrt::sqrt_floor(crate::vec3d::sdot(cr, cr) as nat) as int;
        if !cr.is_zero() {
            if l == 0 {
                assert((l + 1) * (l + 1) == 1) by (nonlinear_arith)
                    requires
                        l == 0,
                ;
            }
        } else {
            assert(crate::vec3d::sdot(cr, cr) == 0);
            assert(crate::sqrt::sqrt_floor(0) == 0);
        }
    }
    let p = match crate::vec3d::unit_scaled(cr) {
        Some(u) => {
            proof {
                lemma_mul_bound(
                    height as int,
                    u.x as int,
                    (crate::COORD_LIMIT / 4) as int,
                    2 * crate::T_SCALE as int,
                );
                lemma_mul_bound(
                    height as int,
                    u.y as int,
                    (crate::COORD_LIMIT / 4) as int,
                    2 * crate::T_SCALE as int,
                );
                lemma_mul_bound(
                    height as int,
                    u.z as int,
                    (crate::COORD_LIMIT / 4) as int,
                    2 * crate::T_SCALE as int,
                );
                crate::arith::lemma_div_range(
                    (height as int) * (u.x as int),
                    crate::T_SCALE as int,
                    2 * (crate::COORD_LIMIT / 4) as int,
                );
                crate::arith::lemma_div_range(
                    (height as int) * (u.y as int),
                    crate::T_SCALE as int,
                    2 * (crate::COORD_LIMIT / 4) as int,
                );
                crate::arith::lemma_div_range(
                    (height as int) * (u.z as int),
                    crate::T_SCALE as int,
                    2 * (crate::COORD_LIMIT / 4) as int,
                );
            }
            Vec3d::new(
                cx + div_floor((height as i128) * (u.x as i128), crate::T_SCALE as i128) as i64,
                cy + div_floor((height as i128) * (u.y as i128), crate::T_SCALE as i128) as i64,
                cz + div_floor((height as i128) * (u.z as i128), crate::T_SCALE as i128) as i64,
            )
        },
        None => Vec3d::new(cx, cy, cz),
    };
    (b0, b1, b2, b3, p)
}

/// A pyramid with square base and four triangles on top. 6 triangles total.
#[derive(Clone, Debug)]
pub struct Pyramid {
    pub sides: Vec<Primitive>,
}

impl Pyramid {
    /// Builds a pyramid object
    ///
    /// * `base_triangle`: half the base of the pyramid; the first value is
    ///   taken as the external corner of the pyramid.
    /// * `height`: height of the point above the base.
    /// * `material`: the material of the pyramid.
    pub fn build(base_triangle: (Vec3d, Vec3d, Vec3d), height: i64, material: usize) -> (r:
        Pyramid)
        requires
            in_range(base_triangle.0, (crate::COORD_LIMIT / 4) as int),
            in_range(base_triangle.1, (crate::COORD_LIMIT / 4) as int),
            in_range(base_triangle.2, (crate::COORD_LIMIT / 4) as int),
            0 < height <= crate::COORD_LIMIT / 4,
        ensures
            r.sides@.len() == 6,
            forall|k: int| 0 <= k < 6 ==> prim_wf(#[trigger] r.sides@[k]),
    {
        let (b0, b1, b2, b3, p) = get_pyramid_vertices(base_triangle, height);
        let mut sides: Vec<Primitive> = Vec::new();
        sides.push(Primitive::Shape(Shape::Triangle(Triangle::new(b0, b1, p, material))));
        sides.push(Primitive::Shape(Shape::Triangle(Triangle::new(b1, b2, p, material))));
        sides.push(Primitive::Shape(Shape::Triangle(Triangle::new(b2, b3, p, material))));
        sides.push(Primitive::Shape(Shape::Triangle(Triangle::new(b3, b0, p, material))));
        sides.push(Primitive::Shape(Shape::Triangle(Triangle::new(b0, b1, b3, material))));
        sides.push(Primitive::Shape(Shape::Triangle(Triangle::new(b2, b3, b1, material))));
        Pyramid { sides }
    }
}

// ---------------------------------------------------------------------------
// Tight bounding boxes
// ---------------------------------------------------------------------------

/// The tight spatial extent of a sphere: its center cube of half-width
/// `radius`.
pub open spec fn sphere_tight_box(center: Vec3d, radius: i64) -> BoundingBox {
    spec_box(
        Vec3d {
            x: (center.x - radius) as i64,
            y: (center.y - radius) as i64,
            z: (center.z - radius) as i64,
        },
        Vec3d {
            x: (center.x + radius) as i64,
            y: (center.y + radius) as i64,
            z: (center.z + radius) as i64,
        },
    )
}

/// One axis of the tight triangle box: the vertex extent, widened by
/// `THIN_PAD` only when the extent is exactly zero.
pub open spec fn tri_axis_lo(a: int, b: int, c: int) -> int {
    if crate::aabb::min3(a, b, c) == crate::aabb::max3(a, b, c) {
        crate::aabb::min3(a, b, c) - THIN_PAD
    } else {
        crate::aabb::min3(a, b, c)
    }
}

pub open spec fn tri_axis_hi(a: int, b: int, c: int) -> int {
    if crate::aabb::min3(a, b, c) == crate::aabb::max3(a, b, c) {
        crate::aabb::max3(a, b, c) + THIN_PAD
    } else {
        crate::aabb::max3(a, b, c)
    }
}

/// The tight spatial extent of a triangle: the vertex bounds, with only a
/// degenerate axis padded.
pub open spec fn triangle_tight_box(t: Triangle) -> BoundingBox {
    spec_box(
        Vec3d {
            x: tri_axis_lo(t.a.x as int, t.b.x as int, t.c.x as int) as i64,
            y: tri_axis_lo(t.a.y as int, t.b.y as int, t.c.y as int) as i64,
            z: tri_axis_lo(t.a.z as int, t.b.z as int, t.c.z as int) as i64,
        },
        Vec3d {
            x: tri_axis_hi(t.a.x as int, t.b.x as int, t.c.x as int) as i64,
            y: tri_axis_hi(t.a.y as int, t.b.y as int, t.c.y as int) as i64,
            z: tri_axis_hi(t.a.z as int, t.b.z as int, t.c.z as int) as i64,
        },
    )
}

pub open spec fn rectanglexy_tight_box(r: RectangleXY) -> BoundingBox {
    spec_box(
        Vec3d { x: r.x0, y: r.y0, z: (r.k - RECT_PAD) as i64 },
        Vec3d { x: r.x1, y: r.y1, z: (r.k + RECT_PAD) as i64 },
    )
}

pub open spec fn rectanglexz_tight_box(r: RectangleXZ) -> BoundingBox {
    spec_box(
        Vec3d { x: r.x0, y: (r.k - RECT_PAD) as i64, z: r.z0 },
        Vec3d { x: r.x1, y: (r.k + RECT_PAD) as i64, z: r.z1 },
    )
}

pub open spec fn rectangleyz_tight_box(r: RectangleYZ) -> BoundingBox {
    spec_box(
        Vec3d { x: (r.k - RECT_PAD) as i64, y: r.y0, z: r.z0 },
        Vec3d { x: (r.k + RECT_PAD) as i64, y: r.y1, z: r.z1 },
    )
}

/// The tight extent of a moving sphere over its whole motion: the union of
/// the endpoint cubes.
pub open spec fn ms_tight_box(ms: MovingSphere) -> BoundingBox {
    spec_surrounding_box(
        sphere_tight_box(ms.center0, ms.radius),
        sphere_tight_box(ms.center1, ms.radius),
    )
}

pub open spec fn shape_tight_box(s: Shape) -> BoundingBox {
    match s {
        Shape::Sphere(x) => sphere_tight_box(x.center, x.radius),
        Shape::MovingSphere(x) => ms_tight_box(x),
        Shape::Triangle(x) => triangle_tight_box(x),
        Shape::RectangleXY(x) => rectanglexy_tight_box(x),
        Shape::RectangleXZ(x) => rectanglexz_tight_box(x),
        Shape::RectangleYZ(x) => rectangleyz_tight_box(x),
    }
}

pub open spec fn translate_tight_box(t: Translate) -> BoundingBox {
    spec_box(
        Vec3d {
            x: (shape_tight_box(t.object).min.x + t.offset.x) as i64,
            y: (shape_tight_box(t.object).min.y + t.offset.y) as i64,
            z: (shape_tight_box(t.object).min.z + t.offset.z) as i64,
        },
        Vec3d {
            x: (shape_tight_box(t.object).max.x + t.offset.x) as i64,
            y: (shape_tight_box(t.object).max.y + t.offset.y) as i64,
            z: (shape_tight_box(t.object).max.z + t.offset.z) as i64,
        },
    )
}

/// The tight spatial extent of a primitive over a time interval.
pub open spec fn prim_tight_box(p: Primitive) -> BoundingBox {
    match p {
        Primitive::Shape(s) => shape_tight_box(s),
        Primitive::Translate(t) => translate_tight_box(t),
        Primitive::RotateX(r) => rotatex_tight_box(r),
        Primitive::RotateY(r) => rotatey_tight_box(r),
        Primitive::RotateZ(r) => rotatez_tight_box(r),
        Primitive::Scale(sc) => scale_tight_box(sc),
    }
}

impl Sphere {
    /// The tight extent `center - r .. center + r`; the time arguments do
    /// not change it.
    pub fn bounding_box(&self, time0: i64, time1: i64) -> (r: BoundingBox)
        requires
            self.wf(),
        ensures
            r == sphere_tight_box(self.center, self.radius),
            r.wf(),
    {
        BoundingBox::new(
            Vec3d::new(self.center.x - self.radius, self.center.y - self.radius, self.center.z - self.radius),
            Vec3d::new(self.center.x + self.radius, self.center.y + self.radius, self.center.z + self.radius),
        )
    }
}

fn tri_axis_bounds(a: i64, b: i64, c: i64) -> (r: (i64, i64))
    requires
        -crate::COORD_LIMIT <= a <= crate::COORD_LIMIT,
        -crate::COORD_LIMIT <= b <= crate::COORD_LIMIT,
        -crate::COORD_LIMIT <= c <= crate::COORD_LIMIT,
    ensures
        r.0 == tri_axis_lo(a as int, b as int, c as int),
        r.1 == tri_axis_hi(a as int, b as int, c as int),
        r.0 <= r.1,
        -crate::COORD_LIMIT - THIN_PAD <= r.0,
        r.1 <= crate::COORD_LIMIT + THIN_PAD,
{
    let lo = min3e(a, b, c);
    let hi = max3e(a, b, c);
    if lo == hi {
        (lo - THIN_PAD, hi + THIN_PAD)
    } else {
        (lo, hi)
    }
}

impl Triangle {
    /// The tight vertex extent; an axis of zero extent is widened a little
    /// so the box keeps the `min <= max` shape with thickness.
    pub fn bounding_box(&self, time0: i64, time1: i64) -> (r: BoundingBox)
        requires
            self.wf(),
        ensures
            r == triangle_tight_box(*self),
            r.wf(),
    {
        let xb = tri_axis_bounds(self.a.x, self.b.x, self.c.x);
        let yb = tri_axis_bounds(self.a.y, self.b.y, self.c.y);
        let zb = tri_axis_bounds(self.a.z, self.b.z, self.c.z);
        BoundingBox::new(Vec3d::new(xb.0, yb.0, zb.0), Vec3d::new(xb.1, yb.1, zb.1))
    }
}

impl RectangleXY {
    /// The tight extent: the rectangle with a thin thickness on its flat
    /// axis.
    pub fn bounding_box(&self, time0: i64, time1: i64) -> (r: BoundingBox)
        requires
            self.wf(),
        ensures
            r == rectanglexy_tight_box(*self),
            r.wf(),
    {
        BoundingBox::new(
            Vec3d::new(self.x0, self.y0, self.k - RECT_PAD),
            Vec3d::new(self.x1, self.y1, self.k + RECT_PAD),
        )
    }
}

impl RectangleXZ {
    /// The tight extent: the rectangle with a thin thickness on its flat
    /// axis.
    pub fn bounding_box(&self, time0: i64, time1: i64) -> (r: BoundingBox)
        requires
            self.wf(),
        ensures
            r == rectanglexz_tight_box(*self),
            r.wf(),
    {
        BoundingBox::new(
            Vec3d::new(self.x0, self.k - RECT_PAD, self.z0),
            Vec3d::new(self.x1, self.k + RECT_PAD, self.z1),
        )
    }
}

impl RectangleYZ {
    /// The tight extent: the rectangle with a thin thickness on its flat
    /// axis.
    pub fn bounding_box(&self, time0: i64, time1: i64) -> (r: BoundingBox)
        requires
            self.wf(),
        ensures
            r == rectangleyz_tight_box(*self),
            r.wf(),
    {
        BoundingBox::new(
            Vec3d::new(self.k - RECT_PAD, self.y0, self.z0),
            Vec3d::new(self.k + RECT_PAD, self.y1, self.z1),
        )
    }
}

impl MovingSphere {
    /// The tight extent of the whole motion: the union of the endpoint
    /// cubes; the time arguments do not shrink it.
    pub fn bounding_box(&self, time0: i64, time1: i64) -> (r: BoundingBox)
        requires
            self.wf(),
        ensures
            r == ms_tight_box(*self),
            r.wf(),
    {
        let b0 = BoundingBox::new(
            Vec3d::new(self.center0.x - self.radius, self.center0.y - self.radius, self.center0.z - self.radius),
            Vec3d::new(self.center0.x + self.radius, self.center0.y + self.radius, self.center0.z + self.radius),
        );
        let b1 = BoundingBox::new(
            Vec3d::new(self.center1.x - self.radius, self.center1.y - self.radius, self.center1.z - self.radius),
            Vec3d::new(self.center1.x + self.radius, self.center1.y + self.radius, self.center1.z + self.radius),
        );
        crate::aabb::surrounding_box(b0, b1)
    }
}

impl Shape {
    /// The tight spatial extent of this shape.
    pub fn bounding_box(&self, time0: i64, time1: i64) -> (r: BoundingBox)
        requires
            shape_wf(*self),
        ensures
            r == shape_tight_box(*self),
            r.wf(),
            in_range(r.min, (2 * crate::COORD_LIMIT + PAD) as int),
            in_range(r.max, (2 * crate::COORD_LIMIT + PAD) as int),
    {
        match self {
            Shape::Sphere(x) => x.bounding_box(time0, time1),
            Shape::MovingSphere(x) => x.bounding_box(time0, time1),
            Shape::Triangle(x) => x.bounding_box(time0, time1),
            Shape::RectangleXY(x) => x.bounding_box(time0, time1),
            Shape::RectangleXZ(x) => x.bounding_box(time0, time1),
            Shape::RectangleYZ(x) => x.bounding_box(time0, time1),
        }
    }
}

impl Primitive {
    /// The tight spatial extent of this primitive over the queried times.
    pub fn bounding_box(&self, time0: i64, time1: i64) -> (r: BoundingBox)
        requires
            prim_wf(*self),
        ensures
            r == prim_tight_box(*self),
            r.wf(),
    {
        match self {
            Primitive::Shape(s) => s.bounding_box(time0, time1),
            Primitive::RotateX(r) => r.bounding_box(time0, time1),
            Primitive::RotateY(r) => r.bounding_box(time0, time1),
            Primitive::RotateZ(r) => r.bounding_box(time0, time1),
            Primitive::Scale(sc) => sc.bounding_box(time0, time1),
            Primitive::Translate(t) => {
                let inner = t.object.bounding_box(time0, time1);
                BoundingBox::new(
                    Vec3d::new(
                        inner.min.x + t.offset.x,
                        inner.min.y + t.offset.y,
                        inner.min.z + t.offset.z,
                    ),
                    Vec3d::new(
                        inner.max.x + t.offset.x,
                        inner.max.y + t.offset.y,
                        inner.max.z + t.offset.z,
                    ),
                )
            },
        }
    }
}

// ---------------------------------------------------------------------------
// Rotation and scale instances
// ---------------------------------------------------------------------------

/// One step of a fixed-point plane rotation: the first coordinate of
/// `(u, v)` turned by the angle whose sine and cosine (scaled by `T_SCALE`)
/// are `s` and `c`, rounded down.
pub open spec fn rot_u(c: int, s: int, u: int, v: int) -> int {
    (c * u + s * v) / (crate::T_SCALE as int)
}

/// The second coordinate of the turned pair.
pub open spec fn rot_v(c: int, s: int, u: int, v: int) -> int {
    (c * v - s * u) / (crate::T_SCALE as int)
}

/// Turns a coordinate pair, executable and exact.
fn rot_pair_e(c: i64, s: i64, u: i64, v: i64) -> (r: (i64, i64))
    requires
        -crate::T_SCALE <= c <= crate::T_SCALE,
        -crate::T_SCALE <= s <= crate::T_SCALE,
        -0x200_0000_0000 <= u <= 0x200_0000_0000,
        -0x200_0000_0000 <= v <= 0x200_0000_0000,
    ensures
        r.0 == rot_u(c as int, s as int, u as int, v as int),
        r.1 == rot_v(c as int, s as int, u as int, v as int),
        -0x400_0000_0000 <= r.0 <= 0x400_0000_0000,
        -0x400_0000_0000 <= r.1 <= 0x400_0000_0000,
{
    let ts = crate::T_SCALE as i128;
    proof {
        lemma_mul_bound(c as int, u as int, crate::T_SCALE as int, 0x200_0000_0000);
        lemma_mul_bound(s as int, v as int, crate::T_SCALE as int, 0x200_0000_0000);
        lemma_mul_bound(c as int, v as int, crate::T_SCALE as int, 0x200_0000_0000);
        lemma_mul_bound(s as int, u as int, crate::T_SCALE as int, 0x200_0000_0000);
        crate::arith::lemma_div_range(
            (c as int) * (u as int) + (s as int) * (v as int),
            crate::T_SCALE as int,
            0x400_0000_0000,
        );
        crate::arith::lemma_div_range(
            (c as int) * (v as int) - (s as int) * (u as int),
            crate::T_SCALE as int,
            0x400_0000_0000,
        );
        assert(0x400_0000_0000 * (crate::T_SCALE as int) >= (c as int) * (u as int) + (
        s as int) * (v as int)) by (nonlinear_arith)
            requires
                (c as int) * (u as int) <= 0x200_0000_0000 * (crate::T_SCALE as int),
                (s as int) * (v as int) <= 0x200_0000_0000 * (crate::T_SCALE as int),
        ;
    }
    let a = div_floor((c as i128) * (u as i128) + (s as i128) * (v as i128), ts);
    let b = div_floor((c as i128) * (v as i128) - (s as i128) * (u as i128), ts);
    (a as i64, b as i64)
}

/// The least and greatest first and second coordinates over the four turned
/// corners of the rectangle `[ulo, uhi] x [vlo, vhi]`.
pub open spec fn rot_span(c: int, s: int, ulo: int, uhi: int, vlo: int, vhi: int) -> (
    int,
    int,
    int,
    int,
) {
    let u1 = rot_u(c, s, ulo, vlo);
    let u2 = rot_u(c, s, ulo, vhi);
    let u3 = rot_u(c, s, uhi, vlo);
    let u4 = rot_u(c, s, uhi, vhi);
    let v1 = rot_v(c, s, ulo, vlo);
    let v2 = rot_v(c, s, ulo, vhi);
    let v3 = rot_v(c, s, uhi, vlo);
    let v4 = rot_v(c, s, uhi, vhi);
    (
        crate::aabb::min3(u1, u2, crate::aabb::min3(u3, u4, u1)),
        crate::aabb::max3(u1, u2, crate::aabb::max3(u3, u4, u1)),
        crate::aabb::min3(v1, v2, crate::aabb::min3(v3, v4, v1)),
        crate::aabb::max3(v1, v2, crate::aabb::max3(v3, v4, v1)),
    )
}

/// Computes the span of the turned corners, executable.
fn rot_span_e(c: i64, s: i64, ulo: i64, uhi: i64, vlo: i64, vhi: i64) -> (r: (i64, i64, i64, i64))
    requires
        -crate::T_SCALE <= c <= crate::T_SCALE,
        -crate::T_SCALE <= s <= crate::T_SCALE,
        -0x20_0080 <= ulo <= 0x20_0080,
        -0x20_0080 <= uhi <= 0x20_0080,
        -0x20_0080 <= vlo <= 0x20_0080,
        -0x20_0080 <= vhi <= 0x20_0080,
    ensures
        (r.0 as int, r.1 as int, r.2 as int, r.3 as int) == rot_span(
            c as int,
            s as int,
            ulo as int,
            uhi as int,
            vlo as int,
            vhi as int,
        ),
        r.0 <= r.1,
        r.2 <= r.3,
        -0x40_0101 <= r.0 <= 0x40_0101,
        -0x40_0101 <= r.1 <= 0x40_0101,
        -0x40_0101 <= r.2 <= 0x40_0101,
        -0x40_0101 <= r.3 <= 0x40_0101,
{
    let p1 = rot_pair_e(c, s, ulo, vlo);
    let p2 = rot_pair_e(c, s, ulo, vhi);
    let p3 = rot_pair_e(c, s, uhi, vlo);
    let p4 = rot_pair_e(c, s, uhi, vhi);
    let lo_u = min3e(p1.0, p2.0, min3e(p3.0, p4.0, p1.0));
    let hi_u = max3e(p1.0, p2.0, max3e(p3.0, p4.0, p1.0));
    let lo_v = min3e(p1.1, p2.1, min3e(p3.1, p4.1, p1.1));
    let hi_v = max3e(p1.1, p2.1, max3e(p3.1, p4.1, p1.1));
    proof {
        lemma_rot_corner_bound(c as int, s as int, ulo as int, vlo as int);
        lemma_rot_corner_bound(c as int, s as int, ulo as int, vhi as int);
        lemma_rot_corner_bound(c as int, s as int, uhi as int, vlo as int);
        lemma_rot_corner_bound(c as int, s as int, uhi as int, vhi as int);
    }
    (lo_u, hi_u, lo_v, hi_v)
}

/// A turned corner of a stored box stays within the widened coordinate
/// range.
proof fn lemma_rot_corner_bound(c: int, s: int, u: int, v: int)
    requires
        -(crate::T_SCALE as int) <= c <= crate::T_SCALE as int,
        -(crate::T_SCALE as int) <= s <= crate::T_SCALE as int,
        -0x20_0080 <= u <= 0x20_0080,
        -0x20_0080 <= v <= 0x20_0080,
    ensures
        -0x40_0101 <= rot_u(c, s, u, v) <= 0x40_0101,
        -0x40_0101 <= rot_v(c, s, u, v) <= 0x40_0101,
{
    lemma_mul_bound(c, u, crate::T_SCALE as int, 0x20_0080);
    lemma_mul_bound(s, v, crate::T_SCALE as int, 0x20_0080);
    lemma_mul_bound(c, v, crate::T_SCALE as int, 0x20_0080);
    lemma_mul_bound(s, u, crate::T_SCALE as int, 0x20_0080);
    assert(-(0x40_0101 * (crate::T_SCALE as int)) <= c * u + s * v <= 0x40_0101 * (
    crate::T_SCALE as int) && -(0x40_0101 * (crate::T_SCALE as int)) <= c * v - s * u
        <= 0x40_0101 * (crate::T_SCALE as int)) by (nonlinear_arith)
        requires
            -((crate::T_SCALE as int) * 0x20_0080) <= c * u <= (crate::T_SCALE as int) * 0x20_0080,
            -((crate::T_SCALE as int) * 0x20_0080) <= s * v <= (crate::T_SCALE as int) * 0x20_0080,
            -((crate::T_SCALE as int) * 0x20_0080) <= c * v <= (crate::T_SCALE as int) * 0x20_0080,
            -((crate::T_SCALE as int) * 0x20_0080) <= s * u <= (crate::T_SCALE as int) * 0x20_0080,
    ;
    crate::arith::lemma_div_range(c * u + s * v, crate::T_SCALE as int, 0x40_0101);
    crate::arith::lemma_div_range(c * v - s * u, crate::T_SCALE as int, 0x40_0101);
}

/// Turns a SHAPE about the x axis without rewriting its coordinates: rays
/// are turned into the shape's own frame, and the hit is turned back. The
/// sine and cosine of the angle are fixed-point values scaled by `T_SCALE`,
/// supplied by the caller.
#[derive(Clone, Copy, Debug, PartialEq, Eq, Structural)]
pub struct RotateX {
    pub sin_t: i64,
    pub cos_t: i64,
    pub object: Shape,
}

impl RotateX {
    pub open spec fn wf(self) -> bool {
        &&& -crate::T_SCALE <= self.sin_t <= crate::T_SCALE
        &&& -crate::T_SCALE <= self.cos_t <= crate::T_SCALE
        &&& shape_wf(self.object)
    }

    pub fn new(sin_t: i64, cos_t: i64, object: Shape) -> (r: RotateX)
        requires
            -crate::T_SCALE <= sin_t <= crate::T_SCALE,
            -crate::T_SCALE <= cos_t <= crate::T_SCALE,
            shape_wf(object),
        ensures
            r == (RotateX { sin_t, cos_t, object }),
            r.wf(),
    {
        RotateX { sin_t, cos_t, object }
    }
}

/// The box that covers the given inner box turned out of the shape's frame,
/// widened by `pad` on the turning axes.
pub open spec fn rotatex_box_of(r: RotateX, inner: BoundingBox, pad: int) -> BoundingBox {
    let sp = rot_span(
        r.cos_t as int,
        -(r.sin_t as int),
        inner.min.y as int,
        inner.max.y as int,
        inner.min.z as int,
        inner.max.z as int,
    );
    spec_box(
        Vec3d { x: inner.min.x, y: (sp.0 - pad) as i64, z: (sp.2 - pad) as i64 },
        Vec3d { x: inner.max.x, y: (sp.1 + pad) as i64, z: (sp.3 + pad) as i64 },
    )
}

/// The padded box the hierarchy stores for the turned shape.
pub open spec fn rotatex_box_spec(r: RotateX) -> BoundingBox {
    rotatex_box_of(r, shape_box(r.object), PAD as int)
}

/// The tight extent of the turned shape: the turned corners of the inner
/// tight box.
pub open spec fn rotatex_tight_box(r: RotateX) -> BoundingBox {
    rotatex_box_of(r, shape_tight_box(r.object), 0)
}

/// The ray turned into the shape's frame, rounding down.
pub open spec fn rotatex_in_ray(r: RotateX, ray: Ray) -> Ray {
    Ray {
        origin: Vec3d {
            x: ray.origin.x,
            y: rot_u(r.cos_t as int, r.sin_t as int, ray.origin.y as int, ray.origin.z as int) as i64,
            z: rot_v(r.cos_t as int, r.sin_t as int, ray.origin.y as int, ray.origin.z as int) as i64,
        },
        direction: Vec3d {
            x: ray.direction.x,
            y: rot_u(r.cos_t as int, r.sin_t as int, ray.direction.y as int, ray.direction.z as int) as i64,
            z: rot_v(r.cos_t as int, r.sin_t as int, ray.direction.y as int, ray.direction.z as int) as i64,
        },
        time: ray.time,
    }
}

/// A vector turned back out of the shape's frame.
pub open spec fn rotatex_back_vec(r: RotateX, p: Vec3d) -> Vec3d {
    Vec3d {
        x: p.x,
        y: rot_u(r.cos_t as int, -(r.sin_t as int), p.y as int, p.z as int) as i64,
        z: rot_v(r.cos_t as int, -(r.sin_t as int), p.y as int, p.z as int) as i64,
    }
}

/// What the turned shape reports: the inner shape queried with the turned
/// ray, the hit turned back, gated on the stored box. A ray whose turned
/// form leaves the coordinate ranges the intersection arithmetic is proved
/// for reports nothing, as does a record whose normal does.
pub open spec fn rotatex_hit_spec(r: RotateX, ray: Ray, tmin: int, tmax: int) -> Option<HitRecord> {
    let iray = rotatex_in_ray(r, ray);
    if !in_range(iray.origin, crate::ray::ORIGIN_LIMIT as int) || !in_range(
        iray.direction,
        crate::ray::DIR_LIMIT as int,
    ) || iray.direction.is_zero() {
        None
    } else {
        match shape_hit_spec(r.object, iray, tmin, tmax) {
            Some(rec) => if in_range(rec.normal, 0x200_0000_0000) && strictly_inside_at(
                rotatex_box_spec(r).min,
                rotatex_box_spec(r).max,
                ray.origin,
                ray.direction,
                rec.t as int,
                crate::T_SCALE as int,
            ) {
                Some(
                    HitRecord {
                        point: rotatex_back_vec(r, rec.point),
                        normal: rotatex_back_vec(r, rec.normal),
                        ..rec
                    },
                )
            } else {
                None
            },
            None => None,
        }
    }
}

impl RotateX {
    /// The padded box the hierarchy stores for this turned shape.
    pub fn stored_box(&self) -> (b: BoundingBox)
        requires
            self.wf(),
        ensures
            b == rotatex_box_spec(*self),
            b.wf(),
    {
        let inner = self.object.stored_box();
        let sp = rot_span_e(
            self.cos_t,
            -(self.sin_t),
            inner.min.y,
            inner.max.y,
            inner.min.z,
            inner.max.z,
        );
        let mut min = Vec3d::new(0, 0, 0);
        let mut max = Vec3d::new(0, 0, 0);
        min.x = inner.min.x;
        min.y = sp.0 - PAD;
        min.z = sp.2 - PAD;
        max.x = inner.max.x;
        max.y = sp.1 + PAD;
        max.z = sp.3 + PAD;
        BoundingBox::new(min, max)
    }

    /// The tight extent of the turned shape.
    pub fn bounding_box(&self, time0: i64, time1: i64) -> (b: BoundingBox)
        requires
            self.wf(),
        ensures
            b == rotatex_tight_box(*self),
            b.wf(),
    {
        let inner = self.object.bounding_box(time0, time1);
        let sp = rot_span_e(
            self.cos_t,
            -(self.sin_t),
            inner.min.y,
            inner.max.y,
            inner.min.z,
            inner.max.z,
        );
        let mut min = Vec3d::new(0, 0, 0);
        let mut max = Vec3d::new(0, 0, 0);
        min.x = inner.min.x;
        min.y = sp.0;
        min.z = sp.2;
        max.x = inner.max.x;
        max.y = sp.1;
        max.z = sp.3;
        BoundingBox::new(min, max)
    }

    pub fn hit(&self, ray: &Ray, t_min: i64, t_max: i64) -> (res: Option<HitRecord>)
        requires
            self.wf(),
            scene_ray_ok(*ray),
            -T_LIMIT <= t_min <= T_LIMIT,
            -T_LIMIT <= t_max <= T_LIMIT,
        ensures
            res == rotatex_hit_spec(*self, *ray, t_min as int, t_max as int),
    {
        let op = rot_pair_e(self.cos_t, self.sin_t, ray.origin.y, ray.origin.z);
        let dp = rot_pair_e(self.cos_t, self.sin_t, ray.direction.y, ray.direction.z);
        let mut io = ray.origin;
        let mut id = ray.direction;
        io.y = op.0;
        io.z = op.1;
        id.y = dp.0;
        id.z = dp.1;
        let ol = crate::ray::ORIGIN_LIMIT;
        let dl = crate::ray::DIR_LIMIT;
        if io.x < -ol || io.x > ol || io.y < -ol || io.y > ol || io.z < -ol || io.z > ol {
            return None;
        }
        if id.x < -dl || id.x > dl || id.y < -dl || id.y > dl || id.z < -dl || id.z > dl {
            return None;
        }
        if id.x == 0 && id.y == 0 && id.z == 0 {
            return None;
        }
        let iray = Ray::new(io, id, ray.time);
        match self.object.hit(&iray, t_min, t_max) {
            Some(rec) => {
                proof {
                    lemma_shape_hit_in_box(self.object, iray, t_min as int, t_max as int);
                    lemma_shape_box_bounds(self.object);
                }
                let nl = 0x200_0000_0000i64;
                if rec.normal.x < -nl || rec.normal.x > nl || rec.normal.y < -nl || rec.normal.y
                    > nl || rec.normal.z < -nl || rec.normal.z > nl {
                    return None;
                }
                let bx = self.stored_box();
                let p = ray.at(rec.t);
                if !inside_box_check(&bx, p, ray, rec.t) {
                    return None;
                }
                let pp = rot_pair_e(self.cos_t, -(self.sin_t), rec.point.y, rec.point.z);
                let np = rot_pair_e(self.cos_t, -(self.sin_t), rec.normal.y, rec.normal.z);
                let mut point = rec.point;
                let mut normal = rec.normal;
                point.y = pp.0;
                point.z = pp.1;
                normal.y = np.0;
                normal.z = np.1;
                Some(HitRecord { point, normal, ..rec })
            },
            None => None,
        }
    }
}

/// Turns a SHAPE about the y axis without rewriting its coordinates: rays
/// are turned into the shape's own frame, and the hit is turned back. The
/// sine and cosine of the angle are fixed-point values scaled by `T_SCALE`,
/// supplied by the caller.
#[derive(Clone, Copy, Debug, PartialEq, Eq, Structural)]
pub struct RotateY {
    pub sin_t: i64,
    pub cos_t: i64,
    pub object: Shape,
}

impl RotateY {
    pub open spec fn wf(self) -> bool {
        &&& -crate::T_SCALE <= self.sin_t <= crate::T_SCALE
        &&& -crate::T_SCALE <= self.cos_t <= crate::T_SCALE
        &&& shape_wf(self.object)
    }

    pub fn new(sin_t: i64, cos_t: i64, object: Shape) -> (r: RotateY)
        requires
            -crate::T_SCALE <= sin_t <= crate::T_SCALE,
            -crate::T_SCALE <= cos_t <= crate::T_SCALE,
            shape_wf(object),
        ensures
            r == (RotateY { sin_t, cos_t, object }),
            r.wf(),
    {
        RotateY { sin_t, cos_t, object }
    }
}

/// The box that covers the given inner box turned out of the shape's frame,
/// widened by `pad` on the turning axes.
pub open spec fn rotatey_box_of(r: RotateY, inner: BoundingBox, pad: int) -> BoundingBox {
    let sp = rot_span(
        r.cos_t as int,
        r.sin_t as int,
        inner.min.x as int,
        inner.max.x as int,
        inner.min.z as int,
        inner.max.z as int,
    );
    spec_box(
        Vec3d { y: inner.min.y, x: (sp.0 - pad) as i64, z: (sp.2 - pad) as i64 },
        Vec3d { y: inner.max.y, x: (sp.1 + pad) as i64, z: (sp.3 + pad) as i64 },
    )
}

/// The padded box the hierarchy stores for the turned shape.
pub open spec fn rotatey_box_spec(r: RotateY) -> BoundingBox {
    rotatey_box_of(r, shape_box(r.object), PAD as int)
}

/// The tight extent of the turned shape: the turned corners of the inner
/// tight box.
pub open spec fn rotatey_tight_box(r: RotateY) -> BoundingBox {
    rotatey_box_of(r, shape_tight_box(r.object), 0)
}

/// The ray turned into the shape's frame, rounding down.
pub open spec fn rotatey_in_ray(r: RotateY, ray: Ray) -> Ray {
    Ray {
        origin: Vec3d {
            y: ray.origin.y,
            x: rot_u(r.cos_t as int, -(r.sin_t as int), ray.origin.x as int, ray.origin.z as int) as i64,
            z: rot_v(r.cos_t as int, -(r.sin_t as int), ray.origin.x as int, ray.origin.z as int) as i64,
        },
        direction: Vec3d {
            y: ray.direction.y,
            x: rot_u(r.cos_t as int, -(r.sin_t as int), ray.direction.x as int, ray.direction.z as int) as i64,
            z: rot_v(r.cos_t as int, -(r.sin_t as int), ray.direction.x as int, ray.direction.z as int) as i64,
        },
        time: ray.time,
    }
}

/// A vector turned back out of the shape's frame.
pub open spec fn rotatey_back_vec(r: RotateY, p: Vec3d) -> Vec3d {
    Vec3d {
        y: p.y,
        x: rot_u(r.cos_t as int, r.sin_t as int, p.x as int, p.z as int) as i64,
        z: rot_v(r.cos_t as int, r.sin_t as int, p.x as int, p.z as int) as i64,
    }
}

/// What the turned shape reports: the inner shape queried with the turned
/// ray, the hit turned back, gated on the stored box. A ray whose turned
/// form leaves the coordinate ranges the intersection arithmetic is proved
/// for reports nothing, as does a record whose normal does.
pub open spec fn rotatey_hit_spec(r: RotateY, ray: Ray, tmin: int, tmax: int) -> Option<HitRecord> {
    let iray = rotatey_in_ray(r, ray);
    if !in_range(iray.origin, crate::ray::ORIGIN_LIMIT as int) || !in_range(
        iray.direction,
        crate::ray::DIR_LIMIT as int,
    ) || iray.direction.is_zero() {
        None
    } else {
        match shape_hit_spec(r.object, iray, tmin, tmax) {
            Some(rec) => if in_range(rec.normal, 0x200_0000_0000) && strictly_inside_at(
                rotatey_box_spec(r).min,
                rotatey_box_spec(r).max,
                ray.origin,
                ray.direction,
                rec.t as int,
                crate::T_SCALE as int,
            ) {
                Some(
                    HitRecord {
                        point: rotatey_back_vec(r, rec.point),
                        normal: rotatey_back_vec(r, rec.normal),
                        ..rec
                    },
                )
            } else {
                None
            },
            None => None,
        }
    }
}

impl RotateY {
    /// The padded box the hierarchy stores for this turned shape.
    pub fn stored_box(&self) -> (b: BoundingBox)
        requires
            self.wf(),
        ensures
            b == rotatey_box_spec(*self),
            b.wf(),
    {
        let inner = self.object.stored_box();
        let sp = rot_span_e(
            self.cos_t,
            self.sin_t,
            inner.min.x,
            inner.max.x,
            inner.min.z,
            inner.max.z,
        );
        let mut min = Vec3d::new(0, 0, 0);
        let mut max = Vec3d::new(0, 0, 0);
        min.y = inner.min.y;
        min.x = sp.0 - PAD;
        min.z = sp.2 - PAD;
        max.y = inner.max.y;
        max.x = sp.1 + PAD;
        max.z = sp.3 + PAD;
        BoundingBox::new(min, max)
    }

    /// The tight extent of the turned shape.
    pub fn bounding_box(&self, time0: i64, time1: i64) -> (b: BoundingBox)
        requires
            self.wf(),
        ensures
            b == rotatey_tight_box(*self),
            b.wf(),
    {
        let inner = self.object.bounding_box(time0, time1);
        let sp = rot_span_e(
            self.cos_t,
            self.sin_t,
            inner.min.x,
            inner.max.x,
            inner.min.z,
            inner.max.z,
        );
        let mut min = Vec3d::new(0, 0, 0);
        let mut max = Vec3d::new(0, 0, 0);
        min.y = inner.min.y;
        min.x = sp.0;
        min.z = sp.2;
        max.y = inner.max.y;
        max.x = sp.1;
        max.z = sp.3;
        BoundingBox::new(min, max)
    }

    pub fn hit(&self, ray: &Ray, t_min: i64, t_max: i64) -> (res: Option<HitRecord>)
        requires
            self.wf(),
            scene_ray_ok(*ray),
            -T_LIMIT <= t_min <= T_LIMIT,
            -T_LIMIT <= t_max <= T_LIMIT,
        ensures
            res == rotatey_hit_spec(*self, *ray, t_min as int, t_max as int),
    {
        let op = rot_pair_e(self.cos_t, -(self.sin_t), ray.origin.x, ray.origin.z);
        let dp = rot_pair_e(self.cos_t, -(self.sin_t), ray.direction.x, ray.direction.z);
        let mut io = ray.origin;
        let mut id = ray.direction;
        io.x = op.0;
        io.z = op.1;
        id.x = dp.0;
        id.z = dp.1;
        let ol = crate::ray::ORIGIN_LIMIT;
        let dl = crate::ray::DIR_LIMIT;
        if io.x < -ol || io.x > ol || io.y < -ol || io.y > ol || io.z < -ol || io.z > ol {
            return None;
        }
        if id.x < -dl || id.x > dl || id.y < -dl || id.y > dl || id.z < -dl || id.z > dl {
            return None;
        }
        if id.x == 0 && id.y == 0 && id.z == 0 {
            return None;
        }
        let iray = Ray::new(io, id, ray.time);
        match self.object.hit(&iray, t_min, t_max) {
            Some(rec) => {
                proof {
                    lemma_shape_hit_in_box(self.object, iray, t_min as int, t_max as int);
                    lemma_shape_box_bounds(self.object);
                }
                let nl = 0x200_0000_0000i64;
                if rec.normal.x < -nl || rec.normal.x > nl || rec.normal.y < -nl || rec.normal.y
                    > nl || rec.normal.z < -nl || rec.normal.z > nl {
                    return None;
                }
                let bx = self.stored_box();
                let p = ray.at(rec.t);
                if !inside_box_check(&bx, p, ray, rec.t) {
                    return None;
                }
                let pp = rot_pair_e(self.cos_t, self.sin_t, rec.point.x, rec.point.z);
                let np = rot_pair_e(self.cos_t, self.sin_t, rec.normal.x, rec.normal.z);
                let mut point = rec.point;
                let mut normal = rec.normal;
                point.x = pp.0;
                point.z = pp.1;
                normal.x = np.0;
                normal.z = np.1;
                Some(HitRecord { point, normal, ..rec })
            },
            None => None,
        }
    }
}

/// Turns a SHAPE about the z axis without rewriting its coordinates: rays
/// are turned into the shape's own frame, and the hit is turned back. The
/// sine and cosine of the angle are fixed-point values scaled by `T_SCALE`,
/// supplied by the caller.
#[derive(Clone, Copy, Debug, PartialEq, Eq, Structural)]
pub struct RotateZ {
    pub sin_t: i64,
    pub cos_t: i64,
    pub object: Shape,
}

impl RotateZ {
    pub open spec fn wf(self) -> bool {
        &&& -crate::T_SCALE <= self.sin_t <= crate::T_SCALE
        &&& -crate::T_SCALE <= self.cos_t <= crate::T_SCALE
        &&& shape_wf(self.object)
    }

    pub fn new(sin_t: i64, cos_t: i64, object: Shape) -> (r: RotateZ)
        requires
            -crate::T_SCALE <= sin_t <= crate::T_SCALE,
            -crate::T_SCALE <= cos_t <= crate::T_SCALE,
            shape_wf(object),
        ensures
            r == (RotateZ { sin_t, cos_t, object }),
            r.wf(),
    {
        RotateZ { sin_t, cos_t, object }
    }
}

/// The box that covers the given inner box turned out of the shape's frame,
/// widened by `pad` on the turning axes.
pub open spec fn rotatez_box_of(r: RotateZ, inner: BoundingBox, pad: int) -> BoundingBox {
    let sp = rot_span(
        r.cos_t as int,
        -(r.sin_t as int),
        inner.min.x as int,
        inner.max.x as int,
        inner.min.y as int,
        inner.max.y as int,
    );
    spec_box(
        Vec3d { z: inner.min.z, x: (sp.0 - pad) as i64, y: (sp.2 - pad) as i64 },
        Vec3d { z: inner.max.z, x: (sp.1 + pad) as i64, y: (sp.3 + pad) as i64 },
    )
}

/// The padded box the hierarchy stores for the turned shape.
pub open spec fn rotatez_box_spec(r: RotateZ) -> BoundingBox {
    rotatez_box_of(r, shape_box(r.object), PAD as int)
}

/// The tight extent of the turned shape: the turned corners of the inner
/// tight box.
pub open spec fn rotatez_tight_box(r: RotateZ) -> BoundingBox {
    rotatez_box_of(r, shape_tight_box(r.object), 0)
}

/// The ray turned into the shape's frame, rounding down.
pub open spec fn rotatez_in_ray(r: RotateZ, ray: Ray) -> Ray {
    Ray {
        origin: Vec3d {
            z: ray.origin.z,
            x: rot_u(r.cos_t as int, r.sin_t as int, ray.origin.x as int, ray.origin.y as int) as i64,
            y: rot_v(r.cos_t as int, r.sin_t as int, ray.origin.x as int, ray.origin.y as int) as i64,
        },
        direction: Vec3d {
            z: ray.direction.z,
            x: rot_u(r.cos_t as int, r.sin_t as int, ray.direction.x as int, ray.direction.y as int) as i64,
            y: rot_v(r.cos_t as int, r.sin_t as int, ray.direction.x as int, ray.direction.y as int) as i64,
        },
        time: ray.time,
    }
}

/// A vector turned back out of the shape's frame.
pub open spec fn rotatez_back_vec(r: RotateZ, p: Vec3d) -> Vec3d {
    Vec3d {
        z: p.z,
        x: rot_u(r.cos_t as int, -(r.sin_t as int), p.x as int, p.y as int) as i64,
        y: rot_v(r.cos_t as int, -(r.sin_t as int), p.x as int, p.y as int) as i64,
    }
}

/// What the turned shape reports: the inner shape queried with the turned
/// ray, the hit turned back, gated on the stored box. A ray whose turned
/// form leaves the coordinate ranges the intersection arithmetic is proved
/// for reports nothing, as does a record whose normal does.
pub open spec fn rotatez_hit_spec(r: RotateZ, ray: Ray, tmin: int, tmax: int) -> Option<HitRecord> {
    let iray = rotatez_in_ray(r, ray);
    if !in_range(iray.origin, crate::ray::ORIGIN_LIMIT as int) || !in_range(
        iray.direction,
        crate::ray::DIR_LIMIT as int,
    ) || iray.direction.is_zero() {
        None
    } else {
        match shape_hit_spec(r.object, iray, tmin, tmax) {
            Some(rec) => if in_range(rec.normal, 0x200_0000_0000) && strictly_inside_at(
                rotatez_box_spec(r).min,
                rotatez_box_spec(r).max,
                ray.origin,
                ray.direction,
                rec.t as int,
                crate::T_SCALE as int,
            ) {
                Some(
                    HitRecord {
                        point: rotatez_back_vec(r, rec.point),
                        normal: rotatez_back_vec(r, rec.normal),
                        ..rec
                    },
                )
            } else {
                None
            },
            None => None,
        }
    }
}

impl RotateZ {
    /// The padded box the hierarchy stores for this turned shape.
    pub fn stored_box(&self) -> (b: BoundingBox)
        requires
            self.wf(),
        ensures
            b == rotatez_box_spec(*self),
            b.wf(),
    {
        let inner = self.object.stored_box();
        let sp = rot_span_e(
            self.cos_t,
            -(self.sin_t),
            inner.min.x,
            inner.max.x,
            inner.min.y,
            inner.max.y,
        );
        let mut min = Vec3d::new(0, 0, 0);
        let mut max = Vec3d::new(0, 0, 0);
        min.z = inner.min.z;
        min.x = sp.0 - PAD;
        min.y = sp.2 - PAD;
        max.z = inner.max.z;
        max.x = sp.1 + PAD;
        max.y = sp.3 + PAD;
        BoundingBox::new(min, max)
    }

    /// The tight extent of the turned shape.
    pub fn bounding_box(&self, time0: i64, time1: i64) -> (b: BoundingBox)
        requires
            self.wf(),
        ensures
            b == rotatez_tight_box(*self),
            b.wf(),
    {
        let inner = self.object.bounding_box(time0, time1);
        let sp = rot_span_e(
            self.cos_t,
            -(self.sin_t),
            inner.min.x,
            inner.max.x,
            inner.min.y,
            inner.max.y,
        );
        let mut min = Vec3d::new(0, 0, 0);
        let mut max = Vec3d::new(0, 0, 0);
        min.z = inner.min.z;
        min.x = sp.0;
        min.y = sp.2;
        max.z = inner.max.z;
        max.x = sp.1;
        max.y = sp.3;
        BoundingBox::new(min, max)
    }

    pub fn hit(&self, ray: &Ray, t_min: i64, t_max: i64) -> (res: Option<HitRecord>)
        requires
            self.wf(),
            scene_ray_ok(*ray),
            -T_LIMIT <= t_min <= T_LIMIT,
            -T_LIMIT <= t_max <= T_LIMIT,
        ensures
            res == rotatez_hit_spec(*self, *ray, t_min as int, t_max as int),
    {
        let op = rot_pair_e(self.cos_t, self.sin_t, ray.origin.x, ray.origin.y);
        let dp = rot_pair_e(self.cos_t, self.sin_t, ray.direction.x, ray.direction.y);
        let mut io = ray.origin;
        let mut id = ray.direction;
        io.x = op.0;
        io.y = op.1;
        id.x = dp.0;
        id.y = dp.1;
        let ol = crate::ray::ORIGIN_LIMIT;
        let dl = crate::ray::DIR_LIMIT;
        if io.x < -ol || io.x > ol || io.y < -ol || io.y > ol || io.z < -ol || io.z > ol {
            return None;
        }
        if id.x < -dl || id.x > dl || id.y < -dl || id.y > dl || id.z < -dl || id.z > dl {
            return None;
        }
        if id.x == 0 && id.y == 0 && id.z == 0 {
            return None;
        }
        let iray = Ray::new(io, id, ray.time);
        match self.object.hit(&iray, t_min, t_max) {
            Some(rec) => {
                proof {
                    lemma_shape_hit_in_box(self.object, iray, t_min as int, t_max as int);
                    lemma_shape_box_bounds(self.object);
                }
                let nl = 0x200_0000_0000i64;
                if rec.normal.x < -nl || rec.normal.x > nl || rec.normal.y < -nl || rec.normal.y
                    > nl || rec.normal.z < -nl || rec.normal.z > nl {
                    return None;
                }
                let bx = self.stored_box();
                let p = ray.at(rec.t);
                if !inside_box_check(&bx, p, ray, rec.t) {
                    return None;
                }
                let pp = rot_pair_e(self.cos_t, -(self.sin_t), rec.point.x, rec.point.y);
                let np = rot_pair_e(self.cos_t, -(self.sin_t), rec.normal.x, rec.normal.y);
                let mut point = rec.point;
                let mut normal = rec.normal;
                point.x = pp.0;
                point.y = pp.1;
                normal.x = np.0;
                normal.y = np.1;
                Some(HitRecord { point, normal, ..rec })
            },
            None => None,
        }
    }
}

/// Stretches a shape by per-axis factors without rewriting its coordinates:
/// rays are shrunk into the shape's own frame, and the hit point is
/// stretched back. The factors are fixed-point values scaled by `T_SCALE`.
#[derive(Clone, Copy, Debug, PartialEq, Eq, Structural)]
pub struct Scale {
    pub x: i64,
    pub y: i64,
    pub z: i64,
    pub object: Shape,
}

impl Scale {
    /// The factor range is a machine bound of the fixed-point model: wide
    /// enough for the usual shrinks and stretches, narrow enough that the
    /// stretched boxes stay in the proved coordinate range.
    pub open spec fn wf(self) -> bool {
        &&& crate::T_SCALE / 16 <= self.x <= 2 * crate::T_SCALE
        &&& crate::T_SCALE / 16 <= self.y <= 2 * crate::T_SCALE
        &&& crate::T_SCALE / 16 <= self.z <= 2 * crate::T_SCALE
        &&& shape_wf(self.object)
    }

    pub fn new(x: i64, y: i64, z: i64, object: Shape) -> (r: Scale)
        requires
            crate::T_SCALE / 16 <= x <= 2 * crate::T_SCALE,
            crate::T_SCALE / 16 <= y <= 2 * crate::T_SCALE,
            crate::T_SCALE / 16 <= z <= 2 * crate::T_SCALE,
            shape_wf(object),
        ensures
            r == (Scale { x, y, z, object }),
            r.wf(),
    {
        Scale { x, y, z, object }
    }
}

/// A coordinate divided by a fixed-point factor, rounding down.
pub open spec fn unscale(a: int, f: int) -> int {
    a * (crate::T_SCALE as int) / f
}

/// A coordinate multiplied by a fixed-point factor, rounding down.
pub open spec fn rescale(a: int, f: int) -> int {
    a * f / (crate::T_SCALE as int)
}

fn unscale_e(a: i64, f: i64) -> (r: i64)
    requires
        -0x200_0000_0000 <= a <= 0x200_0000_0000,
        crate::T_SCALE / 16 <= f <= 2 * crate::T_SCALE,
    ensures
        r == unscale(a as int, f as int),
        -0x2000_0000_0000 <= r <= 0x2000_0000_0000,
{
    proof {
        lemma_mul_bound(a as int, crate::T_SCALE as int, 0x200_0000_0000, crate::T_SCALE as int);
        assert(0x2000_0000_0000 * (f as int) >= 0x200_0000_0000 * (crate::T_SCALE as int))
            by (nonlinear_arith)
            requires
                f as int >= (crate::T_SCALE as int) / 16,
        ;
        crate::arith::lemma_div_range(
            (a as int) * (crate::T_SCALE as int),
            f as int,
            0x2000_0000_0000,
        );
    }
    div_floor((a as i128) * (crate::T_SCALE as i128), f as i128) as i64
}

fn rescale_e(a: i64, f: i64) -> (r: i64)
    requires
        -0x200_0000_0000 <= a <= 0x200_0000_0000,
        crate::T_SCALE / 16 <= f <= 2 * crate::T_SCALE,
    ensures
        r == rescale(a as int, f as int),
        -0x400_0000_0000 <= r <= 0x400_0000_0000,
{
    proof {
        lemma_mul_bound(a as int, f as int, 0x200_0000_0000, 2 * crate::T_SCALE as int);
        assert(0x400_0000_0000 * (crate::T_SCALE as int) >= 0x200_0000_0000 * (2 * (
        crate::T_SCALE as int))) by (nonlinear_arith);
        crate::arith::lemma_div_range(
            (a as int) * (f as int),
            crate::T_SCALE as int,
            0x400_0000_0000,
        );
    }
    div_floor((a as i128) * (f as i128), crate::T_SCALE as i128) as i64
}

/// The box that covers the given inner box stretched out of the shape's
/// frame, widened by `pad`.
pub open spec fn scale_box_of(sc: Scale, inner: BoundingBox, pad: int) -> BoundingBox {
    spec_box(
        Vec3d {
            x: (rescale(inner.min.x as int, sc.x as int) - pad) as i64,
            y: (rescale(inner.min.y as int, sc.y as int) - pad) as i64,
            z: (rescale(inner.min.z as int, sc.z as int) - pad) as i64,
        },
        Vec3d {
            x: (rescale(inner.max.x as int, sc.x as int) + pad) as i64,
            y: (rescale(inner.max.y as int, sc.y as int) + pad) as i64,
            z: (rescale(inner.max.z as int, sc.z as int) + pad) as i64,
        },
    )
}

/// The padded box the hierarchy stores for the stretched shape.
pub open spec fn scale_box_spec(sc: Scale) -> BoundingBox {
    scale_box_of(sc, shape_box(sc.object), PAD as int)
}

/// The tight extent of the stretched shape.
pub open spec fn scale_tight_box(sc: Scale) -> BoundingBox {
    scale_box_of(sc, shape_tight_box(sc.object), 0)
}

/// The ray shrunk into the shape's frame.
pub open spec fn scale_in_ray(sc: Scale, ray: Ray) -> Ray {
    Ray {
        origin: Vec3d {
            x: unscale(ray.origin.x as int, sc.x as int) as i64,
            y: unscale(ray.origin.y as int, sc.y as int) as i64,
            z: unscale(ray.origin.z as int, sc.z as int) as i64,
        },
        direction: Vec3d {
            x: unscale(ray.direction.x as int, sc.x as int) as i64,
            y: unscale(ray.direction.y as int, sc.y as int) as i64,
            z: unscale(ray.direction.z as int, sc.z as int) as i64,
        },
        time: ray.time,
    }
}

/// What the stretched shape reports: the inner shape queried with the
/// shrunk ray, the hit point stretched back, gated on the stored box. A ray
/// whose shrunk form leaves the proved coordinate ranges reports nothing.
pub open spec fn scale_hit_spec(sc: Scale, ray: Ray, tmin: int, tmax: int) -> Option<HitRecord> {
    let iray = scale_in_ray(sc, ray);
    if !in_range(iray.origin, crate::ray::ORIGIN_LIMIT as int) || !in_range(
        iray.direction,
        crate::ray::DIR_LIMIT as int,
    ) || iray.direction.is_zero() {
        None
    } else {
        match shape_hit_spec(sc.object, iray, tmin, tmax) {
            Some(rec) => if strictly_inside_at(
                scale_box_spec(sc).min,
                scale_box_spec(sc).max,
                ray.origin,
                ray.direction,
                rec.t as int,
                crate::T_SCALE as int,
            ) {
                Some(
                    HitRecord {
                        point: Vec3d {
                            x: rescale(rec.point.x as int, sc.x as int) as i64,
                            y: rescale(rec.point.y as int, sc.y as int) as i64,
                            z: rescale(rec.point.z as int, sc.z as int) as i64,
                        },
                        ..rec
                    },
                )
            } else {
                None
            },
            None => None,
        }
    }
}

impl Scale {
    /// The padded box the hierarchy stores for this stretched shape.
    pub fn stored_box(&self) -> (b: BoundingBox)
        requires
            self.wf(),
        ensures
            b == scale_box_spec(*self),
            b.wf(),
    {
        let inner = self.object.stored_box();
        proof {
            lemma_rescale_ordered(inner.min.x as int, inner.max.x as int, self.x as int);
            lemma_rescale_ordered(inner.min.y as int, inner.max.y as int, self.y as int);
            lemma_rescale_ordered(inner.min.z as int, inner.max.z as int, self.z as int);
            lemma_rescale_box_bound(inner.min.x as int, self.x as int);
            lemma_rescale_box_bound(inner.min.y as int, self.y as int);
            lemma_rescale_box_bound(inner.min.z as int, self.z as int);
            lemma_rescale_box_bound(inner.max.x as int, self.x as int);
            lemma_rescale_box_bound(inner.max.y as int, self.y as int);
            lemma_rescale_box_bound(inner.max.z as int, self.z as int);
        }
        let min = Vec3d::new(
            rescale_e(inner.min.x, self.x) - PAD,
            rescale_e(inner.min.y, self.y) - PAD,
            rescale_e(inner.min.z, self.z) - PAD,
        );
        let max = Vec3d::new(
            rescale_e(inner.max.x, self.x) + PAD,
            rescale_e(inner.max.y, self.y) + PAD,
            rescale_e(inner.max.z, self.z) + PAD,
        );
        BoundingBox::new(min, max)
    }

    /// The tight extent of the stretched shape.
    pub fn bounding_box(&self, time0: i64, time1: i64) -> (b: BoundingBox)
        requires
            self.wf(),
        ensures
            b == scale_tight_box(*self),
            b.wf(),
    {
        let inner = self.object.bounding_box(time0, time1);
        proof {
            lemma_rescale_ordered(inner.min.x as int, inner.max.x as int, self.x as int);
            lemma_rescale_ordered(inner.min.y as int, inner.max.y as int, self.y as int);
            lemma_rescale_ordered(inner.min.z as int, inner.max.z as int, self.z as int);
            lemma_rescale_box_bound(inner.min.x as int, self.x as int);
            lemma_rescale_box_bound(inner.min.y as int, self.y as int);
            lemma_rescale_box_bound(inner.min.z as int, self.z as int);
            lemma_rescale_box_bound(inner.max.x as int, self.x as int);
            lemma_rescale_box_bound(inner.max.y as int, self.y as int);
            lemma_rescale_box_bound(inner.max.z as int, self.z as int);
        }
        let min = Vec3d::new(
            rescale_e(inner.min.x, self.x),
            rescale_e(inner.min.y, self.y),
            rescale_e(inner.min.z, self.z),
        );
        let max = Vec3d::new(
            rescale_e(inner.max.x, self.x),
            rescale_e(inner.max.y, self.y),
            rescale_e(inner.max.z, self.z),
        );
        BoundingBox::new(min, max)
    }

    pub fn hit(&self, ray: &Ray, t_min: i64, t_max: i64) -> (res: Option<HitRecord>)
        requires
            self.wf(),
            scene_ray_ok(*ray),
            -T_LIMIT <= t_min <= T_LIMIT,
            -T_LIMIT <= t_max <= T_LIMIT,
        ensures
            res == scale_hit_spec(*self, *ray, t_min as int, t_max as int),
    {
        let io = Vec3d::new(
            unscale_e(ray.origin.x, self.x),
            unscale_e(ray.origin.y, self.y),
            unscale_e(ray.origin.z, self.z),
        );
        let id = Vec3d::new(
            unscale_e(ray.direction.x, self.x),
            unscale_e(ray.direction.y, self.y),
            unscale_e(ray.direction.z, self.z),
        );
        let ol = crate::ray::ORIGIN_LIMIT;
        let dl = crate::ray::DIR_LIMIT;
        if io.x < -ol || io.x > ol || io.y < -ol || io.y > ol || io.z < -ol || io.z > ol {
            return None;
        }
        if id.x < -dl || id.x > dl || id.y < -dl || id.y > dl || id.z < -dl || id.z > dl {
            return None;
        }
        if id.x == 0 && id.y == 0 && id.z == 0 {
            return None;
        }
        let iray = Ray::new(io, id, ray.time);
        match self.object.hit(&iray, t_min, t_max) {
            Some(rec) => {
                proof {
                    lemma_shape_hit_in_box(self.object, iray, t_min as int, t_max as int);
                    lemma_shape_box_bounds(self.object);
                }
                let bx = self.stored_box();
                let p = ray.at(rec.t);
                if !inside_box_check(&bx, p, ray, rec.t) {
                    return None;
                }
                let point = Vec3d::new(
                    rescale_e(rec.point.x, self.x),
                    rescale_e(rec.point.y, self.y),
                    rescale_e(rec.point.z, self.z),
                );
                Some(HitRecord { point, ..rec })
            },
            None => None,
        }
    }
}

/// A stretched box end stays within the widened coordinate range.
proof fn lemma_rescale_box_bound(a: int, f: int)
    requires
        -0x20_0080 <= a <= 0x20_0080,
        (crate::T_SCALE as int) / 16 <= f <= 2 * (crate::T_SCALE as int),
    ensures
        -0x40_0100 <= rescale(a, f) <= 0x40_0100,
{
    lemma_mul_bound(a, f, 0x20_0080, 2 * (crate::T_SCALE as int));
    assert(0x20_0080 * (2 * (crate::T_SCALE as int)) == 0x40_0100 * (crate::T_SCALE as int))
        by (nonlinear_arith);
    crate::arith::lemma_div_range(a * f, crate::T_SCALE as int, 0x40_0100);
}

/// Stretching keeps the order of box ends.
proof fn lemma_rescale_ordered(lo: int, hi: int, f: int)
    requires
        lo <= hi,
        f >= 1,
    ensures
        rescale(lo, f) <= rescale(hi, f),
{
    assert(lo * f <= hi * f) by (nonlinear_arith)
        requires
            lo <= hi,
            f >= 1,
    ;
    vstd::arithmetic::div_mod::lemma_div_is_ordered(lo * f, hi * f, crate::T_SCALE as int);
}

// ---------------------------------------------------------------------------
// Constant medium
// ---------------------------------------------------------------------------

/// The little gap past the entry hit at which the exit of the boundary is
/// sought.
pub const CM_GAP: i64 = 7;

/// A volume of constant density bounded by a shape. A ray scatters inside it
/// when its sampled free-flight distance ends before the ray leaves the
/// boundary. The free-flight distance is drawn by the caller (from an
/// exponential law with this density); the decision and the scatter point
/// are computed here, exactly, for every drawn value.
#[derive(Clone, Copy, Debug, PartialEq, Eq, Structural)]
pub struct ConstantMedium {
    pub boundary: Shape,
    /// The density the caller should draw free-flight distances for, scaled
    /// by `T_SCALE`; it does not enter the decision below.
    pub density: i64,
    pub material: usize,
}

impl ConstantMedium {
    pub open spec fn wf(self) -> bool {
        &&& shape_wf(self.boundary)
        &&& 0 < self.density
    }

    pub fn new(boundary: Shape, density: i64, material: usize) -> (r: ConstantMedium)
        requires
            shape_wf(boundary),
            0 < density,
        ensures
            r == (ConstantMedium { boundary, density, material }),
            r.wf(),
    {
        ConstantMedium { boundary, density, material }
    }
}

/// What the medium reports for a drawn free-flight distance `flight` (in
/// coordinate units): the boundary is queried twice for the entry and exit
/// hits, the span is clamped to the window, and the scatter happens at
/// `flight` along the ray past the entry when that still lies inside the
/// span. The record carries the fixed normal `(1, 0, 0)` and front face, as
/// an in-volume scatter has no surface orientation.
pub open spec fn cm_hit_spec(
    cm: ConstantMedium,
    ray: Ray,
    tmin: int,
    tmax: int,
    flight: int,
) -> Option<HitRecord> {
    match shape_hit_spec(cm.boundary, ray, -T_LIMIT as int, T_LIMIT as int) {
        None => None,
        Some(h1) => {
            let gap = if h1.t > T_LIMIT - CM_GAP {
                T_LIMIT as int
            } else {
                h1.t + CM_GAP
            };
            match shape_hit_spec(cm.boundary, ray, gap, T_LIMIT as int) {
                None => None,
                Some(h2) => {
                    let t1c = if (h1.t as int) < tmin {
                        tmin
                    } else {
                        h1.t as int
                    };
                    let t2 = if (h2.t as int) > tmax {
                        tmax
                    } else {
                        h2.t as int
                    };
                    if t1c >= t2 {
                        None
                    } else {
                        let t1 = if t1c < 0 {
                            0
                        } else {
                            t1c
                        };
                        let len = sqrt_floor(crate::vec3d::sdot(
                            ray.direction,
                            ray.direction,
                        ) as nat) as int;
                        let dist_inside = (t2 - t1) * len / (crate::T_SCALE as int);
                        if flight > dist_inside || t2 <= t1 {
                            None
                        } else {
                            let tq = t1 + flight * (crate::T_SCALE as int) / len;
                            if tq > T_LIMIT as int {
                                None
                            } else {
                                Some(
                                    HitRecord {
                                        point: spec_point_at(ray, tq),
                                        normal: Vec3d { x: crate::T_SCALE, y: 0, z: 0 },
                                        material: cm.material,
                                        t: tq as i64,
                                        u: 0,
                                        v: 0,
                                        front_face: true,
                                    },
                                )
                            }
                        }
                    }
                },
            }
        },
    }
}

impl ConstantMedium {
    /// Whether a ray with the given drawn free-flight distance scatters in
    /// the medium, and where; exact with respect to `cm_hit_spec` for every
    /// drawn value.
    pub fn hit(&self, ray: &Ray, t_min: i64, t_max: i64, flight: i64) -> (res: Option<HitRecord>)
        requires
            self.wf(),
            scene_ray_ok(*ray),
            -T_LIMIT <= t_min <= T_LIMIT,
            -T_LIMIT <= t_max <= T_LIMIT,
            0 <= flight <= T_LIMIT,
        ensures
            res == cm_hit_spec(*self, *ray, t_min as int, t_max as int, flight as int),
    {
        let h1 = match self.boundary.hit(ray, -T_LIMIT, T_LIMIT) {
            None => {
                return None;
            },
            Some(h) => h,
        };
        proof {
            lemma_shape_hit_in_box(self.boundary, *ray, -T_LIMIT as int, T_LIMIT as int);
        }
        let gap = if h1.t > T_LIMIT - CM_GAP {
            T_LIMIT
        } else {
            h1.t + CM_GAP
        };
        let h2 = match self.boundary.hit(ray, gap, T_LIMIT) {
            None => {
                return None;
            },
            Some(h) => h,
        };
        proof {
            lemma_shape_hit_in_box(self.boundary, *ray, gap as int, T_LIMIT as int);
        }
        let t1c = if h1.t < t_min {
            t_min
        } else {
            h1.t
        };
        let t2 = if h2.t > t_max {
            t_max
        } else {
            h2.t
        };
        if t1c >= t2 {
            return None;
        }
        let t1 = if t1c < 0 {
            0
        } else {
            t1c
        };
        proof {
            crate::vec3d::lemma_sdot_bound(
                ray.direction,
                ray.direction,
                crate::ray::DIR_LIMIT as int,
                crate::ray::DIR_LIMIT as int,
            );
            lemma_dot_self(ray.direction.x as int, ray.direction.y as int, ray.direction.z as int);
        }
        let l2 = ray.direction.dot(ray.direction);
        let len = isqrt(l2);
        proof {
            crate::sqrt::lemma_sqrt_floor_bounds(l2 as nat);
            if len == 0 {
                assert((len as int + 1) * (len as int + 1) == 1) by (nonlinear_arith)
                    requires
                        len == 0,
                ;
            }
            assert(len < 0x40_0000) by (nonlinear_arith)
                requires
                    (len as int) * (len as int) <= l2 as int,
                    l2 as int <= 3 * 0x400_0000_0000,
                    len >= 0,
            ;
            lemma_mul_bound((t2 - t1) as int, len as int, 0x200_0000_0000, 0x40_0000);
            assert(0x200_0000_0000 * 0x40_0000 <= 0x8000_0000_0000_0000 * (crate::T_SCALE as int))
                by (nonlinear_arith);
            crate::arith::lemma_div_range(
                ((t2 - t1) as int) * (len as int),
                crate::T_SCALE as int,
                0x8000_0000_0000_0000,
            );
            lemma_mul_bound(flight as int, crate::T_SCALE as int, T_LIMIT as int, crate::T_SCALE as int);
            crate::arith::lemma_div_range(
                (flight as int) * (crate::T_SCALE as int),
                len as int,
                (T_LIMIT as int) * (crate::T_SCALE as int),
            );
        }
        let dist_inside = div_floor(((t2 - t1) as i128) * (len as i128), crate::T_SCALE as i128);
        if (flight as i128) > dist_inside || t2 <= t1 {
            return None;
        }
        let tq = (t1 as i128) + div_floor((flight as i128) * (crate::T_SCALE as i128), len);
        if tq > T_LIMIT as i128 {
            return None;
        }
        let ti = tq as i64;
        let p = ray.at(ti);
        Some(
            HitRecord {
                point: p,
                normal: Vec3d { x: crate::T_SCALE, y: 0, z: 0 },
                material: self.material,
                t: ti,
                u: 0,
                v: 0,
                front_face: true,
            },
        )
    }
}

} // verus!
