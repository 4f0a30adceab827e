use vstd::prelude::*;
use crate::vec3d::{Vec3d, in_range, sdot, unit_scaled};
use crate::ray::{Ray, scene_ray_ok};
use crate::hit_record::{HitRecord, rec_ok};
use crate::colour::{RGB, rgb_nonneg, rgb_bounded, rgb_attenuation, EMIT_LIMIT};
use crate::sqrt::{isqrt, div_floor};
use crate::arith::{lemma_mul_bound, lemma_div_bound};
use crate::rng::random_in_range;

verus! {

/// The contract every material obeys: a scatter produces a well-formed ray
/// and a nonnegative attenuation of at most one per channel, and emission is
/// a fixed nonnegative bounded function of the surface point.
pub trait Material: Sized {
    /// The invariant the material's own fields satisfy.
    spec fn minv(&self) -> bool;

    /// The emitted radiance as a mathematical function.
    spec fn emitted_spec(&self, u: i64, v: i64, p: Vec3d) -> RGB;

    /// Whether this material can ever scatter; a pure emitter cannot.
    spec fn scatters(&self) -> bool;

    /// Returns scattered ray and an attenuation colour. May fail (pure
    /// absorption) and may draw randomness: only range facts hold of every
    /// outcome, and a material that never scatters returns nothing.
    fn scatter(&self, ray_in: &Ray, hit_record: &HitRecord) -> (r: Option<(Ray, RGB)>)
        requires
            self.minv(),
            rec_ok(*hit_record),
            scene_ray_ok(*ray_in),
        ensures
            r matches Some(pair) ==> scene_ray_ok(pair.0) && rgb_attenuation(pair.1),
            !self.scatters() ==> r is None,
    ;

    /// Return the colour of emitted light. Defaults to black for non-emissive
    /// materials.
    fn emitted(&self, u: i64, v: i64, p: Vec3d) -> (r: RGB)
        requires
            self.minv(),
        ensures
            r == self.emitted_spec(u, v, p),
            rgb_nonneg(r),
            rgb_bounded(r, EMIT_LIMIT as int),
    ;
}

/// A random vector drawn from the cube of side two, in `T_SCALE` units,
/// rejected until it falls inside the unit ball and is not zero, then scaled
/// to the unit sphere. The number of draws is capped so that the function
/// terminates; after the cap an axis vector stands in, which keeps every
/// stated bound.
pub fn random_unit_vec() -> (r: Vec3d)
    ensures
        in_range(r, 2 * crate::T_SCALE as int),
{
    let mut tries: usize = 0;
    while tries < 64
        invariant
            tries <= 64,
        decreases 64 - tries,
    {
        let x = random_in_range(-crate::T_SCALE, crate::T_SCALE);
        let y = random_in_range(-crate::T_SCALE, crate::T_SCALE);
        let z = random_in_range(-crate::T_SCALE, crate::T_SCALE);
        let v = Vec3d { x, y, z };
        proof {
            crate::vec3d::lemma_sdot_bound(v, v, crate::T_SCALE as int, crate::T_SCALE as int);
        }
        let l2 = v.dot(v);
        proof {
            lemma_mul_bound(
                crate::T_SCALE as int,
                crate::T_SCALE as int,
                crate::T_SCALE as int,
                crate::T_SCALE as int,
            );
        }
        if 0 < l2 && l2 <= (crate::T_SCALE as i128) * (crate::T_SCALE as i128) {
            match unit_scaled(v) {
                Some(u) => {
                    return u;
                },
                None => {},
            }
        }
        tries = tries + 1;
    }
    Vec3d { x: crate::T_SCALE, y: 0, z: 0 }
}

/// The stored normal turned to face against the incoming ray and scaled to
/// unit length; nothing if it degenerates to zero.
fn facing_unit_normal(ray_in: &Ray, rec: &HitRecord) -> (r: Option<Vec3d>)
    requires
        rec_ok(*rec),
        scene_ray_ok(*ray_in),
    ensures
        r matches Some(u) ==> in_range(u, 2 * crate::T_SCALE as int),
{
    let n = if rec.front_face {
        rec.normal
    } else {
        rec.normal.neg()
    };
    proof {
        assert(in_range(n, 0x2000_0000_0000_0000));
    }
    unit_scaled(n)
}

/// The hit point brought back to ordinary scene coordinates, usable as the
/// origin of the next ray.
fn bounce_origin(rec: &HitRecord) -> (r: Vec3d)
    requires
        rec_ok(*rec),
    ensures
        in_range(r, crate::ray::SCENE_ORIGIN_LIMIT as int),
{
    let ts = crate::T_SCALE as i128;
    proof {
        crate::arith::lemma_div_range(
            rec.point.x as int,
            crate::T_SCALE as int,
            crate::aabb::BOX_LIMIT as int,
        );
        crate::arith::lemma_div_range(
            rec.point.y as int,
            crate::T_SCALE as int,
            crate::aabb::BOX_LIMIT as int,
        );
        crate::arith::lemma_div_range(
            rec.point.z as int,
            crate::T_SCALE as int,
            crate::aabb::BOX_LIMIT as int,
        );
        lemma_box_times_scale();
    }
    let x = div_floor(rec.point.x as i128, ts);
    let y = div_floor(rec.point.y as i128, ts);
    let z = div_floor(rec.point.z as i128, ts);
    Vec3d { x: x as i64, y: y as i64, z: z as i64 }
}

proof fn lemma_box_times_scale()
    ensures
        (crate::aabb::BOX_LIMIT as int) * (crate::T_SCALE as int) == 0x50_0000_0000,
{
    assert((crate::aabb::BOX_LIMIT as int) * (crate::T_SCALE as int) == 0x50_0000_0000)
        by (nonlinear_arith);
}

/// An ideal matte surface: scatters toward the normal plus a random unit
/// direction, attenuated by its own colour.
#[derive(Clone, Copy, Debug, PartialEq, Eq, Structural)]
pub struct Diffuse {
    pub albedo: RGB,
}

impl Diffuse {
    pub fn new(albedo: RGB) -> (r: Diffuse)
        requires
            rgb_attenuation(albedo),
        ensures
            r == (Diffuse { albedo }),
            r.minv(),
    {
        Diffuse { albedo }
    }
}

impl Material for Diffuse {
    open spec fn scatters(&self) -> bool {
        true
    }

    open spec fn minv(&self) -> bool {
        rgb_attenuation(self.albedo)
    }

    open spec fn emitted_spec(&self, u: i64, v: i64, p: Vec3d) -> RGB {
        RGB::spec_black()
    }

    fn scatter(&self, ray_in: &Ray, hit_record: &HitRecord) -> (r: Option<(Ray, RGB)>) {
        let n = match facing_unit_normal(ray_in, hit_record) {
            Some(n) => n,
            None => {
                return None;
            },
        };
        let rv = random_unit_vec();
        let mut dir = n.add(rv);
        if dir.x == 0 && dir.y == 0 && dir.z == 0 {
            dir = n;
        }
        if dir.x == 0 && dir.y == 0 && dir.z == 0 {
            return None;
        }
        let origin = bounce_origin(hit_record);
        let ray_out = Ray::new(origin, dir, ray_in.time);
        Some((ray_out, self.albedo))
    }

    fn emitted(&self, u: i64, v: i64, p: Vec3d) -> (r: RGB) {
        RGB::black()
    }
}

/// A reflective surface with an optional fuzz radius.
#[derive(Clone, Copy, Debug, PartialEq, Eq, Structural)]
pub struct Metal {
    pub albedo: RGB,
    pub fuzz: i64,
}

impl Metal {
    pub fn new(albedo: RGB, fuzz: i64) -> (r: Metal)
        requires
            rgb_attenuation(albedo),
            0 <= fuzz <= crate::T_SCALE,
        ensures
            r == (Metal { albedo, fuzz }),
            r.minv(),
    {
        Metal { albedo, fuzz }
    }
}

impl Material for Metal {
    open spec fn scatters(&self) -> bool {
        true
    }

    open spec fn minv(&self) -> bool {
        rgb_attenuation(self.albedo) && 0 <= self.fuzz <= crate::T_SCALE
    }

    open spec fn emitted_spec(&self, u: i64, v: i64, p: Vec3d) -> RGB {
        RGB::spec_black()
    }

    fn scatter(&self, ray_in: &Ray, hit_record: &HitRecord) -> (r: Option<(Ray, RGB)>) {
        let n = match facing_unit_normal(ray_in, hit_record) {
            Some(n) => n,
            None => {
                return None;
            },
        };
        let vin = match unit_scaled(ray_in.direction) {
            Some(v) => v,
            None => {
                return None;
            },
        };
        proof {
            crate::vec3d::lemma_sdot_bound(
                vin,
                n,
                2 * crate::T_SCALE as int,
                2 * crate::T_SCALE as int,
            );
            lemma_div_bound(sdot(vin, n), crate::T_SCALE as int, 0x10_0000_0000);
        }
        let d = div_floor(vin.dot(n), crate::T_SCALE as i128);
        // reflected = vin - 2 * (vin . n) * n / T_SCALE
        proof {
            lemma_mul_bound(d as int, n.x as int, 0x10_0000_0000, 2 * crate::T_SCALE as int);
            lemma_mul_bound(d as int, n.y as int, 0x10_0000_0000, 2 * crate::T_SCALE as int);
            lemma_mul_bound(d as int, n.z as int, 0x10_0000_0000, 2 * crate::T_SCALE as int);
            lemma_div_bound((d as int) * (n.x as int), crate::T_SCALE as int, 0x40_0000_0000_0000);
            lemma_div_bound((d as int) * (n.y as int), crate::T_SCALE as int, 0x40_0000_0000_0000);
            lemma_div_bound((d as int) * (n.z as int), crate::T_SCALE as int, 0x40_0000_0000_0000);
        }
        let px = div_floor(d * (n.x as i128), crate::T_SCALE as i128);
        let py = div_floor(d * (n.y as i128), crate::T_SCALE as i128);
        let pz = div_floor(d * (n.z as i128), crate::T_SCALE as i128);
        let rv = random_unit_vec();
        proof {
            lemma_mul_bound(
                self.fuzz as int,
                rv.x as int,
                crate::T_SCALE as int,
                2 * crate::T_SCALE as int,
            );
            lemma_mul_bound(
                self.fuzz as int,
                rv.y as int,
                crate::T_SCALE as int,
                2 * crate::T_SCALE as int,
            );
            lemma_mul_bound(
                self.fuzz as int,
                rv.z as int,
                crate::T_SCALE as int,
                2 * crate::T_SCALE as int,
            );
            lemma_div_bound(
                (self.fuzz as int) * (rv.x as int),
                crate::T_SCALE as int,
                0x2_0000_0000,
            );
            lemma_div_bound(
                (self.fuzz as int) * (rv.y as int),
                crate::T_SCALE as int,
                0x2_0000_0000,
            );
            lemma_div_bound(
                (self.fuzz as int) * (rv.z as int),
                crate::T_SCALE as int,
                0x2_0000_0000,
            );
        }
        let fx = div_floor((self.fuzz as i128) * (rv.x as i128), crate::T_SCALE as i128);
        let fy = div_floor((self.fuzz as i128) * (rv.y as i128), crate::T_SCALE as i128);
        let fz = div_floor((self.fuzz as i128) * (rv.z as i128), crate::T_SCALE as i128);
        let dir = Vec3d {
            x: vin.x - 2 * (px as i64) + (fx as i64),
            y: vin.y - 2 * (py as i64) + (fy as i64),
            z: vin.z - 2 * (pz as i64) + (fz as i64),
        };
        if dir.x == 0 && dir.y == 0 && dir.z == 0 {
            return None;
        }
        if dir.x < -crate::ray::DIR_LIMIT || dir.x > crate::ray::DIR_LIMIT || dir.y
            < -crate::ray::DIR_LIMIT || dir.y > crate::ray::DIR_LIMIT || dir.z
            < -crate::ray::DIR_LIMIT || dir.z > crate::ray::DIR_LIMIT {
            return None;
        }
        proof {
            crate::vec3d::lemma_sdot_bound(dir, n, crate::ray::DIR_LIMIT as int, 2 * crate::T_SCALE as int);
        }
        if dir.dot(n) <= 0 {
            return None;
        }
        let origin = bounce_origin(hit_record);
        let ray_out = Ray::new(origin, dir, ray_in.time);
        Some((ray_out, self.albedo))
    }

    fn emitted(&self, u: i64, v: i64, p: Vec3d) -> (r: RGB) {
        RGB::black()
    }
}

/// A surface that only emits light.
#[derive(Clone, Copy, Debug, PartialEq, Eq, Structural)]
pub struct DiffuseLight {
    pub emit: RGB,
}

impl DiffuseLight {
    pub fn new(emit: RGB) -> (r: DiffuseLight)
        requires
            rgb_nonneg(emit),
            rgb_bounded(emit, EMIT_LIMIT as int),
        ensures
            r == (DiffuseLight { emit }),
            r.minv(),
    {
        DiffuseLight { emit }
    }
}

impl Material for DiffuseLight {
    open spec fn scatters(&self) -> bool {
        false
    }

    open spec fn minv(&self) -> bool {
        rgb_nonneg(self.emit) && rgb_bounded(self.emit, EMIT_LIMIT as int)
    }

    open spec fn emitted_spec(&self, u: i64, v: i64, p: Vec3d) -> RGB {
        self.emit
    }

    fn scatter(&self, ray_in: &Ray, hit_record: &HitRecord) -> (r: Option<(Ray, RGB)>) {
        None
    }

    fn emitted(&self, u: i64, v: i64, p: Vec3d) -> (r: RGB) {
        self.emit
    }
}


/// A transparent refracting surface such as glass: refracts when it can,
/// reflects on total internal reflection or with Schlick's reflectance
/// probability, and never attenuates.
#[derive(Clone, Copy, Debug, PartialEq, Eq, Structural)]
pub struct Dielectric {
    /// The index of refraction, scaled by `T_SCALE`.
    pub refraction_index: i64,
}

impl Dielectric {
    /// The index range `[1/16, 16]` is a machine bound of the fixed-point
    /// model: it keeps the refraction ratio within the proved arithmetic
    /// ranges, and covers every physical glass comfortably.
    pub fn new(refraction_index: i64) -> (r: Dielectric)
        requires
            crate::T_SCALE / 16 <= refraction_index <= 16 * crate::T_SCALE,
        ensures
            r == (Dielectric { refraction_index }),
            r.minv(),
    {
        Dielectric { refraction_index }
    }

    /// Schlick's approximation for the reflectance, in `T_SCALE` units.
    fn reflectance(cos_theta: i64, refraction_ratio: i64) -> (r: i64)
        requires
            0 <= cos_theta <= crate::T_SCALE,
            0 < refraction_ratio <= 0x100_0000,
        ensures
            0 <= r,
    {
        let ts = crate::T_SCALE as i128;
        // r0 = ((1 - ratio) / (1 + ratio))^2
        let num = ts - (refraction_ratio as i128);
        let den = ts + (refraction_ratio as i128);
        proof {
            lemma_mul_bound(num as int, crate::T_SCALE as int, 0x100_0000, crate::T_SCALE as int);
            crate::arith::lemma_div_range(
                (num as int) * (crate::T_SCALE as int),
                den as int,
                0x100_0000,
            );
        }
        let r0 = div_floor(num * ts, den);
        proof {
            lemma_mul_bound(r0 as int, r0 as int, 0x100_0000, 0x100_0000);
            crate::arith::lemma_div_range(
                (r0 as int) * (r0 as int),
                crate::T_SCALE as int,
                0x1_0000_0000_0000,
            );
        }
        let r0s = div_floor(r0 * r0, ts);
        // (1 - cos)^5 in fixed point, by repeated squaring and multiplying.
        let x = (crate::T_SCALE - cos_theta) as i128;
        proof {
            lemma_mul_bound(x as int, x as int, crate::T_SCALE as int, crate::T_SCALE as int);
            crate::arith::lemma_div_range(
                (x as int) * (x as int),
                crate::T_SCALE as int,
                crate::T_SCALE as int,
            );
        }
        let x2 = div_floor(x * x, ts);
        proof {
            lemma_mul_bound(x2 as int, x2 as int, crate::T_SCALE as int, crate::T_SCALE as int);
            crate::arith::lemma_div_range(
                (x2 as int) * (x2 as int),
                crate::T_SCALE as int,
                crate::T_SCALE as int,
            );
        }
        let x4 = div_floor(x2 * x2, ts);
        proof {
            lemma_mul_bound(x4 as int, x as int, crate::T_SCALE as int, crate::T_SCALE as int);
            crate::arith::lemma_div_range(
                (x4 as int) * (x as int),
                crate::T_SCALE as int,
                crate::T_SCALE as int,
            );
        }
        let x5 = div_floor(x4 * x, ts);
        proof {
            lemma_mul_bound(
                (ts as int) - (r0s as int),
                x5 as int,
                0x2_0000_0000_0000,
                crate::T_SCALE as int,
            );
            lemma_div_bound(
                ((ts as int) - (r0s as int)) * (x5 as int),
                crate::T_SCALE as int,
                0x2_0000_0000_0000_0000_0000,
            );
        }
        let tail = div_floor((ts - r0s) * x5, ts);
        let total = r0s + tail;
        if total < 0 {
            0
        } else if total > ts {
            crate::T_SCALE
        } else {
            total as i64
        }
    }
}

impl Material for Dielectric {
    open spec fn scatters(&self) -> bool {
        true
    }

    open spec fn minv(&self) -> bool {
        crate::T_SCALE / 16 <= self.refraction_index <= 16 * crate::T_SCALE
    }

    open spec fn emitted_spec(&self, u: i64, v: i64, p: Vec3d) -> RGB {
        RGB::spec_black()
    }

    fn scatter(&self, ray_in: &Ray, hit_record: &HitRecord) -> (r: Option<(Ray, RGB)>) {
        let ts = crate::T_SCALE as i128;
        proof {
            lemma_mul_bound(
                crate::T_SCALE as int,
                crate::T_SCALE as int,
                crate::T_SCALE as int,
                crate::T_SCALE as int,
            );
        }
        let n = match facing_unit_normal(ray_in, hit_record) {
            Some(n) => n,
            None => {
                return None;
            },
        };
        let vin = match unit_scaled(ray_in.direction) {
            Some(v) => v,
            None => {
                return None;
            },
        };
        // ratio = 1/index leaving a front face, index entering a back face.
        let refraction_ratio: i64 = if hit_record.front_face {
            proof {
                lemma_mul_bound(
                    crate::T_SCALE as int,
                    crate::T_SCALE as int,
                    crate::T_SCALE as int,
                    crate::T_SCALE as int,
                );
                lemma_div_bound(
                    (crate::T_SCALE as int) * (crate::T_SCALE as int),
                    self.refraction_index as int,
                    0x1_0000_0000,
                );
            }
            let q = div_floor(ts * ts, self.refraction_index as i128);
            if q < 1 {
                1
            } else if q > 0x100_0000 {
                0x100_0000
            } else {
                q as i64
            }
        } else {
            self.refraction_index
        };
        proof {
            crate::vec3d::lemma_sdot_bound(
                vin,
                n,
                2 * crate::T_SCALE as int,
                2 * crate::T_SCALE as int,
            );
            lemma_div_bound(sdot(vin, n), crate::T_SCALE as int, 0x10_0000_0000);
        }
        let mut cos_theta = -(div_floor(vin.dot(n), ts) as i64);
        if cos_theta > crate::T_SCALE {
            cos_theta = crate::T_SCALE;
        }
        if cos_theta < 0 {
            cos_theta = 0;
        }
        proof {
            lemma_mul_bound(cos_theta as int, cos_theta as int, crate::T_SCALE as int, crate::T_SCALE as int);
        }
        let sin2 = ts * ts - (cos_theta as i128) * (cos_theta as i128);
        let sin_theta = isqrt(if sin2 < 0 {
            0
        } else {
            sin2
        });
        proof {
            lemma_mul_bound(refraction_ratio as int, sin_theta as int, 0x100_0000, 0x8000_0000_0000_0000);
        }
        let cannot_refract = (refraction_ratio as i128) * sin_theta > ts * ts;
        let reflect_anyway = Self::reflectance(cos_theta, refraction_ratio) > random_in_range(
            0,
            crate::T_SCALE,
        );
        let dir: Vec3d = if cannot_refract || reflect_anyway {
            // reflected = vin - 2 * (vin . n) * n / T_SCALE
            let d = div_floor(vin.dot(n), ts);
            proof {
                lemma_mul_bound(d as int, n.x as int, 0x10_0000_0000, 2 * crate::T_SCALE as int);
                lemma_mul_bound(d as int, n.y as int, 0x10_0000_0000, 2 * crate::T_SCALE as int);
                lemma_mul_bound(d as int, n.z as int, 0x10_0000_0000, 2 * crate::T_SCALE as int);
                lemma_div_bound((d as int) * (n.x as int), crate::T_SCALE as int, 0x40_0000_0000_0000);
                lemma_div_bound((d as int) * (n.y as int), crate::T_SCALE as int, 0x40_0000_0000_0000);
                lemma_div_bound((d as int) * (n.z as int), crate::T_SCALE as int, 0x40_0000_0000_0000);
            }
            let px = div_floor(d * (n.x as i128), ts);
            let py = div_floor(d * (n.y as i128), ts);
            let pz = div_floor(d * (n.z as i128), ts);
            Vec3d::new(
                vin.x - 2 * (px as i64),
                vin.y - 2 * (py as i64),
                vin.z - 2 * (pz as i64),
            )
        } else {
            // perpendicular = ratio * (vin + cos * n / T_SCALE) / T_SCALE
            proof {
                lemma_mul_bound(cos_theta as int, n.x as int, crate::T_SCALE as int, 2 * crate::T_SCALE as int);
                lemma_mul_bound(cos_theta as int, n.y as int, crate::T_SCALE as int, 2 * crate::T_SCALE as int);
                lemma_mul_bound(cos_theta as int, n.z as int, crate::T_SCALE as int, 2 * crate::T_SCALE as int);
                lemma_div_bound((cos_theta as int) * (n.x as int), crate::T_SCALE as int, 0x2_0000_0000);
                lemma_div_bound((cos_theta as int) * (n.y as int), crate::T_SCALE as int, 0x2_0000_0000);
                lemma_div_bound((cos_theta as int) * (n.z as int), crate::T_SCALE as int, 0x2_0000_0000);
            }
            let cx = vin.x as i128 + div_floor((cos_theta as i128) * (n.x as i128), ts);
            let cy = vin.y as i128 + div_floor((cos_theta as i128) * (n.y as i128), ts);
            let cz = vin.z as i128 + div_floor((cos_theta as i128) * (n.z as i128), ts);
            proof {
                lemma_mul_bound(refraction_ratio as int, cx as int, 0x100_0000, 0x4_0000_0000);
                lemma_mul_bound(refraction_ratio as int, cy as int, 0x100_0000, 0x4_0000_0000);
                lemma_mul_bound(refraction_ratio as int, cz as int, 0x100_0000, 0x4_0000_0000);
                lemma_div_bound(
                    (refraction_ratio as int) * (cx as int),
                    crate::T_SCALE as int,
                    0x400_0000_0000_0000,
                );
                lemma_div_bound(
                    (refraction_ratio as int) * (cy as int),
                    crate::T_SCALE as int,
                    0x400_0000_0000_0000,
                );
                lemma_div_bound(
                    (refraction_ratio as int) * (cz as int),
                    crate::T_SCALE as int,
                    0x400_0000_0000_0000,
                );
            }
            let ppx = div_floor((refraction_ratio as i128) * cx, ts);
            let ppy = div_floor((refraction_ratio as i128) * cy, ts);
            let ppz = div_floor((refraction_ratio as i128) * cz, ts);
            // parallel = -sqrt(|T_SCALE^2 - |perp|^2|) * n / T_SCALE
            proof {
                lemma_mul_bound(ppx as int, ppx as int, 0x400_0000_0000_0000, 0x400_0000_0000_0000);
                lemma_mul_bound(ppy as int, ppy as int, 0x400_0000_0000_0000, 0x400_0000_0000_0000);
                lemma_mul_bound(ppz as int, ppz as int, 0x400_0000_0000_0000, 0x400_0000_0000_0000);
            }
            let pp2 = ppx * ppx + ppy * ppy + ppz * ppz;
            let rest = ts * ts - pp2;
            let par = isqrt(if rest < 0 {
                0
            } else {
                rest
            });
            proof {
                lemma_mul_bound(par as int, n.x as int, 0x8000_0000_0000_0000, 2 * crate::T_SCALE as int);
                lemma_mul_bound(par as int, n.y as int, 0x8000_0000_0000_0000, 2 * crate::T_SCALE as int);
                lemma_mul_bound(par as int, n.z as int, 0x8000_0000_0000_0000, 2 * crate::T_SCALE as int);
                lemma_div_bound((par as int) * (n.x as int), crate::T_SCALE as int, 0x2_0000_0000_0000_0000_0000);
                lemma_div_bound((par as int) * (n.y as int), crate::T_SCALE as int, 0x2_0000_0000_0000_0000_0000);
                lemma_div_bound((par as int) * (n.z as int), crate::T_SCALE as int, 0x2_0000_0000_0000_0000_0000);
            }
            let qx = div_floor(par * (n.x as i128), ts);
            let qy = div_floor(par * (n.y as i128), ts);
            let qz = div_floor(par * (n.z as i128), ts);
            let fx = ppx - qx;
            let fy = ppy - qy;
            let fz = ppz - qz;
            let lim = crate::ray::DIR_LIMIT as i128;
            if fx < -lim || fx > lim || fy < -lim || fy > lim || fz < -lim || fz > lim {
                return None;
            }
            Vec3d::new(fx as i64, fy as i64, fz as i64)
        };
        if dir.x == 0 && dir.y == 0 && dir.z == 0 {
            return None;
        }
        if dir.x < -crate::ray::DIR_LIMIT || dir.x > crate::ray::DIR_LIMIT || dir.y
            < -crate::ray::DIR_LIMIT || dir.y > crate::ray::DIR_LIMIT || dir.z
            < -crate::ray::DIR_LIMIT || dir.z > crate::ray::DIR_LIMIT {
            return None;
        }
        let origin = bounce_origin(hit_record);
        let ray_out = Ray::new(origin, dir, ray_in.time);
        Some((ray_out, RGB(crate::T_SCALE, crate::T_SCALE, crate::T_SCALE)))
    }

    fn emitted(&self, u: i64, v: i64, p: Vec3d) -> (r: RGB) {
        RGB::black()
    }
}


/// A material that scatters uniformly in all directions, regardless of the
/// surface orientation: the phase function of a volumetric medium.
#[derive(Clone, Copy, Debug, PartialEq, Eq, Structural)]
pub struct Isotropic {
    pub albedo: RGB,
}

impl Isotropic {
    pub fn build_from_colour(colour: RGB) -> (r: Isotropic)
        requires
            rgb_attenuation(colour),
        ensures
            r == (Isotropic { albedo: colour }),
            r.minv(),
    {
        Isotropic { albedo: colour }
    }
}

impl Material for Isotropic {
    open spec fn scatters(&self) -> bool {
        true
    }

    open spec fn minv(&self) -> bool {
        rgb_attenuation(self.albedo)
    }

    open spec fn emitted_spec(&self, u: i64, v: i64, p: Vec3d) -> RGB {
        RGB::spec_black()
    }

    fn scatter(&self, ray_in: &Ray, hit_record: &HitRecord) -> (r: Option<(Ray, RGB)>) {
        let dir = random_unit_vec();
        if dir.x == 0 && dir.y == 0 && dir.z == 0 {
            return None;
        }
        let origin = bounce_origin(hit_record);
        let ray_out = Ray::new(origin, dir, ray_in.time);
        Some((ray_out, self.albedo))
    }

    fn emitted(&self, u: i64, v: i64, p: Vec3d) -> (r: RGB) {
        RGB::black()
    }
}

/// The closed set of built-in materials a scene may mix freely.
#[derive(Clone, Copy, Debug, PartialEq, Eq, Structural)]
pub enum BasicMaterial {
    Diffuse(Diffuse),
    Metal(Metal),
    Dielectric(Dielectric),
    DiffuseLight(DiffuseLight),
    Isotropic(Isotropic),
}

impl Material for BasicMaterial {
    open spec fn scatters(&self) -> bool {
        match self {
            BasicMaterial::Diffuse(m) => m.scatters(),
            BasicMaterial::Metal(m) => m.scatters(),
            BasicMaterial::Dielectric(m) => m.scatters(),
            BasicMaterial::DiffuseLight(m) => m.scatters(),
            BasicMaterial::Isotropic(m) => m.scatters(),
        }
    }

    open spec fn minv(&self) -> bool {
        match self {
            BasicMaterial::Diffuse(m) => m.minv(),
            BasicMaterial::Metal(m) => m.minv(),
            BasicMaterial::Dielectric(m) => m.minv(),
            BasicMaterial::DiffuseLight(m) => m.minv(),
            BasicMaterial::Isotropic(m) => m.minv(),
        }
    }

    open spec fn emitted_spec(&self, u: i64, v: i64, p: Vec3d) -> RGB {
        match self {
            BasicMaterial::Diffuse(m) => m.emitted_spec(u, v, p),
            BasicMaterial::Metal(m) => m.emitted_spec(u, v, p),
            BasicMaterial::Dielectric(m) => m.emitted_spec(u, v, p),
            BasicMaterial::DiffuseLight(m) => m.emitted_spec(u, v, p),
            BasicMaterial::Isotropic(m) => m.emitted_spec(u, v, p),
        }
    }

    fn scatter(&self, ray_in: &Ray, hit_record: &HitRecord) -> (r: Option<(Ray, RGB)>) {
        match self {
            BasicMaterial::Diffuse(m) => m.scatter(ray_in, hit_record),
            BasicMaterial::Metal(m) => m.scatter(ray_in, hit_record),
            BasicMaterial::Dielectric(m) => m.scatter(ray_in, hit_record),
            BasicMaterial::DiffuseLight(m) => m.scatter(ray_in, hit_record),
            BasicMaterial::Isotropic(m) => m.scatter(ray_in, hit_record),
        }
    }

    fn emitted(&self, u: i64, v: i64, p: Vec3d) -> (r: RGB) {
        match self {
            BasicMaterial::Diffuse(m) => m.emitted(u, v, p),
            BasicMaterial::Metal(m) => m.emitted(u, v, p),
            BasicMaterial::Dielectric(m) => m.emitted(u, v, p),
            BasicMaterial::DiffuseLight(m) => m.emitted(u, v, p),
            BasicMaterial::Isotropic(m) => m.emitted(u, v, p),
        }
    }
}

} // verus!
