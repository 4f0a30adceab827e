use vstd::prelude::*;
use crate::vec3d::{Vec3d, in_range, sdot};
use crate::ray::{Ray, T_LIMIT, scene_ray_ok};
use crate::bvh::Bvh;
use crate::hittable::scene_hit;
use crate::colour::{RGB, rgb_nonneg, rgb_bounded, EMIT_LIMIT};
use crate::material::Material;
use crate::hit_record::rec_ok;
use crate::sqrt::{sqrt_floor, isqrt, div_floor};
use crate::arith::{lemma_mul_bound, lemma_div_bound, lemma_div_range, lemma_dot_self};

verus! {

/// The lower end of every primary intersection window: a hair above zero, so
/// that a bounced ray does not find the surface it just left.
pub const T_EPS: i64 = 66;

/// The greatest channel value a path of the given depth can accumulate.
pub open spec fn colour_bound(depth: int) -> int {
    depth * (EMIT_LIMIT as int) + (crate::T_SCALE as int)
}

/// Every material in the scene's list satisfies its own invariant.
pub open spec fn all_minv<M: Material>(ms: Seq<M>) -> bool {
    forall|k: int| 0 <= k < ms.len() ==> (#[trigger] ms[k]).minv()
}

/// The sky colour for a miss: white at the horizon blending to blue upward,
/// from the vertical component of the ray direction scaled to unit length.
pub open spec fn spec_sky_colour(d: Vec3d) -> RGB {
    let ts = crate::T_SCALE as int;
    let l = sqrt_floor(sdot(d, d) as nat) as int;
    let uy = if l >= 1 {
        d.y * ts / l
    } else {
        0
    };
    let t0 = (uy + ts) / 2;
    let t = if t0 < 0 {
        0
    } else if t0 > ts {
        ts
    } else {
        t0
    };
    RGB(
        (((ts - t) * ts + t * (ts / 2)) / ts) as i64,
        (((ts - t) * ts + t * (7 * ts / 10)) / ts) as i64,
        crate::T_SCALE,
    )
}

/// A blend of two channel values never leaves their range.
proof fn lemma_blend_channel(t: int, c: int)
    requires
        0 <= t <= crate::T_SCALE as int,
        0 <= c <= crate::T_SCALE as int,
    ensures
        0 <= ((crate::T_SCALE as int) - t) * (crate::T_SCALE as int) + t * c <= (
        crate::T_SCALE as int) * (crate::T_SCALE as int),
        0 <= (((crate::T_SCALE as int) - t) * (crate::T_SCALE as int) + t * c) / (
        crate::T_SCALE as int) <= crate::T_SCALE as int,
{
    let ts = crate::T_SCALE as int;
    assert(0 <= (ts - t) * ts + t * c <= ts * ts) by (nonlinear_arith)
        requires
            0 <= t <= ts,
            0 <= c <= ts,
            ts > 0,
    ;
    lemma_div_range((ts - t) * ts + t * c, ts, ts);
}

/// The sky colour, executable and exact.
pub fn sky_colour(d: Vec3d) -> (r: RGB)
    requires
        in_range(d, crate::ray::DIR_LIMIT as int),
    ensures
        r == spec_sky_colour(d),
        rgb_nonneg(r),
        rgb_bounded(r, crate::T_SCALE as int),
{
    let ts = crate::T_SCALE as i128;
    proof {
        crate::vec3d::lemma_sdot_bound(
            d,
            d,
            crate::ray::DIR_LIMIT as int,
            crate::ray::DIR_LIMIT as int,
        );
        lemma_dot_self(d.x as int, d.y as int, d.z as int);
    }
    let l2 = d.dot(d);
    let l = isqrt(l2);
    let uy: i128 = if l >= 1 {
        proof {
            lemma_mul_bound(d.y as int, crate::T_SCALE as int, crate::ray::DIR_LIMIT as int, crate::T_SCALE as int);
            lemma_div_bound(
                (d.y as int) * (crate::T_SCALE as int),
                l as int,
                0x200_0000_0000,
            );
        }
        div_floor((d.y as i128) * ts, l)
    } else {
        0
    };
    let t0 = div_floor(uy + ts, 2);
    let t: i128 = if t0 < 0 {
        0
    } else if t0 > ts {
        ts
    } else {
        t0
    };
    proof {
        lemma_blend_channel(t as int, (crate::T_SCALE as int) / 2);
        lemma_blend_channel(t as int, 7 * (crate::T_SCALE as int) / 10);
    }
    let cr = div_floor((ts - t) * ts + t * (ts / 2), ts);
    let cg = div_floor((ts - t) * ts + t * (7 * ts / 10), ts);
    RGB(cr as i64, cg as i64, crate::T_SCALE)
}

/// One sample of the light reaching the camera along a ray: the recursive
/// Monte-carlo path integrator. At depth zero the answer is black; on a miss
/// it is exactly the sky gradient or black; on a hit it is the surface's
/// emission plus its attenuation of the bounced ray's colour, so whatever
/// the scatter draw does, every channel is at least the emitted radiance of
/// the surface that was hit, and a surface that never scatters yields
/// exactly its emission. A record whose material index or stored values
/// fall outside the ranges the materials are specified for ends the path
/// with black, and only such a record does. Every channel of the answer is
/// nonnegative and bounded by `colour_bound`.
pub fn ray_colour<M: Material>(
    ray: &Ray,
    bvh: &Bvh,
    materials: &Vec<M>,
    max_depth: usize,
    use_sky_background: bool,
) -> (r: RGB)
    requires
        bvh.wf(),
        scene_ray_ok(*ray),
        all_minv(materials@),
        max_depth <= 64,
    ensures
        rgb_nonneg(r),
        rgb_bounded(r, colour_bound(max_depth as int)),
        max_depth == 0 ==> r == RGB::spec_black(),
        (max_depth > 0 && scene_hit(bvh.spec_items(), *ray, T_EPS as int, T_LIMIT as int)
            is None) ==> r == (if use_sky_background {
            spec_sky_colour(ray.direction)
        } else {
            RGB::spec_black()
        }),
        max_depth > 0 ==> (scene_hit(bvh.spec_items(), *ray, T_EPS as int, T_LIMIT as int)
            matches Some(hr) ==> ((hr.material >= materials@.len() || !rec_ok(hr)) ==> r
            == RGB::spec_black())),
        max_depth > 0 ==> (scene_hit(bvh.spec_items(), *ray, T_EPS as int, T_LIMIT as int)
            matches Some(hr) ==> ((hr.material < materials@.len() && rec_ok(hr)) ==> ({
            let em = materials@[hr.material as int].emitted_spec(hr.u, hr.v, hr.point);
            em.0 <= r.0 && em.1 <= r.1 && em.2 <= r.2
        }))),
        max_depth > 0 ==> (scene_hit(bvh.spec_items(), *ray, T_EPS as int, T_LIMIT as int)
            matches Some(hr) ==> ((hr.material < materials@.len() && rec_ok(hr)
            && !materials@[hr.material as int].scatters()) ==> r == materials@[
            hr.material as int].emitted_spec(hr.u, hr.v, hr.point))),
    decreases max_depth,
{
    if max_depth == 0 {
        return RGB::black();
    }
    proof {
        assert(colour_bound(max_depth as int) >= crate::T_SCALE as int) by (nonlinear_arith)
            requires
                max_depth >= 1,
        ;
        assert(colour_bound(max_depth as int) == colour_bound(max_depth as int - 1) + (
        EMIT_LIMIT as int)) by (nonlinear_arith);
        assert(colour_bound(max_depth as int - 1) <= 64 * (EMIT_LIMIT as int) + (
        crate::T_SCALE as int)) by (nonlinear_arith)
            requires
                max_depth <= 64,
        ;
    }
    match bvh.hit(ray, T_EPS, T_LIMIT) {
        Some(hr) => {
            // A record that steps outside the bounds the materials are
            // specified for ends the path; the checks mirror `rec_ok`.
            if hr.material >= materials.len() {
                return RGB::black();
            }
            let lim = 0x50_0000_0000i64;
            if hr.point.x < -lim || hr.point.x > lim || hr.point.y < -lim || hr.point.y > lim
                || hr.point.z < -lim || hr.point.z > lim {
                return RGB::black();
            }
            let nlim = 0x2000_0000_0000_0000i64;
            if hr.normal.x < -nlim || hr.normal.x > nlim || hr.normal.y < -nlim || hr.normal.y
                > nlim || hr.normal.z < -nlim || hr.normal.z > nlim {
                return RGB::black();
            }
            if hr.t < -T_LIMIT || hr.t > T_LIMIT {
                return RGB::black();
            }
            proof {
                assert((crate::aabb::BOX_LIMIT as int) * (crate::T_SCALE as int)
                    == 0x50_0000_0000) by (nonlinear_arith);
            }
            let m = &materials[hr.material];
            let em = m.emitted(hr.u, hr.v, hr.point);
            match m.scatter(ray, &hr) {
                Some(pair) => {
                    let (ray_out, attenuation) = pair;
                    let rest = ray_colour(&ray_out, bvh, materials, max_depth - 1, use_sky_background);
                    let bounced = rest.attenuate(attenuation);
                    em.add(bounced)
                },
                None => em,
            }
        },
        None => {
            if use_sky_background {
                sky_colour(ray.direction)
            } else {
                RGB::black()
            }
        },
    }
}

/// All pixel coordinates of the image as an ordered work list: row-major,
/// bottom row of the image first, left to right inside each row.
pub fn pixel_grid(image_width: usize, image_height: usize) -> (r: Vec<(usize, usize)>)
    requires
        image_width >= 1,
        image_width * image_height <= 0x1000_0000,
    ensures
        r@.len() == image_width * image_height,
        forall|k: int|
            0 <= k < r@.len() ==> (#[trigger] r@[k]) == (
                ((k % (image_width as int)) as usize),
                ((image_height - 1 - k / (image_width as int)) as usize),
            ),
{
    let mut pixels: Vec<(usize, usize)> = Vec::new();
    let mut j: usize = image_height;
    while j > 0
        invariant
            j <= image_height,
            image_width >= 1,
            image_width * image_height <= 0x1000_0000,
            pixels@.len() == image_width * (image_height - j),
            forall|k: int|
                0 <= k < pixels@.len() ==> (#[trigger] pixels@[k]) == (
                    ((k % (image_width as int)) as usize),
                    ((image_height - 1 - k / (image_width as int)) as usize),
                ),
        decreases j,
    {
        j = j - 1;
        let ghost row = (image_height - 1 - j) as int;
        let mut i: usize = 0;
        proof {
            assert((image_width as int) * (image_height as int - 1 - j) + 0 <= (
            image_width as int) * (image_height as int)) by (nonlinear_arith)
                requires
                    0 <= j < image_height,
                    image_width >= 1,
            ;
            assert(pixels@.len() == (image_width as int) * (image_height as int - 1 - j))
                by (nonlinear_arith)
                requires
                    pixels@.len() == (image_width as int) * (image_height as int - (j + 1)),
            ;
        }
        while i < image_width
            invariant
                i <= image_width,
                image_width >= 1,
                image_width * image_height <= 0x1000_0000,
                j < image_height,
                row == image_height - 1 - j,
                pixels@.len() == image_width * (image_height - 1 - j) + i,
                image_width * (image_height - 1 - j) + i <= image_width * image_height,
                forall|k: int|
                    0 <= k < pixels@.len() ==> (#[trigger] pixels@[k]) == (
                        ((k % (image_width as int)) as usize),
                        ((image_height - 1 - k / (image_width as int)) as usize),
                    ),
            decreases image_width - i,
        {
            proof {
                let w = image_width as int;
                let kk = w * (image_height - 1 - j) + i;
                vstd::arithmetic::div_mod::lemma_fundamental_div_mod_converse(
                    kk,
                    w,
                    image_height as int - 1 - j,
                    i as int,
                );
                vstd::arithmetic::div_mod::lemma_fundamental_div_mod_converse_mod(
                    kk,
                    w,
                    image_height as int - 1 - j,
                    i as int,
                );
                assert(kk == (image_height as int - 1 - j) * w + i) by (nonlinear_arith)
                    requires
                        kk == w * (image_height as int - 1 - j) + i,
                ;
                assert(image_width * (image_height - 1 - j) + (i + 1) <= image_width
                    * image_height) by (nonlinear_arith)
                    requires
                        j < image_height,
                        i < image_width,
                        image_width >= 1,
                ;
            }
            pixels.push((i, j));
            i = i + 1;
        }
        proof {
            assert(image_width * (image_height - 1 - j) + image_width == image_width * (
            image_height - j)) by (nonlinear_arith);
        }
    }
    proof {
        assert(image_width * (image_height - 0) == image_width * image_height);
    }
    pixels
}

} // verus!
