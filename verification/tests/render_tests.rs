use ray_tracer::vec3d::Vec3d;
use ray_tracer::ray::Ray;
use ray_tracer::objects::{Sphere, RectangleXZ, Shape, Primitive};
use ray_tracer::bvh::Bvh;
use ray_tracer::colour::RGB;
use ray_tracer::material::{BasicMaterial, Diffuse, Metal, Dielectric, DiffuseLight, Isotropic, random_unit_vec};
use ray_tracer::render::{ray_colour, sky_colour, pixel_grid};
use ray_tracer::resolution::{
    Resolution, get_low_resolution, get_cornell_square_resolution, get_medium_resolution,
    get_high_resolution,
};

const S: i64 = 65536;

fn v(x: i64, y: i64, z: i64) -> Vec3d {
    Vec3d::new(x, y, z)
}

fn small_scene() -> (Bvh, Vec<BasicMaterial>) {
    let items = vec![
        Primitive::Shape(Shape::Sphere(Sphere::new(v(0, 0, -3 * S), S, 0))),
        Primitive::Shape(Shape::RectangleXZ(RectangleXZ::new(
            -4 * S,
            4 * S,
            -6 * S,
            -2 * S,
            2 * S,
            1,
        ))),
        Primitive::Shape(Shape::Sphere(Sphere::new(v(2 * S, 0, -4 * S), S / 2, 2))),
    ];
    let (bvh, _) = Bvh::build(0, S, items);
    let materials = vec![
        BasicMaterial::Diffuse(Diffuse::new(RGB(S / 2, S / 2, S / 2))),
        BasicMaterial::DiffuseLight(DiffuseLight::new(RGB(4 * S, 4 * S, 4 * S))),
        BasicMaterial::Metal(Metal::new(RGB(S * 9 / 10, S * 9 / 10, S * 9 / 10), S / 10)),
    ];
    (bvh, materials)
}

#[test]
fn ray_colour_at_depth_zero_is_black() {
    let (bvh, materials) = small_scene();
    let ray = Ray::new(v(0, 0, 0), v(0, 0, -S), 0);
    let c = ray_colour(&ray, &bvh, &materials, 0, true);
    assert_eq!(c, RGB(0, 0, 0));
    let c2 = ray_colour(&ray, &bvh, &materials, 0, false);
    assert_eq!(c2, RGB(0, 0, 0));
}

#[test]
fn ray_colour_channels_never_negative() {
    let (bvh, materials) = small_scene();
    for ix in -5..=5 {
        for iy in -5..=5 {
            let dir = v(ix * S / 8, iy * S / 8, -S);
            let ray = Ray::new(v(0, 0, 2 * S), dir, 0);
            for depth in [1usize, 3, 8] {
                for sky in [true, false] {
                    let c = ray_colour(&ray, &bvh, &materials, depth, sky);
                    assert!(c.0 >= 0 && c.1 >= 0 && c.2 >= 0);
                }
            }
        }
    }
}

#[test]
fn ray_colour_miss_without_sky_is_black() {
    let (bvh, materials) = small_scene();
    let ray = Ray::new(v(0, 0, 0), v(0, 0, S), 0);
    let c = ray_colour(&ray, &bvh, &materials, 8, false);
    assert_eq!(c, RGB(0, 0, 0));
}

#[test]
fn ray_colour_miss_with_sky_gives_gradient() {
    let (bvh, materials) = small_scene();
    let up = Ray::new(v(0, 0, 0), v(0, S, 0), 0);
    let c = ray_colour(&up, &bvh, &materials, 8, true);
    // Straight up: pure sky blue.
    assert_eq!(c, RGB(S / 2, 7 * S / 10, S));
    let level = Ray::new(v(0, 0, 0), v(0, 0, S), 0);
    let c2 = ray_colour(&level, &bvh, &materials, 8, true);
    // Level: the halfway blend between white and sky blue.
    assert_eq!(c2, sky_colour(v(0, 0, S)));
    assert_eq!(c2, RGB(3 * S / 4, (S + 7 * S / 10) / 2, S));
}

#[test]
fn sky_colour_matches_hand_computed_values() {
    assert_eq!(sky_colour(v(0, S, 0)), RGB(S / 2, 7 * S / 10, S));
    assert_eq!(sky_colour(v(0, -S, 0)), RGB(S, S, S));
    assert_eq!(sky_colour(v(S, 0, 0)), RGB(3 * S / 4, (S + 7 * S / 10) / 2, S));
}

#[test]
fn emissive_surface_is_seen_directly() {
    let items = vec![Primitive::Shape(Shape::RectangleXZ(RectangleXZ::new(
        -4 * S,
        4 * S,
        -6 * S,
        -2 * S,
        2 * S,
        0,
    )))];
    let (bvh, _) = Bvh::build(0, S, items);
    let materials = vec![BasicMaterial::DiffuseLight(DiffuseLight::new(RGB(3 * S, 2 * S, S)))];
    let ray = Ray::new(v(0, 0, -4 * S), v(0, S, 0), 0);
    let c = ray_colour(&ray, &bvh, &materials, 5, false);
    assert_eq!(c, RGB(3 * S, 2 * S, S));
}

#[test]
fn pixel_grid_enumerates_rows_bottom_to_top() {
    let g = pixel_grid(3, 2);
    assert_eq!(g.len(), 6);
    assert_eq!(g[0], (0, 1));
    assert_eq!(g[1], (1, 1));
    assert_eq!(g[2], (2, 1));
    assert_eq!(g[3], (0, 0));
    assert_eq!(g[4], (1, 0));
    assert_eq!(g[5], (2, 0));
}

#[test]
fn resolution_presets_match_expected_values() {
    let low = get_low_resolution();
    assert_eq!(
        (low.image_width, low.image_height, low.num_samples, low.max_depth),
        (600, 400, 500, 50)
    );
    let cornell = get_cornell_square_resolution();
    assert_eq!((cornell.image_width, cornell.image_height), (400, 400));
    let medium = get_medium_resolution();
    assert_eq!((medium.image_width, medium.image_height), (1200, 800));
    let high = get_high_resolution();
    assert_eq!(
        (high.image_width, high.image_height, high.num_samples),
        (1920, 1080, 10000)
    );
    let custom = Resolution::new(10, 20, 30, 40);
    assert_eq!(custom.image_width, 10);
    assert_eq!(custom.image_height, 20);
    assert_eq!(custom.num_samples, 30);
    assert_eq!(custom.max_depth, 40);
}

#[test]
fn colour_to_integers_applies_average_and_gamma() {
    // Full white over one sample: every channel saturates at 255.
    assert_eq!(RGB(S, S, S).to_integers(1), (255, 255, 255));
    // A quarter over one sample: sqrt(1/4) = 1/2, so 128.
    assert_eq!(RGB(S / 4, S / 4, S / 4).to_integers(1), (128, 128, 128));
    // Full white accumulated over four samples averages back to full white.
    assert_eq!(RGB(4 * S, 4 * S, 4 * S).to_integers(4), (255, 255, 255));
    assert_eq!(RGB(0, 0, 0).to_integers(10), (0, 0, 0));
}

#[test]
fn colour_from_integers_scales_channels() {
    let c = RGB::from_integers(255, 0, 51);
    assert_eq!(c.0, S);
    assert_eq!(c.1, 0);
    assert_eq!(c.2, 51 * S / 255);
}

#[test]
fn colour_attenuate_keeps_channels_within_input() {
    let base = RGB(S, S / 2, 2 * S);
    let att = RGB(S / 2, S / 4, 0);
    let out = base.attenuate(att);
    assert_eq!(out, RGB(S / 2, S / 8, 0));
    assert!(out.0 <= base.0 && out.1 <= base.1 && out.2 <= base.2);
}

#[test]
fn random_unit_vectors_vary_and_stay_bounded() {
    // Would fail if the randomness source handed back a constant: all the
    // draws would collapse to one vector.
    let mut distinct = std::collections::HashSet::new();
    for _ in 0..64 {
        let u = random_unit_vec();
        assert!(u.x.abs() <= 2 * S && u.y.abs() <= 2 * S && u.z.abs() <= 2 * S);
        distinct.insert((u.x, u.y, u.z));
    }
    assert!(distinct.len() > 1);
}

#[test]
fn dielectric_scatters_and_keeps_channels_nonnegative() {
    let items = vec![Primitive::Shape(Shape::Sphere(Sphere::new(v(0, 0, -3 * S), S, 0)))];
    let (bvh, _) = Bvh::build(0, S, items);
    let materials = vec![BasicMaterial::Dielectric(Dielectric::new(3 * S / 2))];
    for ix in -3..=3 {
        let ray = Ray::new(v(ix * S / 4, 0, 0), v(0, 0, -S), 0);
        let c = ray_colour(&ray, &bvh, &materials, 6, true);
        assert!(c.0 >= 0 && c.1 >= 0 && c.2 >= 0);
    }
}

#[test]
fn isotropic_scatters_with_nonnegative_channels() {
    let items = vec![Primitive::Shape(Shape::Sphere(Sphere::new(v(0, 0, -3 * S), S, 0)))];
    let (bvh, _) = Bvh::build(0, S, items);
    let materials = vec![BasicMaterial::Isotropic(Isotropic::build_from_colour(RGB(
        S / 2,
        S / 2,
        S / 2,
    )))];
    let ray = Ray::new(v(0, 0, 0), v(0, 0, -S), 0);
    for _ in 0..8 {
        let c = ray_colour(&ray, &bvh, &materials, 6, false);
        assert!(c.0 >= 0 && c.1 >= 0 && c.2 >= 0);
    }
}
