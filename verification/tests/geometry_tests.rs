use ray_tracer::vec3d::Vec3d;
use ray_tracer::ray::{Ray, T_LIMIT};
use ray_tracer::aabb::{BoundingBox, surrounding_box};
use ray_tracer::objects::{Sphere, Triangle, get_pyramid_vertices, get_sphere_uv, Pyramid};

// One world unit, in fixed-point coordinates.
const S: i64 = 65536;

fn v(x: i64, y: i64, z: i64) -> Vec3d {
    Vec3d::new(x, y, z)
}

#[test]
fn bounding_box_hit_should_return_true_when_ray_hits() {
    let b_box = BoundingBox::new(v(S, S, S), v(3 * S, 3 * S, 3 * S));
    let ray = Ray::new(v(0, 0, 0), v(S, S, S), 0);
    assert_eq!(b_box.hit(&ray, 0, T_LIMIT), true);
}

#[test]
fn bounding_box_hit_should_return_false_when_ray_misses_completely() {
    let b_box = BoundingBox::new(v(S, S, S), v(3 * S, 3 * S, 3 * S));
    let ray = Ray::new(v(3 * S, 0, 0), v(S, S, S), 0);
    assert_eq!(b_box.hit(&ray, 0, T_LIMIT), false);
}

#[test]
fn bounding_box_hit_should_return_false_when_ray_hits_not_inside_ray_segment() {
    let b_box = BoundingBox::new(v(S, S, S), v(3 * S, 3 * S, 3 * S));
    let ray = Ray::new(v(0, 0, 0), v(-S, -S, -S), 0);
    assert_eq!(b_box.hit(&ray, 0, T_LIMIT), false);
}

#[test]
fn bounding_box_hit_should_return_true_when_ray_parallel_to_face_and_hits() {
    let b_box = BoundingBox::new(v(S, S, S), v(3 * S, 3 * S, 3 * S));
    let ray = Ray::new(v(S + S / 2, S + S / 2, 0), v(0, 0, S), 0);
    assert_eq!(b_box.hit(&ray, 0, T_LIMIT), true);
}

#[test]
fn bounding_box_hit_should_return_false_when_ray_parallel_to_face_and_misses() {
    let b_box = BoundingBox::new(v(S, S, S), v(3 * S, 3 * S, 3 * S));
    let ray = Ray::new(v(0, 0, 0), v(0, 0, S), 0);
    assert_eq!(b_box.hit(&ray, 0, T_LIMIT), false);
}

#[test]
fn bounding_box_hit_should_return_true_when_ray_starts_inside_box() {
    let b_box = BoundingBox::new(v(S, S, S), v(3 * S, 3 * S, 3 * S));
    let ray = Ray::new(v(2 * S, 2 * S, 2 * S), v(0, 0, S), 0);
    assert_eq!(b_box.hit(&ray, 0, T_LIMIT), true);
}

#[test]
fn bounding_box_hit_should_return_true_when_ray_is_along_face() {
    let b_box = BoundingBox::new(v(S, S, S), v(3 * S, 3 * S, 3 * S));
    let ray = Ray::new(v(S, S + S / 2, 0), v(0, 0, S), 0);
    assert_eq!(b_box.hit(&ray, 0, T_LIMIT), true);
}

#[test]
fn surrounding_box_is_commutative_and_associative() {
    let a = BoundingBox::new(v(-S, 0, 0), v(S, S, S));
    let b = BoundingBox::new(v(0, -S, 0), v(2 * S, S, 2 * S));
    let c = BoundingBox::new(v(-3 * S, 0, -S), v(0, 4 * S, 0));
    assert_eq!(surrounding_box(a, b), surrounding_box(b, a));
    assert_eq!(
        surrounding_box(surrounding_box(a, b), c),
        surrounding_box(a, surrounding_box(b, c))
    );
}

#[test]
fn surrounding_box_idempotent_and_contains_inputs() {
    let a = BoundingBox::new(v(-S, 0, 0), v(S, S, S));
    let b = BoundingBox::new(v(0, -S, 0), v(2 * S, S, 2 * S));
    assert_eq!(surrounding_box(a, a), a);
    let u = surrounding_box(a, b);
    assert!(u.min.x <= a.min.x && a.max.x <= u.max.x);
    assert!(u.min.y <= b.min.y && b.max.y <= u.max.y);
    assert!(u.min.z <= a.min.z && a.max.z <= u.max.z);
    assert!(u.min.z <= b.min.z && b.max.z <= u.max.z);
}

#[test]
fn longest_axis_picks_greatest_extent() {
    let a = BoundingBox::new(v(0, 0, 0), v(4 * S, S, S));
    assert_eq!(a.longest_axis(), 0);
    let b = BoundingBox::new(v(0, 0, 0), v(S, 4 * S, S));
    assert_eq!(b.longest_axis(), 1);
    let c = BoundingBox::new(v(0, 0, 0), v(S, S, 4 * S));
    assert_eq!(c.longest_axis(), 2);
}

#[test]
fn sphere_hit_from_inside_reports_exact_values() {
    // A sphere of radius one half at the origin, with the ray starting at
    // the center: the hit is at parameter one half, on the far face, with
    // the outward normal pointing along the ray.
    let sphere = Sphere::new(v(0, 0, 0), S / 2, 0);
    let ray = Ray::new(v(0, 0, 0), v(0, 0, -S), 0);
    let hr = sphere.hit(&ray, 0, T_LIMIT).expect("hit");
    assert_eq!(hr.t, S / 2);
    assert_eq!(hr.point, v(0, 0, -(S / 2) * S));
    assert_eq!(hr.normal, v(0, 0, -S));
    assert_eq!(hr.front_face, false);
}

fn unit_triangle() -> Triangle {
    Triangle::new(v(-S, -S, 0), v(S, -S, 0), v(0, S, 0), 0)
}

#[test]
fn hit_should_return_none_when_ray_misses() {
    let tri = unit_triangle();
    let ray = Ray::new(v(2 * S, 2 * S, -5 * S), v(0, 0, S), 0);
    assert!(tri.hit(&ray, 0, T_LIMIT).is_none());
}

#[test]
fn hit_should_return_none_when_ray_parallel_to_triangle() {
    let tri = unit_triangle();
    let ray = Ray::new(v(-5 * S, 0, 0), v(S, 0, 0), 0);
    assert!(tri.hit(&ray, 0, T_LIMIT).is_none());
}

#[test]
fn hit_should_return_none_when_tri_behind_ray() {
    let tri = unit_triangle();
    let ray = Ray::new(v(0, 0, 5 * S), v(0, 0, S), 0);
    assert!(tri.hit(&ray, 0, T_LIMIT).is_none());
}

#[test]
fn hit_should_return_values_when_ray_hits_middle() {
    let tri = unit_triangle();
    let ray = Ray::new(v(0, 0, -5 * S), v(0, 0, S), 0);
    let hr = tri.hit(&ray, 0, T_LIMIT).expect("hit");
    assert_eq!(hr.t, 5 * S);
    assert_eq!(hr.u, S / 4);
    assert_eq!(hr.v, S / 2);
    assert_eq!(hr.point, v(0, 0, 0));
    assert_eq!(hr.normal, v(0, 0, S));
}

#[test]
fn hit_should_return_values_when_ray_hits_vertex() {
    let tri = unit_triangle();
    let ray = Ray::new(v(0, S, -5 * S), v(0, 0, S), 0);
    let hr = tri.hit(&ray, 0, T_LIMIT).expect("hit");
    assert_eq!(hr.t, 5 * S);
    assert_eq!(hr.u, 0);
    assert_eq!(hr.v, S);
    assert_eq!(hr.point, v(0, S * S, 0));
    assert_eq!(hr.normal, v(0, 0, S));
}

#[test]
fn should_return_correct_vertices_for_simple_case() {
    let tri_base = (v(0, 0, 0), v(0, 0, 2 * S), v(2 * S, 0, 0));
    let height = 2 * S;

    let result = get_pyramid_vertices(tri_base, height);

    assert_eq!(result.0, v(0, 0, 0));
    assert_eq!(result.1, v(0, 0, 2 * S));
    assert_eq!(result.2, v(2 * S, 0, 2 * S));
    assert_eq!(result.3, v(2 * S, 0, 0));
    assert_eq!(result.4, v(S, 2 * S, S));
}

#[test]
fn pyramid_builds_six_triangles() {
    let tri_base = (v(0, 0, 0), v(0, 0, 2 * S), v(2 * S, 0, 0));
    let pyramid = Pyramid::build(tri_base, 2 * S, 3);
    assert_eq!(pyramid.sides.len(), 6);
}

// (1, 0, 0) yields (0.50, 0.50)
#[test]
fn test_1() {
    let result = get_sphere_uv(v(S, 0, 0));
    assert_eq!(result, (S / 2, S / 2));
}

// (-1, 0, 0) yields (0.00, 0.50)
#[test]
fn test_2() {
    let result = get_sphere_uv(v(-S, 0, 0));
    assert_eq!(result, (0, S / 2));
}

// (0, 1, 0) yields (0.50, 1.00)
#[test]
fn test_3() {
    let result = get_sphere_uv(v(0, S, 0));
    assert_eq!(result, (S / 2, S));
}

// (0, -1, 0) yields (0.50, 0.00)
#[test]
fn test_4() {
    let result = get_sphere_uv(v(0, -S, 0));
    assert_eq!(result, (S / 2, 0));
}

// (0, 0, 1) yields (0.25, 0.50)
#[test]
fn test_5() {
    let result = get_sphere_uv(v(0, 0, S));
    assert_eq!(result, (S / 4, S / 2));
}

// (0, 0, -1) yields (0.75, 0.50)
#[test]
fn test_6() {
    let result = get_sphere_uv(v(0, 0, -S));
    assert_eq!(result, (3 * S / 4, S / 2));
}

#[test]
fn sphere_hit_reports_surface_coordinates() {
    // A ray hitting the sphere where its surface faces +x: the turn
    // coordinate is one half and the latitude one half.
    let sphere = Sphere::new(v(0, 0, 0), S, 0);
    let ray = Ray::new(v(5 * S, 0, 0), v(-S, 0, 0), 0);
    let hr = sphere.hit(&ray, 0, T_LIMIT).expect("hit");
    assert_eq!(hr.t, 4 * S);
    assert_eq!((hr.u, hr.v), (S / 2, S / 2));
}
