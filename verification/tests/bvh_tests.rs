use ray_tracer::vec3d::Vec3d;
use ray_tracer::ray::{Ray, T_LIMIT};
use ray_tracer::objects::{
    Sphere, MovingSphere, Triangle, RectangleXY, Translate, RotateY, RotateZ, Scale,
    ConstantMedium, Shape, Primitive, box_object,
};
use ray_tracer::hittable::HittableList;
use ray_tracer::bvh::Bvh;
use ray_tracer::render::T_EPS;

const S: i64 = 65536;

fn v(x: i64, y: i64, z: i64) -> Vec3d {
    Vec3d::new(x, y, z)
}

#[test]
fn bvh_with_two_spheres_matches_direct_queries() {
    // Two spheres in a two-item tree must answer exactly as querying both
    // spheres directly and keeping the closer hit, over a grid of rays.
    let s1 = Sphere::new(v(-2 * S, 0, 0), S, 0);
    let s2 = Sphere::new(v(2 * S, 0, 0), S, 1);
    let items = vec![
        Primitive::Shape(Shape::Sphere(s1)),
        Primitive::Shape(Shape::Sphere(s2)),
    ];
    let (bvh, metrics) = Bvh::build(0, S, items);
    assert_eq!(metrics.num_objects, 2);

    let mut checked = 0;
    for ix in -6..=6 {
        for iy in -4..=4 {
            let origin = v(ix * S / 2, iy * S / 2, -8 * S);
            let dir = v(0, 0, S);
            let ray = Ray::new(origin, dir, 0);
            let from_tree = bvh.hit(&ray, T_EPS, T_LIMIT);
            let d1 = s1.hit(&ray, T_EPS, T_LIMIT);
            let d2 = s2.hit(&ray, T_EPS, T_LIMIT);
            let direct = match (d1, d2) {
                (Some(a), Some(b)) => Some(if b.t < a.t { b } else { a }),
                (Some(a), None) => Some(a),
                (None, Some(b)) => Some(b),
                (None, None) => None,
            };
            match (from_tree, direct) {
                (Some(a), Some(b)) => {
                    assert_eq!(a.t, b.t);
                    assert_eq!(a.point, b.point);
                    assert_eq!(a.material, b.material);
                }
                (None, None) => {}
                _ => panic!("tree and direct queries disagree"),
            }
            checked += 1;
        }
    }
    assert!(checked >= 100);
}

fn sample_scene() -> Vec<Primitive> {
    let mut items: Vec<Primitive> = Vec::new();
    items.push(Primitive::Shape(Shape::Sphere(Sphere::new(v(0, 0, -3 * S), S, 0))));
    items.push(Primitive::Shape(Shape::Sphere(Sphere::new(v(3 * S, S, -5 * S), S / 2, 1))));
    items.push(Primitive::Shape(Shape::MovingSphere(MovingSphere::new(
        v(-3 * S, 0, -4 * S),
        v(-3 * S, S, -4 * S),
        0,
        S,
        S / 2,
        2,
    ))));
    items.push(Primitive::Shape(Shape::Triangle(Triangle::new(
        v(-S, -S, -6 * S),
        v(S, -S, -6 * S),
        v(0, S, -6 * S),
        3,
    ))));
    items.push(Primitive::Shape(Shape::RectangleXY(RectangleXY::new(
        -4 * S,
        4 * S,
        -4 * S,
        4 * S,
        -8 * S,
        4,
    ))));
    items.push(Primitive::Translate(Translate::new(
        v(S, 0, 0),
        Shape::Sphere(Sphere::new(v(0, 2 * S, -4 * S), S / 2, 5)),
    )));
    for side in box_object(v(-6 * S, -2 * S, -7 * S), v(-5 * S, -S, -6 * S), 6) {
        items.push(side);
    }
    items
}

#[test]
fn bvh_matches_linear_scan_on_mixed_scene() {
    // The primary correctness oracle: for a scene with every primitive kind,
    // the tree and a linear scan agree on every ray of a grid.
    let items = sample_scene();
    let mut list = HittableList::new();
    for it in items.iter() {
        list.add(*it);
    }
    let (bvh, metrics) = Bvh::build(0, S, items);
    assert_eq!(metrics.num_objects, 12);
    assert!(metrics.min_depth >= 1);
    assert!(metrics.max_depth >= metrics.min_depth);

    let mut checked = 0;
    for ix in -5..=5 {
        for iy in -5..=5 {
            for time in [0, S / 2, S] {
                let origin = v(ix * S, iy * S, 6 * S);
                let target = v(-ix * S / 2, iy * S / 3, -8 * S);
                let dir = v(
                    (target.x - origin.x) / 16,
                    (target.y - origin.y) / 16,
                    (target.z - origin.z) / 16,
                );
                let ray = Ray::new(origin, dir, time);
                let from_tree = bvh.hit(&ray, T_EPS, T_LIMIT);
                let from_scan = list.hit(&ray, T_EPS, T_LIMIT);
                match (from_tree, from_scan) {
                    (Some(a), Some(b)) => assert_eq!(a.t, b.t),
                    (None, None) => {}
                    _ => panic!("tree and scan disagree"),
                }
                checked += 1;
            }
        }
    }
    assert!(checked >= 300);
}

#[test]
fn hittable_list_finds_closest_hit() {
    let near = Sphere::new(v(0, 0, -2 * S), S / 2, 7);
    let far = Sphere::new(v(0, 0, -5 * S), S / 2, 8);
    let mut list = HittableList::new();
    list.add(Primitive::Shape(Shape::Sphere(far)));
    list.add(Primitive::Shape(Shape::Sphere(near)));
    let ray = Ray::new(v(0, 0, 0), v(0, 0, -S), 0);
    let hr = list.hit(&ray, T_EPS, T_LIMIT).expect("hit");
    assert_eq!(hr.material, 7);
    assert_eq!(hr.t, 3 * S / 2);
}

#[test]
fn hittable_list_clear_empties_it() {
    let mut list = HittableList::new();
    list.add(Primitive::Shape(Shape::Sphere(Sphere::new(v(0, 0, -2 * S), S, 0))));
    list.clear();
    let ray = Ray::new(v(0, 0, 0), v(0, 0, -S), 0);
    assert!(list.hit(&ray, T_EPS, T_LIMIT).is_none());
}

#[test]
fn hittable_list_bounding_box_covers_items() {
    let mut list = HittableList::new();
    assert!(list.bounding_box(0, S).is_none());
    list.add(Primitive::Shape(Shape::Sphere(Sphere::new(v(0, 0, -2 * S), S, 0))));
    list.add(Primitive::Shape(Shape::Sphere(Sphere::new(v(4 * S, 0, 0), S / 2, 0))));
    let bb = list.bounding_box(0, S).expect("box");
    assert!(bb.min.x <= -S && bb.max.x >= 4 * S + S / 2);
    assert!(bb.min.z <= -3 * S && bb.max.z >= S / 2);
}

#[test]
fn moving_sphere_follows_its_center() {
    let ms = MovingSphere::new(v(0, 0, -3 * S), v(2 * S, 0, -3 * S), 0, S, S / 2, 0);
    let ray_start = Ray::new(v(0, 0, 0), v(0, 0, -S), 0);
    let ray_end = Ray::new(v(0, 0, 0), v(0, 0, -S), S);
    assert!(ms.hit(&ray_start, T_EPS, T_LIMIT).is_some());
    assert!(ms.hit(&ray_end, T_EPS, T_LIMIT).is_none());
    let ray_end_shifted = Ray::new(v(2 * S, 0, 0), v(0, 0, -S), S);
    assert!(ms.hit(&ray_end_shifted, T_EPS, T_LIMIT).is_some());
}

#[test]
fn translate_shifts_hits() {
    let sphere = Shape::Sphere(Sphere::new(v(0, 0, -3 * S), S / 2, 0));
    let moved = Primitive::Translate(Translate::new(v(2 * S, 0, 0), sphere));
    let miss = Ray::new(v(0, 0, 0), v(0, 0, -S), 0);
    let hit = Ray::new(v(2 * S, 0, 0), v(0, 0, -S), 0);
    assert!(moved.hit(&miss, T_EPS, T_LIMIT).is_none());
    let hr = moved.hit(&hit, T_EPS, T_LIMIT).expect("hit");
    assert_eq!(hr.t, 5 * S / 2);
    assert_eq!(hr.point, v(2 * S * S, 0, -(5 * S / 2) * S));
}

#[test]
fn rotate_y_turns_a_sphere_about_the_axis() {
    // A quarter turn about y carries the sphere from +x to -z, so a ray
    // down -z hits the turned shape and a ray down +x does not.
    let sphere = Shape::Sphere(Sphere::new(v(3 * S, 0, 0), S, 0));
    let turned = Primitive::RotateY(RotateY::new(S, 0, sphere));
    let toward_minus_z = Ray::new(v(0, 0, 0), v(0, 0, -S), 0);
    let toward_plus_x = Ray::new(v(0, 0, 0), v(S, 0, 0), 0);
    let hr = turned.hit(&toward_minus_z, T_EPS, T_LIMIT).expect("hit");
    assert_eq!(hr.t, 2 * S);
    assert!(turned.hit(&toward_plus_x, T_EPS, T_LIMIT).is_none());
}

#[test]
fn rotate_z_quarter_turn_moves_a_sphere_from_x_to_y() {
    let sphere = Shape::Sphere(Sphere::new(v(3 * S, 0, 0), S, 0));
    let turned = Primitive::RotateZ(RotateZ::new(S, 0, sphere));
    let toward_plus_y = Ray::new(v(0, 0, 0), v(0, S, 0), 0);
    let hr = turned.hit(&toward_plus_y, T_EPS, T_LIMIT).expect("hit");
    assert_eq!(hr.t, 2 * S);
    assert!(turned.hit(&Ray::new(v(0, 0, 0), v(S, 0, 0), 0), T_EPS, T_LIMIT).is_none());
}

#[test]
fn scale_doubles_a_sphere_along_x() {
    // A sphere of radius one stretched twofold along x reaches out to
    // x == 2 and keeps y extent one.
    let sphere = Shape::Sphere(Sphere::new(v(0, 0, 0), S, 0));
    let wide = Primitive::Scale(Scale::new(2 * S, S, S, sphere));
    let from_x = Ray::new(v(5 * S, 0, 0), v(-S, 0, 0), 0);
    let hr = wide.hit(&from_x, T_EPS, T_LIMIT).expect("hit");
    assert_eq!(hr.t, 3 * S);
    assert_eq!(hr.point, v(2 * S * S, 0, 0));
    let bb = wide.bounding_box(0, S);
    assert_eq!((bb.min.x, bb.max.x), (-2 * S, 2 * S));
    assert_eq!((bb.min.y, bb.max.y), (-S, S));
}

#[test]
fn constant_medium_scatters_when_flight_ends_inside() {
    // The ray crosses two units of a unit-density medium; a short flight
    // scatters inside it, a long one passes through.
    let boundary = Shape::Sphere(Sphere::new(v(0, 0, -4 * S), S, 9));
    let fog = ConstantMedium::new(boundary, S, 9);
    let ray = Ray::new(v(0, 0, 0), v(0, 0, -S), 0);
    let inside = fog.hit(&ray, T_EPS, T_LIMIT, S / 2).expect("scatter");
    assert_eq!(inside.t, 3 * S + S / 2);
    assert_eq!(inside.material, 9);
    assert_eq!(inside.front_face, true);
    assert!(fog.hit(&ray, T_EPS, T_LIMIT, 3 * S).is_none());
}

#[test]
fn tight_boxes_are_the_exact_extents() {
    let sphere = Sphere::new(v(1 * S, 2 * S, 3 * S), S / 2, 0);
    let bb = sphere.bounding_box(0, S);
    assert_eq!(bb.min, v(S / 2, 3 * S / 2, 5 * S / 2));
    assert_eq!(bb.max, v(3 * S / 2, 5 * S / 2, 7 * S / 2));
    let tri = Triangle::new(v(-S, -S, 0), v(S, -S, 0), v(0, S, 0), 0);
    let tb = tri.bounding_box(0, S);
    assert_eq!((tb.min.x, tb.max.x), (-S, S));
    assert_eq!((tb.min.y, tb.max.y), (-S, S));
    // The flat axis alone is padded.
    assert_eq!((tb.min.z, tb.max.z), (-66, 66));
}
