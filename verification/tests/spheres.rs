use raytracer::fixed::{Real, BOUND};
use raytracer::hittable::{Hittable, HittableList};
use raytracer::interval::Interval;
use raytracer::material::{Lambertian, Material};
use raytracer::ray::Ray;
use raytracer::sphere::Sphere;
use raytracer::vec3::Vec3;

fn v3(x: i64, y: i64, z: i64) -> Vec3 {
    Vec3::new(Real::from_int(x), Real::from_int(y), Real::from_int(z))
}

fn gray() -> Material {
    Material::Lambertian(Lambertian::new(Vec3::new(
        Real::from_ratio(1, 2),
        Real::from_ratio(1, 2),
        Real::from_ratio(1, 2),
    )))
}

fn wide() -> Interval {
    Interval::new(Real::from_ratio(1, 1000), Real { raw: BOUND })
}

#[test]
fn ray_hits_sphere_ahead_at_half_unit() {
    let sphere = Sphere::new(v3(0, 0, -1), Real::from_ratio(1, 2), gray());
    let ray = Ray::new(v3(0, 0, 0), v3(0, 0, -1));
    let rec = sphere.hit(&ray, wide()).expect("the ray points straight at the sphere");
    assert_eq!(rec.t.raw, 32768); // t = 0.5 exactly on the grid
    assert_eq!((rec.p.x.raw, rec.p.y.raw, rec.p.z.raw), (0, 0, -32768));
    assert_eq!((rec.normal.x.raw, rec.normal.y.raw, rec.normal.z.raw), (0, 0, 65536));
    assert!(rec.front_face);
}

#[test]
fn ray_misses_sphere_off_to_the_side() {
    let sphere = Sphere::new(v3(0, 0, -10), Real::from_ratio(1, 2), gray());
    let ray = Ray::new(v3(0, 0, 0), v3(1, 0, 0));
    assert!(sphere.hit(&ray, wide()).is_none());
}

#[test]
fn interval_filters_roots_and_falls_back_to_the_far_one() {
    // Roots at t = 0.5 and t = 1.5.
    let sphere = Sphere::new(v3(0, 0, -1), Real::from_ratio(1, 2), gray());
    let ray = Ray::new(v3(0, 0, 0), v3(0, 0, -1));
    // Both roots outside (0.001, 0.4): no hit.
    let narrow = Interval::new(Real::from_ratio(1, 1000), Real::from_ratio(2, 5));
    assert!(sphere.hit(&ray, narrow).is_none());
    // Near root excluded, far root accepted.
    let far_only = Interval::new(Real::from_ratio(3, 5), Real::from_int(10));
    let rec = sphere.hit(&ray, far_only).expect("the far root lies inside");
    assert_eq!(rec.t.raw, 98304); // t = 1.5
    assert_eq!((rec.normal.x.raw, rec.normal.y.raw, rec.normal.z.raw), (0, 0, 65536));
    assert!(!rec.front_face); // leaving through the back of the sphere
}

#[test]
fn negative_radius_flips_the_outward_normal() {
    let hollow = Sphere::new(v3(0, 0, -1), Real::from_ratio(-1, 2), gray());
    let ray = Ray::new(v3(0, 0, 0), v3(0, 0, -1));
    let rec = hollow.hit(&ray, wide()).expect("geometry is unchanged by the sign");
    assert_eq!(rec.t.raw, 32768);
    assert!(!rec.front_face);
    assert_eq!((rec.normal.x.raw, rec.normal.y.raw, rec.normal.z.raw), (0, 0, 65536));
}

#[test]
fn aggregate_reports_the_closest_of_two_overlapping_spheres() {
    let ray = Ray::new(v3(0, 0, 0), v3(0, 0, -1));
    let near = Hittable::Sphere(Sphere::new(v3(0, 0, -2), Real::from_int(1), gray()));
    let far = Hittable::Sphere(Sphere::new(
        v3(0, 0, -3),
        Real::from_int(1),
        gray(),
    ));
    let near_t = match near.hit(&ray, wide()) {
        Some(rec) => rec.t.raw,
        None => panic!("near sphere must be hit"),
    };
    let far_t = match far.hit(&ray, wide()) {
        Some(rec) => rec.t.raw,
        None => panic!("far sphere must be hit"),
    };
    assert_eq!(near_t, 65536); // t = 1
    assert_eq!(far_t, 2 * 65536); // t = 2

    let mut world = HittableList::new();
    world.add(near);
    world.add(far);
    let rec = world.hit(&ray, wide()).expect("the scene is in front of the ray");
    assert_eq!(rec.t.raw, near_t.min(far_t));

    // The scan is order-independent: the reversed scene reports the same hit.
    let mut reversed = HittableList::new();
    reversed.add(far);
    reversed.add(near);
    let rec2 = reversed.hit(&ray, wide()).expect("same scene, same answer");
    assert_eq!(rec2.t.raw, rec.t.raw);
    assert_eq!(rec2.p.z.raw, rec.p.z.raw);
}

#[test]
fn aggregate_reports_nothing_when_every_member_misses() {
    let mut world = HittableList::new();
    world.add(Hittable::Sphere(Sphere::new(v3(0, 0, -5), Real::from_int(1), gray())));
    world.add(Hittable::Sphere(Sphere::new(v3(5, 0, 0), Real::from_int(1), gray())));
    let ray = Ray::new(v3(0, 0, 0), v3(0, 1, 0));
    assert!(world.hit(&ray, wide()).is_none());
    let empty = HittableList::new();
    assert!(empty.hit(&ray, wide()).is_none());
}

#[test]
fn degenerate_ray_direction_never_hits() {
    let sphere = Sphere::new(v3(0, 0, -1), Real::from_ratio(1, 2), gray());
    let ray = Ray::new(v3(0, 0, 0), v3(0, 0, 0));
    assert!(sphere.hit(&ray, wide()).is_none());
}
