use raytracer::fixed::{Real, BOUND};
use raytracer::interval::Interval;
use raytracer::vec3::Vec3;

fn v3(x: i64, y: i64, z: i64) -> Vec3 {
    Vec3::new(Real::from_int(x), Real::from_int(y), Real::from_int(z))
}

#[test]
fn real_constructors_land_on_the_grid() {
    assert_eq!(Real::from_int(1).raw, 65536);
    assert_eq!(Real::from_int(-1).raw, -65536);
    assert_eq!(Real::from_ratio(1, 2).raw, 32768);
    assert_eq!(Real::from_ratio(999, 1000).raw, 65470);
    assert_eq!(Real::from_ratio(-3, 2).raw, -98304);
}

#[test]
fn real_arithmetic_matches_hand_values() {
    let half = Real::from_ratio(1, 2);
    assert_eq!(half.mul(half).raw, 16384);
    assert_eq!(Real::from_int(3).add(Real::from_int(4)).raw, 7 * 65536);
    assert_eq!(Real::from_int(3).sub(Real::from_int(4)).raw, -65536);
    assert_eq!(Real::from_int(4).sqrt().raw, 2 * 65536);
    assert_eq!(Real::from_int(2).sqrt().raw, 92681); // sqrt(2) rounded down
    assert_eq!(Real::from_int(1).div(Real::from_int(4)).raw, 16384);
    assert_eq!(Real::from_int(-1).neg().raw, 65536);
    assert_eq!(Real::from_int(-5).abs().raw, 5 * 65536);
    assert_eq!(Real::from_int(2).min(Real::from_int(3)).raw, 2 * 65536);
    assert_eq!(Real::from_int(2).max(Real::from_int(3)).raw, 3 * 65536);
}

#[test]
fn real_arithmetic_saturates_instead_of_wrapping() {
    let top = Real { raw: BOUND };
    assert_eq!(top.add(Real::from_int(1)).raw, BOUND);
    assert_eq!(top.neg().add(Real::from_int(-1)).raw, -BOUND);
    assert_eq!(top.mul(Real::from_int(2)).raw, BOUND);
    // Division by zero saturates with the dividend's sign.
    assert_eq!(Real::from_int(1).div(Real { raw: 0 }).raw, BOUND);
    assert_eq!(Real::from_int(-1).div(Real { raw: 0 }).raw, -BOUND);
    assert_eq!(Real { raw: 0 }.div(Real { raw: 0 }).raw, 0);
}

#[test]
fn dot_and_cross_products() {
    let x = v3(1, 0, 0);
    let y = v3(0, 1, 0);
    let z = v3(0, 0, 1);
    assert_eq!(x.dot(&y).raw, 0);
    assert_eq!(x.dot(&x).raw, 65536);
    assert_eq!(v3(1, 2, 3).dot(&v3(4, -5, 6)).raw, (4 - 10 + 18) * 65536);
    let c = x.cross(&y);
    assert_eq!((c.x.raw, c.y.raw, c.z.raw), (0, 0, 65536));
    let c2 = y.cross(&x);
    assert_eq!((c2.x.raw, c2.y.raw, c2.z.raw), (0, 0, -65536));
    let c3 = z.cross(&x);
    assert_eq!((c3.x.raw, c3.y.raw, c3.z.raw), (0, 65536, 0));
}

#[test]
fn unit_vector_of_a_nonzero_vector_has_length_about_one() {
    // A 3-4-5 triangle: the unit vector is (0.6, 0.8, 0) up to the grid.
    let v = v3(3, 4, 0);
    assert_eq!(v.length().raw, 5 * 65536);
    let u = v.unit_vector();
    assert!((u.x.raw - 39321).abs() <= 2, "{}", u.x.raw);
    assert!((u.y.raw - 52428).abs() <= 2, "{}", u.y.raw);
    assert_eq!(u.z.raw, 0);
    let len = u.length().raw;
    assert!((len - 65536).abs() <= 16, "unit length raw {}", len);
    // On an axis the normalization is exact.
    let a = v3(0, -7, 0).unit_vector();
    assert_eq!((a.x.raw, a.y.raw, a.z.raw), (0, -65536, 0));
    assert_eq!(a.length().raw, 65536);
}

#[test]
fn reflect_mirrors_and_is_an_involution_about_an_axis_normal() {
    let n = v3(0, 0, 1);
    // A ray straight against the normal reflects straight back.
    let d = Vec3::reflect(&v3(0, 0, -1), &n);
    assert_eq!((d.x.raw, d.y.raw, d.z.raw), (0, 0, 65536));
    // Reflecting twice about the same normal restores the vector.
    let v = v3(1, -2, 3);
    let rr = Vec3::reflect(&Vec3::reflect(&v, &n), &n);
    assert_eq!((rr.x.raw, rr.y.raw, rr.z.raw), (v.x.raw, v.y.raw, v.z.raw));
    let n2 = v3(-1, 0, 0);
    let rr2 = Vec3::reflect(&Vec3::reflect(&v, &n2), &n2);
    assert_eq!((rr2.x.raw, rr2.y.raw, rr2.z.raw), (v.x.raw, v.y.raw, v.z.raw));
}

#[test]
fn refract_with_unit_ratio_keeps_a_head_on_direction() {
    let n = v3(0, 0, 1);
    let uv = v3(0, 0, -1);
    let out = Vec3::refract(&uv, &n, Real::from_int(1));
    assert_eq!((out.x.raw, out.y.raw, out.z.raw), (0, 0, -65536));
}

#[test]
fn near_zero_detects_only_the_zero_vector() {
    assert!(v3(0, 0, 0).near_zero());
    assert!(!Vec3::new(Real { raw: 1 }, Real { raw: 0 }, Real { raw: 0 }).near_zero());
    assert!(!v3(0, 0, 1).near_zero());
}

#[test]
fn interval_contains_surrounds_and_clamps() {
    let i = Interval::new(Real::from_int(1), Real::from_int(3));
    assert!(i.contains(Real::from_int(1)));
    assert!(i.contains(Real::from_int(3)));
    assert!(!i.contains(Real::from_int(4)));
    assert!(!i.surrounds(Real::from_int(1)));
    assert!(i.surrounds(Real::from_int(2)));
    assert!(!i.surrounds(Real::from_int(3)));
    assert_eq!(i.clamp(Real::from_int(0)).raw, 65536);
    assert_eq!(i.clamp(Real::from_int(2)).raw, 2 * 65536);
    assert_eq!(i.clamp(Real::from_int(9)).raw, 3 * 65536);
    let all = Interval::default();
    assert_eq!(all.min.raw, -BOUND);
    assert_eq!(all.max.raw, BOUND);
}
