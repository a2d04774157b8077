use raytracer::fixed::{Real, SCALE};
use raytracer::rng::RandomSource;
use raytracer::vec3::Vec3;

#[test]
fn thread_source_samples_stay_in_the_unit_range() {
    let mut rng = RandomSource::thread();
    let mut distinct = false;
    let first = rng.next_unit().raw;
    for _ in 0..200 {
        let r = rng.next_unit();
        assert!(0 <= r.raw && r.raw < SCALE, "raw {} out of [0, {})", r.raw, SCALE);
        if r.raw != first {
            distinct = true;
        }
    }
    assert!(distinct, "two hundred uniform draws never repeat one value that often");
}

#[test]
fn thread_source_ranged_samples_stay_inside_their_range() {
    let mut rng = RandomSource::thread();
    let lo = Real::from_int(-1);
    let hi = Real::from_int(1);
    for _ in 0..200 {
        let r = rng.in_range(lo, hi);
        assert!(lo.raw <= r.raw && r.raw < hi.raw);
    }
}

#[test]
fn lcg_source_is_deterministic_and_in_range() {
    let mut a = RandomSource::lcg(42);
    let mut b = RandomSource::lcg(42);
    let mut c = RandomSource::lcg(43);
    let mut saw_difference = false;
    for _ in 0..64 {
        let ra = a.next_unit().raw;
        let rb = b.next_unit().raw;
        let rc = c.next_unit().raw;
        assert!(0 <= ra && ra < SCALE);
        assert_eq!(ra, rb, "equal seeds must replay the same stream");
        if ra != rc {
            saw_difference = true;
        }
    }
    assert!(saw_difference, "different seeds should diverge somewhere");
}

#[test]
fn lcg_steps_follow_the_stated_recurrence() {
    // state' = (state * 1103515245 + 12345) mod 2^31, output its bits 15..31.
    let mut rng = RandomSource::lcg(42);
    assert_eq!(rng.next_unit().raw, 38162);
    assert_eq!(rng.next_unit().raw, 34066);
    assert_eq!(rng.next_unit().raw, 30538);
    let mut expected: u64 = 42;
    for _ in 0..3 {
        expected = ((expected % 2147483648) * 1103515245 + 12345) % 2147483648;
    }
    if let RandomSource::Lcg { state } = rng {
        assert_eq!(state, expected);
    } else {
        panic!("a seeded source stays deterministic");
    }
}

#[test]
fn random_vectors_respect_their_stated_ranges() {
    let mut rng = RandomSource::lcg(1);
    for _ in 0..32 {
        let v = Vec3::random(&mut rng);
        assert!(0 <= v.x.raw && v.x.raw < SCALE);
        assert!(0 <= v.y.raw && v.y.raw < SCALE);
        assert!(0 <= v.z.raw && v.z.raw < SCALE);
        let lo = Real::from_int(-2);
        let hi = Real::from_int(3);
        let w = Vec3::random_in_range(lo, hi, &mut rng);
        assert!(lo.raw <= w.x.raw && w.x.raw < hi.raw);
        assert!(lo.raw <= w.y.raw && w.y.raw < hi.raw);
        assert!(lo.raw <= w.z.raw && w.z.raw < hi.raw);
    }
}

#[test]
fn random_in_unit_disk_lies_flat_inside_the_disk() {
    let mut rng = RandomSource::lcg(5);
    for _ in 0..64 {
        let p = Vec3::random_in_unit_disk(&mut rng);
        assert_eq!(p.z.raw, 0);
        assert!(p.length_squared().raw < SCALE);
    }
}

#[test]
fn random_unit_vector_has_roughly_unit_length() {
    let mut rng = RandomSource::lcg(9);
    for _ in 0..64 {
        let u = Vec3::random_unit_vector(&mut rng);
        let len = u.length().raw;
        // The sampler normalizes a point of the unit ball at least half a
        // unit long; on the fixed-point grid the rounding leaves the
        // length only approximately one.
        assert!(
            SCALE / 2 <= len && len < 2 * SCALE,
            "unit sample length raw {} strays too far from {}",
            len,
            SCALE,
        );
    }
}

#[test]
fn random_on_hemisphere_never_points_against_the_normal() {
    let mut rng = RandomSource::lcg(21);
    let normal = Vec3::new(Real { raw: 0 }, Real { raw: 0 }, Real::from_int(1));
    for _ in 0..64 {
        let u = Vec3::random_on_hemisphere(&normal, &mut rng);
        assert!(u.dot(&normal).raw >= 0);
    }
}
