use raytracer::fixed::Real;
use raytracer::hittable::HitRecord;
use raytracer::material::{Dielectric, Lambertian, Material, Metal};
use raytracer::ray::Ray;
use raytracer::rng::RandomSource;
use raytracer::vec3::Vec3;

fn v3(x: i64, y: i64, z: i64) -> Vec3 {
    Vec3::new(Real::from_int(x), Real::from_int(y), Real::from_int(z))
}

fn record_at(p: Vec3, normal: Vec3, front_face: bool, mat: Material) -> HitRecord {
    HitRecord { p, normal, t: Real::from_int(1), front_face, mat }
}

#[test]
fn lambertian_scatters_from_the_hit_point_with_its_albedo() {
    let albedo = Vec3::new(
        Real::from_ratio(4, 5),
        Real::from_ratio(3, 10),
        Real::from_ratio(1, 5),
    );
    let mat = Lambertian::new(albedo);
    let rec = record_at(v3(1, 2, 3), v3(0, 0, 1), true, Material::Lambertian(mat));
    let r_in = Ray::new(v3(0, 0, 4), v3(1, 2, -1));
    let mut rng = RandomSource::lcg(7);
    for _ in 0..32 {
        let (attenuation, scattered) =
            mat.scatter(&r_in, &rec, &mut rng).expect("a diffuse surface always scatters");
        assert_eq!(attenuation.x.raw, albedo.x.raw);
        assert_eq!(attenuation.y.raw, albedo.y.raw);
        assert_eq!(attenuation.z.raw, albedo.z.raw);
        assert_eq!(scattered.origin.x.raw, rec.p.x.raw);
        assert_eq!(scattered.origin.y.raw, rec.p.y.raw);
        assert_eq!(scattered.origin.z.raw, rec.p.z.raw);
        // The direction leans along the normal and never degenerates.
        assert!(!scattered.direction.near_zero());
    }
}

#[test]
fn metal_with_zero_fuzz_mirrors_a_head_on_ray_exactly() {
    let albedo = Vec3::new(
        Real::from_ratio(7, 10),
        Real::from_ratio(3, 5),
        Real::from_ratio(1, 2),
    );
    let mat = Metal::new(albedo, Real { raw: 0 });
    // Incoming straight along the negation of the normal.
    let rec = record_at(v3(0, 0, -1), v3(0, 0, 1), true, Material::Metal(mat));
    let r_in = Ray::new(v3(0, 0, 0), v3(0, 0, -1));
    let mut rng = RandomSource::lcg(11);
    let (attenuation, scattered) =
        mat.scatter(&r_in, &rec, &mut rng).expect("the mirrored ray points away");
    assert_eq!(attenuation.x.raw, albedo.x.raw);
    assert_eq!(
        (scattered.direction.x.raw, scattered.direction.y.raw, scattered.direction.z.raw),
        (0, 0, 65536),
    );
    assert_eq!((scattered.origin.x.raw, scattered.origin.z.raw), (0, -65536));
}

#[test]
fn metal_absorbs_a_reflection_that_grazes_into_the_surface() {
    // A ray leaving along the normal reflects into the surface: absorbed.
    let mat = Metal::new(v3(1, 1, 1), Real { raw: 0 });
    let rec = record_at(v3(0, 0, 0), v3(0, 0, 1), true, Material::Metal(mat));
    let r_in = Ray::new(v3(0, 0, -1), v3(0, 0, 1));
    let mut rng = RandomSource::lcg(13);
    assert!(mat.scatter(&r_in, &rec, &mut rng).is_none());
}

#[test]
fn metal_clamps_fuzz_into_the_unit_range_at_construction() {
    assert_eq!(Metal::new(v3(1, 1, 1), Real::from_int(3)).fuzz.raw, 65536);
    assert_eq!(Metal::new(v3(1, 1, 1), Real::from_int(-2)).fuzz.raw, 0);
    assert_eq!(Metal::new(v3(1, 1, 1), Real::from_ratio(1, 4)).fuzz.raw, 16384);
}

#[test]
fn dielectric_with_unit_index_passes_a_head_on_ray_through_unbent() {
    let mat = Dielectric::new(Real::from_int(1));
    let rec = record_at(v3(0, 0, -1), v3(0, 0, 1), true, Material::Dielectric(mat));
    let r_in = Ray::new(v3(0, 0, 0), v3(0, 0, -1));
    let mut rng = RandomSource::lcg(17);
    for _ in 0..32 {
        let (attenuation, scattered) =
            mat.scatter(&r_in, &rec, &mut rng).expect("glass never absorbs");
        // Glass does not tint.
        assert_eq!(
            (attenuation.x.raw, attenuation.y.raw, attenuation.z.raw),
            (65536, 65536, 65536),
        );
        // No index mismatch: the direction passes through unchanged.
        assert_eq!(
            (scattered.direction.x.raw, scattered.direction.y.raw, scattered.direction.z.raw),
            (0, 0, -65536),
        );
    }
}

#[test]
fn dielectric_always_scatters_whatever_the_incidence() {
    let mat = Dielectric::new(Real::from_ratio(3, 2));
    let mut rng = RandomSource::lcg(19);
    let rec_front = record_at(v3(0, 0, -1), v3(0, 0, 1), true, Material::Dielectric(mat));
    let rec_back = record_at(v3(0, 0, -1), v3(0, 0, -1), false, Material::Dielectric(mat));
    for k in 0..64i64 {
        let r_in = Ray::new(v3(0, 0, 0), Vec3::new(Real { raw: k * 1024 }, Real { raw: 512 }, Real::from_int(-1)));
        let res = mat.scatter(&r_in, &rec_front, &mut rng);
        assert!(res.is_some());
        let res_back = mat.scatter(&r_in, &rec_back, &mut rng);
        assert!(res_back.is_some());
        let (_, scattered) = res.unwrap();
        assert_eq!(scattered.origin.z.raw, -65536);
    }
}

#[test]
fn dielectric_forces_reflection_under_total_internal_reflection() {
    // Leaving dense glass at forty-five degrees: 1.5 * sin(45) > 1, so
    // Snell's law has no solution and the ray must reflect, whatever the
    // Schlick draw says.
    let mat = Dielectric::new(Real::from_ratio(3, 2));
    let rec = record_at(v3(0, 0, 0), v3(0, 0, 1), false, Material::Dielectric(mat));
    let r_in = Ray::new(v3(-1, 0, 1), v3(1, 0, -1));
    let mirrored = Vec3::reflect(&r_in.direction.unit_vector(), &rec.normal);
    let mut rng = RandomSource::lcg(29);
    for _ in 0..32 {
        let (_, scattered) = mat.scatter(&r_in, &rec, &mut rng).expect("glass never absorbs");
        assert_eq!(scattered.direction.x.raw, mirrored.x.raw);
        assert_eq!(scattered.direction.y.raw, mirrored.y.raw);
        assert_eq!(scattered.direction.z.raw, mirrored.z.raw);
    }
}

#[test]
fn material_enum_dispatches_to_its_variant() {
    let albedo = v3(1, 0, 0);
    let mat = Material::Lambertian(Lambertian::new(albedo));
    let rec = record_at(v3(0, 0, 0), v3(0, 1, 0), true, mat);
    let r_in = Ray::new(v3(0, 0, 1), v3(0, -1, -1));
    let mut rng = RandomSource::lcg(23);
    let (attenuation, _) = mat.scatter(&r_in, &rec, &mut rng).expect("diffuse always scatters");
    assert_eq!((attenuation.x.raw, attenuation.y.raw, attenuation.z.raw), (65536, 0, 0));
}
