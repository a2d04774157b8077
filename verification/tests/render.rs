use raytracer::camera::{write_color, Camera};
use raytracer::fixed::Real;
use raytracer::hittable::{Hittable, HittableList};
use raytracer::material::{Lambertian, Material};
use raytracer::ray::Ray;
use raytracer::rng::RandomSource;
use raytracer::sphere::Sphere;
use raytracer::vec3::Vec3;

fn v3(x: i64, y: i64, z: i64) -> Vec3 {
    Vec3::new(Real::from_int(x), Real::from_int(y), Real::from_int(z))
}

fn gray() -> Material {
    Material::Lambertian(Lambertian::new(Vec3::new(
        Real::from_ratio(1, 2),
        Real::from_ratio(1, 2),
        Real::from_ratio(1, 2),
    )))
}

fn small_camera() -> Camera {
    let mut cam = Camera::default();
    cam.image_width = 2;
    cam.aspect_ratio = Real::from_int(1);
    cam.samples_per_pixel = 1;
    cam.max_depth = 1;
    cam
}

#[test]
fn ray_at_walks_the_half_line() {
    let ray = Ray::new(v3(1, 2, 3), v3(1, 0, 0));
    let p = ray.at(Real::from_int(2));
    assert_eq!((p.x.raw, p.y.raw, p.z.raw), (3 * 65536, 2 * 65536, 3 * 65536));
    let q = ray.at(Real::from_ratio(-1, 2));
    assert_eq!(q.x.raw, 32768);
}

#[test]
fn demo_ray_color_shades_the_fixed_sphere_by_its_normal() {
    // Straight at the demo sphere: hit at t = 0.5 with normal (0, 0, 1),
    // so the color is ((n + 1) / 2) = (0.5, 0.5, 1).
    let hit = Ray::new(v3(0, 0, 0), v3(0, 0, -1)).ray_color();
    assert_eq!((hit.x.raw, hit.y.raw, hit.z.raw), (32768, 32768, 65536));
}

#[test]
fn demo_ray_color_blends_the_background_by_height() {
    // Straight up: all sky blue (0.5, 0.7, 1).
    let up = Ray::new(v3(0, 0, 0), v3(0, 1, 0)).ray_color();
    assert_eq!((up.x.raw, up.y.raw, up.z.raw), (32768, 45875, 65536));
    // Level with the horizon: the even blend of white and sky blue.
    let level = Ray::new(v3(0, 0, 0), v3(1, 0, 0)).ray_color();
    assert_eq!((level.x.raw, level.y.raw, level.z.raw), (49152, 55705, 65536));
}

#[test]
fn write_color_averages_gamma_corrects_and_clamps() {
    // A full-white single sample clamps just under one: intensity 255.
    assert_eq!(write_color(v3(1, 1, 1), 1), (255, 255, 255));
    // Black stays black.
    assert_eq!(write_color(v3(0, 0, 0), 7), (0, 0, 0));
    // A sum of one over four samples averages to 1/4; gamma lifts it to
    // 1/2; 256 * 0.5 = 128.
    assert_eq!(write_color(v3(1, 1, 1), 4), (128, 128, 128));
    // Negative light (impossible in renders, but defined) clamps to zero.
    assert_eq!(write_color(v3(-1, -1, -1), 1), (0, 0, 0));
}

#[test]
fn initialize_derives_height_from_width_and_aspect_ratio() {
    let mut cam = Camera::default();
    cam.image_width = 400;
    cam.aspect_ratio = Real::from_ratio(16, 9);
    cam.initialize();
    assert_eq!(cam.image_height, 225);
    // The height never drops below one pixel.
    let mut flat = Camera::default();
    flat.image_width = 100;
    flat.aspect_ratio = Real::from_int(200);
    flat.initialize();
    assert_eq!(flat.image_height, 1);
    // The camera center is the configured eye point.
    assert_eq!(flat.center.x.raw, flat.lookfrom.x.raw);
    assert_eq!(flat.center.z.raw, flat.lookfrom.z.raw);
}

#[test]
fn pinhole_rays_start_at_the_camera_center() {
    let mut cam = small_camera();
    cam.initialize();
    let mut rng = RandomSource::lcg(3);
    for i in 0..2 {
        for j in 0..2 {
            let ray = cam.get_ray(i, j, &mut rng);
            assert_eq!(ray.origin.x.raw, cam.center.x.raw);
            assert_eq!(ray.origin.y.raw, cam.center.y.raw);
            assert_eq!(ray.origin.z.raw, cam.center.z.raw);
        }
    }
}

#[test]
fn zero_depth_renders_pure_black_whatever_the_scene() {
    let mut world = HittableList::new();
    // A huge sphere surrounding the camera entirely.
    world.add(Hittable::Sphere(Sphere::new(v3(0, 0, 0), Real::from_int(100), gray())));
    let mut cam = small_camera();
    cam.max_depth = 0;
    let mut rng = RandomSource::lcg(1);
    let pixels = cam.render(&world, &mut rng);
    assert_eq!(pixels.len(), 4);
    for px in pixels {
        assert_eq!(px, (0, 0, 0));
    }
}

#[test]
fn depth_zero_color_is_black_for_any_ray() {
    let cam = small_camera();
    let mut world = HittableList::new();
    world.add(Hittable::Sphere(Sphere::new(v3(0, 0, 0), Real::from_int(100), gray())));
    let mut rng = RandomSource::lcg(2);
    let ray = Ray::new(v3(0, 0, 0), v3(0, 0, -1));
    let c = cam.ray_color(&ray, &world, 0, &mut rng);
    assert_eq!((c.x.raw, c.y.raw, c.z.raw), (0, 0, 0));
}

#[test]
fn tiny_render_is_deterministic_with_a_seeded_source() {
    let mut world = HittableList::new();
    world.add(Hittable::Sphere(Sphere::new(v3(0, 0, 1), Real::from_ratio(1, 2), gray())));
    let mut cam_a = small_camera();
    let mut rng_a = RandomSource::lcg(99);
    let run_a = cam_a.render(&world, &mut rng_a);
    let mut cam_b = small_camera();
    let mut rng_b = RandomSource::lcg(99);
    let run_b = cam_b.render(&world, &mut rng_b);
    assert_eq!(run_a.len(), 4);
    assert_eq!(run_a, run_b);
}

#[test]
fn pixels_whose_rays_miss_get_exactly_the_background_gradient() {
    // The default camera at (0, 0, -1) looks toward +z with a 90-degree
    // field of view; a small sphere far off to the side is missed by every
    // pixel ray, so the image must equal the empty scene's gradient image.
    let mut off_scene = HittableList::new();
    off_scene.add(Hittable::Sphere(Sphere::new(
        v3(1000, 0, 0),
        Real::from_ratio(1, 2),
        gray(),
    )));
    let empty = HittableList::new();

    let mut cam_a = small_camera();
    let mut rng_a = RandomSource::lcg(7);
    let with_sphere = cam_a.render(&off_scene, &mut rng_a);

    let mut cam_b = small_camera();
    let mut rng_b = RandomSource::lcg(7);
    let background_only = cam_b.render(&empty, &mut rng_b);

    assert_eq!(with_sphere, background_only);
    // The gradient really varies down the image: the top row is bluer.
    assert_eq!(with_sphere.len(), 4);
    assert!(with_sphere[0] != (0, 0, 0));
    assert!(
        with_sphere[0].1 != with_sphere[2].1 || with_sphere[0].0 != with_sphere[2].0,
        "rows of a vertical gradient should differ",
    );
}

#[test]
fn a_sphere_filling_the_frame_absorbs_one_bounce_renders_to_black() {
    // Depth one: every hit scatters once, the recursion bottoms out black,
    // and the attenuation of black is black.
    let mut world = HittableList::new();
    world.add(Hittable::Sphere(Sphere::new(v3(0, 0, 0), Real::from_int(50), gray())));
    let mut cam = small_camera();
    let mut rng = RandomSource::lcg(31);
    let pixels = cam.render(&world, &mut rng);
    assert_eq!(pixels.len(), 4);
    for px in pixels {
        assert_eq!(px, (0, 0, 0));
    }
}
