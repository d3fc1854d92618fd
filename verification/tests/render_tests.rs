use raytracer::camera::Camera;
use raytracer::color::{color_to_u32, write_color};
use raytracer::config::ConfigError;
use raytracer::fixed::FX_ONE;
use raytracer::hittable_list::HittableList;
use raytracer::material::Material;
use raytracer::ray::Ray;
use raytracer::render::{random_scene, ray_color, render_pixel, render_row};
use raytracer::rng::Rng;
use raytracer::sphere::Sphere;
use raytracer::vec3::Vec3;

/// A pinhole camera at the origin looking down the negative z axis with a
/// 90-degree vertical field of view and a square viewport.
fn pinhole() -> Camera {
    Camera::new(
        Vec3::new(0, 0, 0),
        Vec3::new(0, 0, -FX_ONE),
        Vec3::new(0, FX_ONE, 0),
        FX_ONE,
        FX_ONE,
        0,
        FX_ONE,
    )
    .unwrap()
}

#[test]
fn pinhole_center_ray_is_exact() {
    let cam = pinhole();
    let mut rng = Rng::new(1);
    let r = cam.get_ray(FX_ONE / 2, FX_ONE / 2, &mut rng);
    assert_eq!(r.origin, Vec3::new(0, 0, 0));
    assert_eq!(r.direction, Vec3::new(0, 0, -FX_ONE));
    // The corner rays span the viewport.
    let c = cam.get_ray(0, 0, &mut rng);
    assert_eq!(c.direction, Vec3::new(-FX_ONE, -FX_ONE, -FX_ONE));
}

#[test]
fn camera_rejects_bad_configuration() {
    let bad_shape = Camera::new(
        Vec3::new(0, 0, 0),
        Vec3::new(0, 0, -FX_ONE),
        Vec3::new(0, FX_ONE, 0),
        FX_ONE,
        FX_ONE,
        -1,
        FX_ONE,
    );
    assert_eq!(bad_shape.unwrap_err(), ConfigError::InvalidCameraShape);
    let degenerate = Camera::new(
        Vec3::new(FX_ONE, 0, 0),
        Vec3::new(FX_ONE, 0, 0),
        Vec3::new(0, FX_ONE, 0),
        FX_ONE,
        FX_ONE,
        0,
        FX_ONE,
    );
    assert_eq!(degenerate.unwrap_err(), ConfigError::DegenerateOrientation);
}

#[test]
fn depth_zero_is_always_black() {
    let mut rng = Rng::new(3);
    let world = random_scene(&mut rng);
    let ray = Ray::new(Vec3::new(0, 0, 3 * FX_ONE), Vec3::new(0, 0, -FX_ONE));
    let c = ray_color(&ray, &world, 0, &mut rng);
    assert_eq!(c, Vec3::new(0, 0, 0));
    let c2 = ray_color(&ray, &world, -5, &mut rng);
    assert_eq!(c2, Vec3::new(0, 0, 0));
}

#[test]
fn background_depends_only_on_direction() {
    let empty = HittableList::new();
    let mut rng = Rng::new(4);
    let dir = Vec3::new(0, 0, -FX_ONE);
    let a = ray_color(&Ray::new(Vec3::new(0, 0, 0), dir), &empty, 10, &mut rng);
    let b = ray_color(
        &Ray::new(Vec3::new(5 * FX_ONE, -2 * FX_ONE, 7 * FX_ONE), dir),
        &empty,
        10,
        &mut rng,
    );
    assert_eq!(a, b);
    // A level ray blends white and sky evenly.
    assert_eq!(a, Vec3::new(49152, 55705, FX_ONE));
    // Straight up gives the pure sky color, straight down pure white.
    let up = ray_color(
        &Ray::new(Vec3::new(0, 0, 0), Vec3::new(0, FX_ONE, 0)),
        &empty,
        10,
        &mut rng,
    );
    assert_eq!(up, Vec3::new(32768, 45875, FX_ONE));
    let down = ray_color(
        &Ray::new(Vec3::new(0, 0, 0), Vec3::new(0, -FX_ONE, 0)),
        &empty,
        10,
        &mut rng,
    );
    assert_eq!(down, Vec3::new(FX_ONE, FX_ONE, FX_ONE));
}

/// The two-sphere scene: a red unit sphere ahead of the camera and a huge
/// gray ground sphere far below.
fn two_sphere_scene() -> HittableList {
    let mut world = HittableList::new();
    let red = world.add_material(Material::lambertian(Vec3::new(58982, 6554, 6554)).unwrap());
    let gray = world.add_material(Material::lambertian(Vec3::new(32768, 32768, 32768)).unwrap());
    world.add(Sphere::new(Vec3::new(0, 0, -2 * FX_ONE), FX_ONE, red).unwrap());
    world.add(Sphere::new(Vec3::new(0, -6586368, -2 * FX_ONE), 6553600, gray).unwrap());
    world
}

#[test]
fn sky_pixels_show_the_gradient_and_sphere_pixels_are_shaded() {
    let cam = pinhole();
    let world = two_sphere_scene();
    let spp: u32 = 4;

    // The top-center pixel looks upward past both spheres: every sample is
    // pure background, whose blue channel is exactly one.
    let mut rng = Rng::new(100);
    let sky = render_pixel(&cam, &world, 4, 8, 9, 9, spp, 8, &mut rng);
    assert_eq!(sky.z, spp as i64 * FX_ONE);
    assert!(sky.x >= spp as i64 * 32768);
    assert!(sky.x <= spp as i64 * FX_ONE);

    // The center pixel hits the red sphere on every sample: its color is
    // tinted by the red albedo, so the blue channel falls well below one.
    let mut rng = Rng::new(101);
    let center = render_pixel(&cam, &world, 4, 4, 9, 9, spp, 8, &mut rng);
    assert!(center.z < spp as i64 * FX_ONE / 4);
    assert_ne!((center.x, center.y, center.z), (sky.x, sky.y, sky.z));
}

#[test]
fn render_row_emits_one_word_per_column() {
    let cam = pinhole();
    let world = two_sphere_scene();
    let row = render_row(&cam, &world, 8, 9, 9, 2, 4, 7);
    assert_eq!(row.len(), 9);
    // A sky pixel's packed blue byte is maximal after gamma and clamping.
    assert_eq!(row[4] & 0xFF, 0xFF);
}

#[test]
fn full_brightness_quantizes_to_the_maximum_channel() {
    let mut out: Vec<u8> = Vec::new();
    // An accumulated sum of exactly the sample count: averaged value one.
    write_color(&mut out, Vec3::new(6553600, 6553600, 6553600), 100);
    assert_eq!(out, b"255 255 255\n");
    assert_eq!(color_to_u32(Vec3::new(6553600, 6553600, 6553600), 100), 0x00FF_FFFF);
}

#[test]
fn gamma_and_quantization_of_a_quarter_average() {
    // An averaged channel of exactly 1/4 gamma-corrects to exactly 1/2,
    // which quantizes to 128.
    let mut out: Vec<u8> = Vec::new();
    write_color(&mut out, Vec3::new(25 * FX_ONE, 25 * FX_ONE, 25 * FX_ONE), 100);
    assert_eq!(out, b"128 128 128\n");
}

#[test]
fn full_brightness_is_maximal_for_large_sample_counts() {
    // The averaged-1.0 law holds for every sample count, not just small
    // ones: the direct division keeps the average exactly one.
    let mut out: Vec<u8> = Vec::new();
    write_color(&mut out, Vec3::new(60000 * FX_ONE, 60000 * FX_ONE, 60000 * FX_ONE), 60000);
    assert_eq!(out, b"255 255 255\n");
}

#[test]
fn black_quantizes_to_zero_and_lines_append() {
    let mut out: Vec<u8> = Vec::new();
    write_color(&mut out, Vec3::new(0, 0, 0), 100);
    write_color(&mut out, Vec3::new(6553600, 0, 0), 100);
    assert_eq!(out, b"0 0 0\n255 0 0\n");
}
