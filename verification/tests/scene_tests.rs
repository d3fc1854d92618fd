use raytracer::config::ConfigError;
use raytracer::fixed::FX_ONE;
use raytracer::hittable_list::HittableList;
use raytracer::material::Material;
use raytracer::ray::Ray;
use raytracer::render::random_scene;
use raytracer::rng::Rng;
use raytracer::sphere::Sphere;
use raytracer::vec3::Vec3;

fn gray() -> Material {
    Material::lambertian(Vec3::new(32768, 32768, 32768)).unwrap()
}

#[test]
fn axial_ray_hits_at_distance_minus_radius() {
    // A ray down the z axis from distance 3 at a sphere of radius 1/2
    // centered at the origin: the computations are exact, and the nearest
    // hit parameter is exactly 3 - 1/2.
    let mut world = HittableList::new();
    let m = world.add_material(gray());
    let s = Sphere::new(Vec3::new(0, 0, 0), FX_ONE / 2, m).unwrap();
    let ray = Ray::new(Vec3::new(0, 0, 3 * FX_ONE), Vec3::new(0, 0, -FX_ONE));
    let hit = s.hit(&ray, 66, 0x4000_0000).expect("must hit");
    assert_eq!(hit.t, 3 * FX_ONE - FX_ONE / 2);
    assert!(hit.front_face);
    assert_eq!(hit.normal, Vec3::new(0, 0, FX_ONE));
    assert_eq!(hit.p, Vec3::new(0, 0, FX_ONE / 2));
}

#[test]
fn negative_discriminant_means_no_hit() {
    let mut world = HittableList::new();
    let m = world.add_material(gray());
    let s = Sphere::new(Vec3::new(0, 0, 0), FX_ONE / 2, m).unwrap();
    // This ray passes three units above the sphere.
    let ray = Ray::new(
        Vec3::new(0, 3 * FX_ONE, 3 * FX_ONE),
        Vec3::new(0, 0, -FX_ONE),
    );
    assert!(s.hit(&ray, 66, 0x4000_0000).is_none());
}

#[test]
fn hit_outside_the_interval_is_discarded() {
    let mut world = HittableList::new();
    let m = world.add_material(gray());
    let s = Sphere::new(Vec3::new(0, 0, 0), FX_ONE / 2, m).unwrap();
    let ray = Ray::new(Vec3::new(0, 0, 3 * FX_ONE), Vec3::new(0, 0, -FX_ONE));
    // Both roots lie beyond the narrow interval.
    assert!(s.hit(&ray, 66, FX_ONE).is_none());
}

#[test]
fn list_reports_the_nearest_hit() {
    let mut world = HittableList::new();
    let m = world.add_material(gray());
    let near = Sphere::new(Vec3::new(0, 0, 0), FX_ONE / 2, m).unwrap();
    let far = Sphere::new(Vec3::new(0, 0, -4 * FX_ONE), FX_ONE / 2, m).unwrap();
    // Insertion order does not change the winner.
    world.add(far);
    world.add(near);
    let ray = Ray::new(Vec3::new(0, 0, 3 * FX_ONE), Vec3::new(0, 0, -FX_ONE));
    let hit = world.hit(&ray, 66, 0x4000_0000).expect("must hit");
    assert_eq!(hit.t, 3 * FX_ONE - FX_ONE / 2);
}

#[test]
fn sphere_rejects_bad_configuration() {
    assert_eq!(
        Sphere::new(Vec3::new(0, 0, 0), 0, 0).unwrap_err(),
        ConfigError::NonPositiveRadius
    );
    assert_eq!(
        Sphere::new(Vec3::new(0, 0, 0), -5, 0).unwrap_err(),
        ConfigError::NonPositiveRadius
    );
    assert_eq!(
        Sphere::new(Vec3::new(0x900_0000, 0, 0), FX_ONE, 0).unwrap_err(),
        ConfigError::OutOfRange
    );
}

#[test]
fn material_constructors_validate_eagerly() {
    assert_eq!(
        Material::lambertian(Vec3::new(70000, 0, 0)).unwrap_err(),
        ConfigError::InvalidAlbedo
    );
    assert_eq!(
        Material::metal(Vec3::new(0, 0, 0), -1).unwrap_err(),
        ConfigError::NegativeFuzz
    );
    assert_eq!(
        Material::metal(Vec3::new(-1, 0, 0), 0).unwrap_err(),
        ConfigError::InvalidAlbedo
    );
    // An over-unit fuzz is capped at one, as in the classic model.
    match Material::metal(Vec3::new(0, 0, 0), 100000).unwrap() {
        Material::Metal { fuzz, .. } => assert_eq!(fuzz, FX_ONE),
        _ => panic!("wrong variant"),
    }
    assert_eq!(
        Material::dielectric(1000).unwrap_err(),
        ConfigError::InvalidRefractiveIndex
    );
    assert!(Material::dielectric(98304).is_ok());
}

#[test]
fn random_scene_has_ground_and_three_big_spheres() {
    let mut rng = Rng::new(2024);
    let world = random_scene(&mut rng);
    let n = world.objects.len();
    assert!(n >= 4);
    assert_eq!(world.materials.len(), n);

    let ground = world.objects[0];
    assert_eq!(ground.center, Vec3::new(0, -65536000, 0));
    assert_eq!(ground.radius, 65536000);
    match world.materials[ground.mat] {
        Material::Lambertian { albedo } => {
            assert_eq!(albedo, Vec3::new(32768, 32768, 32768))
        }
        _ => panic!("ground must be diffuse"),
    }

    let glass = world.objects[n - 3];
    assert_eq!(glass.center, Vec3::new(0, FX_ONE, 0));
    assert!(matches!(
        world.materials[glass.mat],
        Material::Dielectric {
            refractive_index: 98304
        }
    ));
    let brown = world.objects[n - 2];
    assert_eq!(brown.center, Vec3::new(-4 * FX_ONE, FX_ONE, 0));
    let metal = world.objects[n - 1];
    assert_eq!(metal.center, Vec3::new(4 * FX_ONE, FX_ONE, 0));
    assert!(matches!(
        world.materials[metal.mat],
        Material::Metal { fuzz: 0, .. }
    ));

    // Every sphere indexes a material that exists.
    for s in &world.objects {
        assert!(s.mat < world.materials.len());
        assert!(s.radius > 0);
    }
}
