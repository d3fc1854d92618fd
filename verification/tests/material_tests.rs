use raytracer::fixed::FX_ONE;
use raytracer::hittable::HitRecord;
use raytracer::material::Material;
use raytracer::ray::Ray;
use raytracer::rng::Rng;
use raytracer::vec3::Vec3;

fn record() -> HitRecord {
    HitRecord {
        p: Vec3::new(0, 0, 0),
        normal: Vec3::new(0, 0, FX_ONE),
        t: FX_ONE,
        front_face: true,
        mat: 0,
    }
}

#[test]
fn lambertian_never_absorbs() {
    let albedo = Vec3::new(45875, 13107, 6554);
    let m = Material::lambertian(albedo).unwrap();
    let rec = record();
    let mut rng = Rng::new(5);
    for _ in 0..50 {
        let ray = Ray::new(Vec3::new(0, 0, 3 * FX_ONE), Vec3::new(0, 0, -FX_ONE));
        let sc = m.scatter(&ray, &rec, &mut rng).expect("diffuse always scatters");
        assert_eq!(sc.attenuation, albedo);
        assert_eq!(sc.scattered.origin, rec.p);
    }
}

#[test]
fn metal_absorbs_exactly_when_reflection_points_inward() {
    let albedo = Vec3::new(32768, 32768, 32768);
    let m = Material::metal(albedo, 0).unwrap();
    let rec = record();
    let mut rng = Rng::new(11);

    // Incident direction opposing the normal: the mirror reflection points
    // out of the surface, so the ray scatters, deterministically at fuzz 0.
    let toward = Ray::new(Vec3::new(0, 0, 3 * FX_ONE), Vec3::new(0, 0, -FX_ONE));
    let sc = m.scatter(&toward, &rec, &mut rng).expect("must scatter");
    assert_eq!(sc.scattered.direction, Vec3::new(0, 0, FX_ONE));
    assert_eq!(sc.attenuation, albedo);

    // Incident direction along the normal: the reflection points inward
    // and the ray is absorbed.
    let away = Ray::new(Vec3::new(0, 0, 3 * FX_ONE), Vec3::new(0, 0, FX_ONE));
    assert!(m.scatter(&away, &rec, &mut rng).is_none());
}

#[test]
fn dielectric_always_scatters_with_white_attenuation() {
    let m = Material::dielectric(98304).unwrap();
    let rec = record();
    let mut rng = Rng::new(17);
    for _ in 0..50 {
        let ray = Ray::new(Vec3::new(0, 0, 3 * FX_ONE), Vec3::new(0, 0, -FX_ONE));
        let sc = m.scatter(&ray, &rec, &mut rng).expect("glass always scatters");
        assert_eq!(sc.attenuation, Vec3::new(FX_ONE, FX_ONE, FX_ONE));
        assert_eq!(sc.scattered.origin, rec.p);
    }
}

#[test]
fn unit_index_dielectric_passes_normal_incidence_unbent() {
    // With a refractive index of one the Schlick reflectance at normal
    // incidence is zero, so the ray refracts, and identity refraction
    // reproduces the incident direction exactly.
    let m = Material::dielectric(FX_ONE).unwrap();
    let rec = record();
    let mut rng = Rng::new(23);
    for _ in 0..20 {
        let ray = Ray::new(Vec3::new(0, 0, 3 * FX_ONE), Vec3::new(0, 0, -FX_ONE));
        let sc = m.scatter(&ray, &rec, &mut rng).expect("glass always scatters");
        assert_eq!(sc.scattered.direction, Vec3::new(0, 0, -FX_ONE));
    }
}
