use raytracer::fixed::{clamp, fdiv, fmul, fsqrt, FX_ONE};
use raytracer::rng::Rng;
use raytracer::vec3::{reflect, refract, unit_vector, Vec3};

#[test]
fn fixed_point_products_and_quotients_are_exact() {
    assert_eq!(fmul(FX_ONE, FX_ONE), FX_ONE);
    assert_eq!(fmul(32768, 32768), 16384);
    assert_eq!(fmul(-32768, 32768), -16384);
    assert_eq!(fdiv(FX_ONE, 2 * FX_ONE), 32768);
    assert_eq!(fdiv(-FX_ONE, 2 * FX_ONE), -32768);
    assert_eq!(fdiv(196608, FX_ONE), 196608);
}

#[test]
fn fixed_point_square_roots() {
    assert_eq!(fsqrt(FX_ONE), FX_ONE);
    assert_eq!(fsqrt(16384), 32768);
    assert_eq!(fsqrt(0), 0);
    assert_eq!(fsqrt(4 * FX_ONE), 2 * FX_ONE);
}

#[test]
fn clamp_limits_both_sides() {
    assert_eq!(clamp(70000, 0, FX_ONE), FX_ONE);
    assert_eq!(clamp(-3, 0, FX_ONE), 0);
    assert_eq!(clamp(1234, 0, FX_ONE), 1234);
}

#[test]
fn dot_cross_and_length_of_a_three_four_triangle() {
    let v = Vec3::new(3 * FX_ONE, 4 * FX_ONE, 0);
    assert_eq!(v.length_squared(), 25 * FX_ONE);
    assert_eq!(v.length(), 5 * FX_ONE);
    let u = unit_vector(v);
    // 0.6 and 0.8, truncated toward zero.
    assert_eq!(u.x, 39321);
    assert_eq!(u.y, 52428);
    assert_eq!(u.z, 0);
}

#[test]
fn unit_vector_of_zero_is_zero() {
    let u = unit_vector(Vec3::new(0, 0, 0));
    assert_eq!(u, Vec3::new(0, 0, 0));
}

#[test]
fn reflection_mirrors_about_the_normal() {
    let v = Vec3::new(FX_ONE, -FX_ONE, 0);
    let n = Vec3::new(0, FX_ONE, 0);
    let r = reflect(v, n);
    assert_eq!(r, Vec3::new(FX_ONE, FX_ONE, 0));
}

#[test]
fn oblique_identity_refraction_is_exact_to_one_step() {
    // A 45-degree incident unit vector; with ratio one the refracted
    // direction reproduces the incident one except for one representation
    // step of rounding in the axial component.
    let uv = Vec3::new(46341, 0, -46341);
    let n = Vec3::new(0, 0, FX_ONE);
    let r = refract(uv, n, FX_ONE);
    assert_eq!(r, Vec3::new(46341, 0, -46340));
}

#[test]
fn generator_is_deterministic_per_seed() {
    let mut r1 = Rng::new(42);
    let mut r2 = Rng::new(42);
    for _ in 0..100 {
        assert_eq!(r1.random_fx(), r2.random_fx());
    }
    let mut r3 = Rng::new(43);
    let mut any_diff = false;
    let mut r4 = Rng::new(42);
    for _ in 0..10 {
        if r3.random_fx() != r4.random_fx() {
            any_diff = true;
        }
    }
    assert!(any_diff);
}

#[test]
fn unit_draws_stay_in_range() {
    let mut rng = Rng::new(7);
    for _ in 0..1000 {
        let v = rng.random_fx();
        assert!((0..65536).contains(&v));
        let w = rng.random_fx_range(-FX_ONE, FX_ONE);
        assert!((-FX_ONE..=FX_ONE).contains(&w));
    }
}

#[test]
fn sphere_samples_stay_inside_the_unit_sphere() {
    let mut rng = Rng::new(9);
    for _ in 0..200 {
        let p = rng.random_in_unit_sphere();
        assert!(p.length_squared() < FX_ONE);
        let d = rng.random_in_unit_disk();
        assert!(d.length_squared() < FX_ONE);
        assert_eq!(d.z, 0);
    }
}
