//! The three material models: diffuse (Lambertian), specular with fuzz
//! (Metal), and refractive (Dielectric).  A material decides whether and how
//! an incident ray continues after a hit.

use vstd::prelude::*;

verus! {

use crate::color::Color;
use crate::config::ConfigError;
use crate::fixed::{
    fmul_s, fdiv_s, fsqrt_s, clamp_s, fmul, fdiv, fsqrt, clamp, FX_ONE,
    lemma_fmul_abs, lemma_fdiv_abs, lemma_isqrt_bounds,
};
use crate::hittable::{HitRecord, HR3, wf_hr};
use crate::ray::{Ray, wf_ray};
use crate::rng::Rng;
use crate::vec3::{
    Vec3, V3, in_bound, add_s, neg_s, scale_s, dot_s, len_sq_s, near_zero_s,
    reflect_s, refract_s, unit_s, reflect, refract, unit_vector,
};
use vstd::arithmetic::div_mod::lemma_div_pos_is_pos;
use vstd::arithmetic::div_mod::lemma_div_is_ordered_by_denominator;

/// A color whose channels all lie in `[0, 1]`.
pub open spec fn color01(c: V3) -> bool {
    &&& 0 <= c.x <= 65536
    &&& 0 <= c.y <= 65536
    &&& 0 <= c.z <= 65536
}

#[derive(Clone, Copy, Debug, PartialEq, Eq, Structural)]
pub enum Material {
    Lambertian { albedo: Color },
    Metal { albedo: Color, fuzz: i64 },
    Dielectric { refractive_index: i64 },
}

/// Valid material parameters: albedo channels in `[0, 1]`, fuzz in `[0, 1]`,
/// refractive index in the supported `[1/4, 8]` band.
pub open spec fn wf_material(m: Material) -> bool {
    match m {
        Material::Lambertian { albedo } => color01(albedo@),
        Material::Metal { albedo, fuzz } => color01(albedo@) && 0 <= fuzz <= 65536,
        Material::Dielectric { refractive_index } => 16384 <= refractive_index <= 524288,
    }
}

/// What a scatter decision hands back: the color filter to apply and the
/// continuing ray.
#[derive(Clone, Copy, Debug, PartialEq, Eq, Structural)]
pub struct ScatterRecord {
    pub attenuation: Color,
    pub scattered: Ray,
}

/// A candidate drawn from the unit sphere by rejection sampling.
pub open spec fn sphere_sample(v: V3) -> bool {
    &&& in_bound(v, 65536)
    &&& len_sq_s(v) < 65536
}

/// The diffuse scatter direction: normal plus a unit-sphere sample, falling
/// back to the bare normal when the sum degenerates to (near) zero.
pub open spec fn lambertian_dir_s(normal: V3, smp: V3) -> V3 {
    let d = add_s(normal, smp);
    if near_zero_s(d) {
        normal
    } else {
        d
    }
}

/// The metal scatter direction: the mirror reflection of the normalized
/// incident direction, perturbed by `fuzz` times a unit-sphere sample.
pub open spec fn metal_dir_s(r_in: Ray, normal: V3, fuzz: int, smp: V3) -> V3 {
    add_s(reflect_s(unit_s(r_in.direction@), normal), scale_s(smp, fuzz))
}

/// The refraction ratio: `1 / index` entering from outside, `index` leaving.
pub open spec fn dielectric_ratio_s(ior: int, front_face: bool) -> int {
    if front_face {
        fdiv_s(65536, ior)
    } else {
        ior
    }
}

/// Schlick's reflectance approximation:
/// `r0 + (1 - r0) (1 - cos)^5` with `r0 = ((1 - ratio) / (1 + ratio))^2`.
pub open spec fn reflectance_s(cos: int, ratio: int) -> int {
    let r0a = fdiv_s(65536 - ratio, 65536 + ratio);
    let r0 = fmul_s(r0a, r0a);
    let base = 65536 - cos;
    let b2 = fmul_s(base, base);
    let b4 = fmul_s(b2, b2);
    let pow5 = fmul_s(b4, base);
    r0 + fmul_s(65536 - r0, pow5)
}

/// The dielectric scatter direction for a given uniform draw: reflect on
/// total internal reflection or when the Schlick probability exceeds the
/// draw, refract otherwise.  The incidence cosine is clamped to `[-1, 1]`
/// to guard fixed-point rounding.
pub open spec fn dielectric_dir_s(ior: int, r_in: Ray, rec: HR3, draw: int) -> V3 {
    let ratio = dielectric_ratio_s(ior, rec.front_face);
    let unit = unit_s(r_in.direction@);
    let cos = clamp_s(dot_s(neg_s(unit), rec.normal), -65536, 65536);
    let sin = fsqrt_s(65536 - fmul_s(cos, cos));
    let cannot_refract = fmul_s(ratio, sin) > 65536;
    if cannot_refract || reflectance_s(cos, ratio) > draw {
        reflect_s(unit, rec.normal)
    } else {
        refract_s(unit, rec.normal, ratio)
    }
}

/// What a scatter decision promises, per material: Lambertian and
/// Dielectric always scatter (from the hit point, with the model's
/// direction for some consumed sample or draw, and with albedo
/// respectively white attenuation); Metal scatters exactly when the
/// perturbed reflection points out of the surface.
pub open spec fn scatter_holds(
    m: Material,
    r_in: Ray,
    rec: HitRecord,
    res: Option<ScatterRecord>,
) -> bool {
    match m {
        Material::Lambertian { albedo } => match res {
            Option::Some(sc) => {
                &&& sc.attenuation == albedo
                &&& sc.scattered.origin == rec.p
                &&& wf_ray(sc.scattered)
                &&& exists|smp: V3|
                    sphere_sample(smp) && sc.scattered.direction@
                        == #[trigger] lambertian_dir_s(rec.normal@, smp)
            },
            Option::None => false,
        },
        Material::Metal { albedo, fuzz } => exists|smp: V3|
            #![trigger metal_dir_s(r_in, rec.normal@, fuzz as int, smp)]
            {
                let dir = metal_dir_s(r_in, rec.normal@, fuzz as int, smp);
                &&& sphere_sample(smp)
                &&& (res is Some <==> dot_s(dir, rec.normal@) > 0)
                &&& match res {
                    Option::Some(sc) => {
                        &&& sc.attenuation == albedo
                        &&& sc.scattered.origin == rec.p
                        &&& sc.scattered.direction@ == dir
                        &&& wf_ray(sc.scattered)
                    },
                    Option::None => true,
                }
            },
        Material::Dielectric { refractive_index } => match res {
            Option::Some(sc) => {
                &&& sc.attenuation@ == (V3 { x: 65536int, y: 65536int, z: 65536int })
                &&& sc.scattered.origin == rec.p
                &&& wf_ray(sc.scattered)
                &&& exists|draw: int|
                    0 <= draw < 65536 && sc.scattered.direction@
                        == #[trigger] dielectric_dir_s(refractive_index as int, r_in, rec@, draw)
            },
            Option::None => false,
        },
    }
}

/// Schlick's approximation, executable form.
pub fn reflectance(cosine: i64, ref_ratio: i64) -> (r: i64)
    requires
        -65536 <= cosine <= 65536,
        0 < ref_ratio <= 524288,
    ensures
        r == reflectance_s(cosine as int, ref_ratio as int),
{
    let denom = FX_ONE + ref_ratio;
    proof {
        lemma_fdiv_abs(65536 - ref_ratio as int, denom as int, 524288);
    }
    let r0a = fdiv(FX_ONE - ref_ratio, denom);
    proof {
        lemma_fmul_abs(r0a as int, r0a as int, 34359738368, 34359738368);
    }
    let r0 = fmul(r0a, r0a);
    let base = FX_ONE - cosine;
    proof {
        lemma_fmul_abs(base as int, base as int, 131072, 131072);
    }
    let b2 = fmul(base, base);
    proof {
        lemma_fmul_abs(b2 as int, b2 as int, 262144, 262144);
    }
    let b4 = fmul(b2, b2);
    proof {
        lemma_fmul_abs(b4 as int, base as int, 1048576, 131072);
    }
    let pow5 = fmul(b4, base);
    proof {
        lemma_fmul_abs(65536 - r0 as int, pow5 as int, 0x40_0000_0001_0000, 2097152);
    }
    r0 + fmul(FX_ONE - r0, pow5)
}

impl Material {
    /// A diffuse material; rejected when a channel leaves `[0, 1]`.
    pub fn lambertian(albedo: Color) -> (res: Result<Material, ConfigError>)
        ensures
            res.is_ok() <==> color01(albedo@),
            match res {
                Result::Ok(m) => m == (Material::Lambertian { albedo }) && wf_material(m),
                Result::Err(e) => e == ConfigError::InvalidAlbedo,
            },
    {
        if albedo.x < 0 || albedo.x > FX_ONE || albedo.y < 0 || albedo.y > FX_ONE
            || albedo.z < 0 || albedo.z > FX_ONE {
            Result::Err(ConfigError::InvalidAlbedo)
        } else {
            Result::Ok(Material::Lambertian { albedo })
        }
    }

    /// A fuzzy mirror; the fuzz factor is capped at one as in the classic
    /// model, and a negative fuzz is rejected.
    pub fn metal(albedo: Color, fuzz: i64) -> (res: Result<Material, ConfigError>)
        ensures
            res.is_ok() <==> (color01(albedo@) && fuzz >= 0),
            match res {
                Result::Ok(m) => m == (Material::Metal {
                    albedo,
                    fuzz: if fuzz < 65536 { fuzz } else { 65536 },
                }) && wf_material(m),
                Result::Err(e) => if !color01(albedo@) {
                    e == ConfigError::InvalidAlbedo
                } else {
                    e == ConfigError::NegativeFuzz
                },
            },
    {
        if albedo.x < 0 || albedo.x > FX_ONE || albedo.y < 0 || albedo.y > FX_ONE
            || albedo.z < 0 || albedo.z > FX_ONE {
            Result::Err(ConfigError::InvalidAlbedo)
        } else if fuzz < 0 {
            Result::Err(ConfigError::NegativeFuzz)
        } else {
            let f = if fuzz < FX_ONE {
                fuzz
            } else {
                FX_ONE
            };
            Result::Ok(Material::Metal { albedo, fuzz: f })
        }
    }

    /// A refractive material; the index must lie in `[1/4, 8]`.
    pub fn dielectric(refractive_index: i64) -> (res: Result<Material, ConfigError>)
        ensures
            res.is_ok() <==> 16384 <= refractive_index <= 524288,
            match res {
                Result::Ok(m) => m == (Material::Dielectric { refractive_index })
                    && wf_material(m),
                Result::Err(e) => e == ConfigError::InvalidRefractiveIndex,
            },
    {
        if refractive_index < 16384 || refractive_index > 524288 {
            Result::Err(ConfigError::InvalidRefractiveIndex)
        } else {
            Result::Ok(Material::Dielectric { refractive_index })
        }
    }

    /// Decide whether and how the incident ray continues.  Lambertian and
    /// Dielectric materials always scatter; Metal absorbs exactly when the
    /// perturbed reflection points into the surface.
    pub fn scatter(&self, r_in: &Ray, rec: &HitRecord, rng: &mut Rng) -> (res: Option<
        ScatterRecord,
    >)
        requires
            wf_material(*self),
            wf_ray(*r_in),
            wf_hr(rec@),
        ensures
            scatter_holds(*self, *r_in, *rec, res),
    {
        match *self {
            Material::Lambertian { albedo } => {
                let smp = rng.random_in_unit_sphere();
                let d = rec.normal.add(smp);
                let dir = if d.near_zero() {
                    rec.normal
                } else {
                    d
                };
                proof {
                    assert(sphere_sample(smp@) && dir@ == lambertian_dir_s(rec.normal@, smp@));
                }
                Some(ScatterRecord { attenuation: albedo, scattered: Ray::new(rec.p, dir) })
            },
            Material::Metal { albedo, fuzz } => {
                let unit = unit_vector(r_in.direction);
                let refl = reflect(unit, rec.normal);
                let smp = rng.random_in_unit_sphere();
                proof {
                    lemma_fmul_abs(fuzz as int, smp@.x, 65536, 65536);
                    lemma_fmul_abs(fuzz as int, smp@.y, 65536, 65536);
                    lemma_fmul_abs(fuzz as int, smp@.z, 65536, 65536);
                }
                let fz = smp.scale(fuzz);
                let dir = refl.add(fz);
                proof {
                    assert(sphere_sample(smp@) && dir@ == metal_dir_s(
                        *r_in,
                        rec.normal@,
                        fuzz as int,
                        smp@,
                    ));
                }
                if dir.dot(rec.normal) > 0 {
                    Some(ScatterRecord { attenuation: albedo, scattered: Ray::new(rec.p, dir) })
                } else {
                    None
                }
            },
            Material::Dielectric { refractive_index } => {
                let ratio = if rec.front_face {
                    proof {
                        lemma_div_pos_is_pos(0x1_0000_0000, refractive_index as int);
                        lemma_div_is_ordered_by_denominator(
                            0x1_0000_0000,
                            16384,
                            refractive_index as int,
                        );
                        lemma_div_is_ordered_by_denominator(
                            0x1_0000_0000,
                            refractive_index as int,
                            524288,
                        );
                    }
                    fdiv(FX_ONE, refractive_index)
                } else {
                    refractive_index
                };
                let unit = unit_vector(r_in.direction);
                let cos = clamp(unit.neg().dot(rec.normal), -FX_ONE, FX_ONE);
                proof {
                    lemma_fmul_abs(cos as int, cos as int, 65536, 65536);
                    assert(cos as int * cos as int >= 0) by (nonlinear_arith);
                    lemma_div_pos_is_pos(cos as int * cos as int, 65536);
                }
                let sin = fsqrt(FX_ONE - fmul(cos, cos));
                proof {
                    lemma_isqrt_bounds((((FX_ONE - fmul_s(cos as int, cos as int)) * 65536)
                        as nat));
                    assert(sin <= 65536) by (nonlinear_arith)
                        requires
                            sin * sin <= (65536 - fmul_s(cos as int, cos as int)) * 65536,
                            0 <= 65536 - fmul_s(cos as int, cos as int) <= 65536,
                            sin >= 0,
                    ;
                    lemma_fmul_abs(ratio as int, sin as int, 524288, 65536);
                }
                let cannot_refract = fmul(ratio, sin) > FX_ONE;
                // One uniform draw decides; when total internal reflection
                // forces a reflection the draw's value is irrelevant, so any
                // in-range value witnesses the decision.
                let dir: Vec3;
                if cannot_refract {
                    dir = reflect(unit, rec.normal);
                    proof {
                        assert(dir@ == dielectric_dir_s(refractive_index as int, *r_in, rec@, 0));
                    }
                } else {
                    let refl_prob = reflectance(cos, ratio);
                    let draw = rng.random_fx();
                    if refl_prob > draw {
                        dir = reflect(unit, rec.normal);
                    } else {
                        dir = refract(unit, rec.normal, ratio);
                    }
                    proof {
                        assert(dir@ == dielectric_dir_s(
                            refractive_index as int,
                            *r_in,
                            rec@,
                            draw as int,
                        ));
                    }
                }
                Some(
                    ScatterRecord {
                        attenuation: Vec3 { x: FX_ONE, y: FX_ONE, z: FX_ONE },
                        scattered: Ray::new(rec.p, dir),
                    },
                )
            },
        }
    }
}

} // verus!
