//! The color integrator and the sampling driver: recursive radiance
//! estimation with a strict bounce budget, per-pixel jittered sampling, and
//! the reference scene builder.

use vstd::prelude::*;

verus! {

use crate::camera::{Camera, wf_camera, disk_sample, get_ray_dir_s, get_ray_origin_s};
use crate::color::{Color, color_to_u32, quantize_s};
use crate::fixed::{
    fmul_s, fdiv_s, clamp_s, fmul, fdiv, clamp, FX_ONE, FX_HALF, lemma_fmul_abs,
    lemma_fmul_one, lemma_fdiv_abs, lemma_sd_abs,
};
use crate::hittable_list::{HittableList, wf_list, list_hit_s};
use crate::hittable::{HitRecord, HR3};
use crate::material::{
    Material, ScatterRecord, color01, scatter_holds, sphere_sample, lambertian_dir_s,
    metal_dir_s, dielectric_dir_s,
};
use crate::ray::{Ray, wf_ray};
use crate::rng::Rng;
use crate::sphere::Sphere;
use crate::vec3::{Vec3, V3, add_s, scale_s, mul_s, unit_s, dot_s, len_s, sub_s};
use vstd::arithmetic::div_mod::lemma_fundamental_div_mod;
use vstd::arithmetic::div_mod::lemma_div_pos_is_pos;

/// The lower ray-parameter cutoff suppressing self-intersection of
/// secondary rays ("shadow acne"): about 0.001.
pub const T_MIN: i64 = 66;

/// The upper ray-parameter cutoff standing in for infinity: far beyond any
/// scene extent the coordinate ranges admit.
pub const T_MAX: i64 = 0x4000_0000;

pub open spec fn v3_black() -> V3 {
    V3 { x: 0, y: 0, z: 0 }
}

pub open spec fn v3_white() -> V3 {
    V3 { x: 65536, y: 65536, z: 65536 }
}

/// The sky's zenith color, about (0.5, 0.7, 1.0).
pub open spec fn v3_sky() -> V3 {
    V3 { x: 32768, y: 45875, z: 65536 }
}

/// The background gradient: blend white into sky blue by the normalized
/// direction's vertical component.  The blend weight is clamped into
/// `[0, 1]` to guard fixed-point rounding of the normalization.
pub open spec fn background_s(dir: V3) -> V3 {
    let unit = unit_s(dir);
    let t = clamp_s(fmul_s(32768, unit.y + 65536), 0, 65536);
    add_s(scale_s(v3_white(), 65536 - t), scale_s(v3_sky(), t))
}

/// Law: the background color is a convex combination of white and sky blue
/// decided solely by the blend weight `t` from the normalized direction's
/// vertical component — each channel lies between its white and sky
/// endpoints, and the ray's origin plays no part (the color is a function
/// of the direction alone).
pub proof fn lemma_background_convex(dir: V3)
    ensures
        ({
            let unit = unit_s(dir);
            let t = clamp_s(fmul_s(32768, unit.y + 65536), 0, 65536);
            let c = background_s(dir);
            &&& c.x == (65536 - t) + fmul_s(t, 32768)
            &&& c.y == (65536 - t) + fmul_s(t, 45875)
            &&& c.z == 65536
            &&& 32768 <= c.x <= 65536
            &&& 45875 <= c.y <= 65536
        }),
{
    let unit = unit_s(dir);
    let t = clamp_s(fmul_s(32768, unit.y + 65536), 0, 65536);
    let c = background_s(dir);
    lemma_fmul_one(65536 - t);
    lemma_fmul_one(t);
    assert(c.x == (65536 - t) + fmul_s(t, 32768));
    assert(c.y == (65536 - t) + fmul_s(t, 45875));
    assert(t * 32768 >= 0 && t * 32768 == 32768 * t) by (nonlinear_arith)
        requires
            t >= 0,
    ;
    assert(t * 45875 >= 0 && t * 45875 == 45875 * t) by (nonlinear_arith)
        requires
            t >= 0,
    ;
    lemma_fundamental_div_mod(t * 32768, 65536);
    lemma_fundamental_div_mod(t * 45875, 65536);
    lemma_div_pos_is_pos(t * 32768, 65536);
    lemma_div_pos_is_pos(t * 45875, 65536);
}

/// Law, continued: two directions whose normalized vertical components
/// agree see the same background, whatever their other components.
pub proof fn lemma_background_depends_on_vertical(d1: V3, d2: V3)
    requires
        unit_s(d1).y == unit_s(d2).y,
    ensures
        background_s(d1) == background_s(d2),
{
}

/// The radiance relation: the integrator's result for a ray at a given
/// remaining depth.  A spent budget forces black; a miss forces the
/// background; a hit defers to the nearest hit's material through
/// `hit_radiance_rel`.
pub open spec fn radiance_rel(r: Ray, world: HittableList, depth: int, c: V3) -> bool
    decreases depth, 1int,
{
    if depth <= 0 {
        c == v3_black()
    } else {
        match list_hit_s(world, r, T_MIN as int, T_MAX as int) {
            Option::None => c == background_s(r.direction@),
            Option::Some(h) => hit_radiance_rel(r, world, depth, h, c),
        }
    }
}

/// The ray with the given origin and direction models (which, for the
/// in-range values the tracer produces, is the ray whose views they are).
pub open spec fn ray_of(p: V3, d: V3) -> Ray {
    Ray {
        origin: Vec3 { x: p.x as i64, y: p.y as i64, z: p.z as i64 },
        direction: Vec3 { x: d.x as i64, y: d.y as i64, z: d.z as i64 },
    }
}

/// The radiance relation at a hit: an absorbing decision (a Metal whose
/// perturbed reflection points into the surface) forces black, and a
/// scattering one forces the material's attenuation times a color that the
/// scattered ray — from the hit point, in the material model's direction —
/// itself satisfies the radiance relation for, one level down.  The
/// unit-sphere samples and the uniform draw are existential: they are the
/// randomness the decision consumed.
pub open spec fn hit_radiance_rel(r: Ray, world: HittableList, depth: int, h: HR3, c: V3) -> bool
    decreases depth, 0int,
{
    depth > 0 && match world.materials@[h.mat] {
        Material::Lambertian { albedo } => exists|smp: V3, sub: V3|
            #![trigger lambertian_dir_s(h.normal, smp), mul_s(albedo@, sub)]
            {
                &&& sphere_sample(smp)
                &&& radiance_rel(
                    ray_of(h.p, lambertian_dir_s(h.normal, smp)),
                    world,
                    depth - 1,
                    sub,
                )
                &&& c == mul_s(albedo@, sub)
            },
        Material::Metal { albedo, fuzz } => (exists|smp: V3|
            #![trigger metal_dir_s(r, h.normal, fuzz as int, smp)]
            {
                &&& sphere_sample(smp)
                &&& dot_s(metal_dir_s(r, h.normal, fuzz as int, smp), h.normal) <= 0
                &&& c == v3_black()
            }) || (exists|smp: V3, sub: V3|
            #![trigger metal_dir_s(r, h.normal, fuzz as int, smp), mul_s(albedo@, sub)]
            {
                &&& sphere_sample(smp)
                &&& dot_s(metal_dir_s(r, h.normal, fuzz as int, smp), h.normal) > 0
                &&& radiance_rel(
                    ray_of(h.p, metal_dir_s(r, h.normal, fuzz as int, smp)),
                    world,
                    depth - 1,
                    sub,
                )
                &&& c == mul_s(albedo@, sub)
            }),
        Material::Dielectric { refractive_index } => exists|draw: int, sub: V3|
            #![trigger dielectric_dir_s(refractive_index as int, r, h, draw), mul_s(v3_white(), sub)]
            {
                &&& 0 <= draw < 65536
                &&& radiance_rel(
                    ray_of(h.p, dielectric_dir_s(refractive_index as int, r, h, draw)),
                    world,
                    depth - 1,
                    sub,
                )
                &&& c == mul_s(v3_white(), sub)
            },
    }
}

/// The recursive radiance estimate for one ray.  A spent bounce budget
/// gives black; a miss gives the background gradient; a hit defers to the
/// struck material, tinting the recursive estimate by its attenuation or
/// going black when the ray is absorbed — exactly the radiance relation.
pub fn ray_color(r: &Ray, world: &HittableList, depth: i32, rng: &mut Rng) -> (c: Color)
    requires
        wf_ray(*r),
        wf_list(*world),
    ensures
        color01(c@),
        radiance_rel(*r, *world, depth as int, c@),
        depth <= 0 ==> c@ == v3_black(),
        depth > 0 && list_hit_s(*world, *r, T_MIN as int, T_MAX as int) is None ==> c@
            == background_s(r.direction@),
    decreases depth,
{
    if depth <= 0 {
        return Vec3::zero();
    }
    match world.hit(r, T_MIN, T_MAX) {
        Option::Some(rec) => {
            let m = world.material(rec.mat);
            let scat = m.scatter(r, &rec, rng);
            match scat {
                Option::Some(sc) => {
                    let sub = ray_color(&sc.scattered, world, depth - 1, rng);
                    proof {
                        lemma_fmul_abs(sc.attenuation@.x, sub@.x, 65536, 65536);
                        lemma_fmul_abs(sc.attenuation@.y, sub@.y, 65536, 65536);
                        lemma_fmul_abs(sc.attenuation@.z, sub@.z, 65536, 65536);
                        assert(sc.attenuation@.x * sub@.x >= 0 && sc.attenuation@.y * sub@.y
                            >= 0 && sc.attenuation@.z * sub@.z >= 0) by (nonlinear_arith)
                            requires
                                color01(sc.attenuation@),
                                color01(sub@),
                        ;
                        lemma_div_pos_is_pos(sc.attenuation@.x * sub@.x, 65536);
                        lemma_div_pos_is_pos(sc.attenuation@.y * sub@.y, 65536);
                        lemma_div_pos_is_pos(sc.attenuation@.z * sub@.z, 65536);
                    }
                    let c = sc.attenuation.mul(sub);
                    proof {
                        lemma_scattered_radiance(*r, *world, depth as int, rec, m, sc, sub@, c@);
                    }
                    c
                },
                Option::None => {
                    proof {
                        lemma_absorbed_radiance(*r, *world, depth as int, rec, m, scat);
                    }
                    Vec3::zero()
                },
            }
        },
        Option::None => {
            proof {
                lemma_background_convex(r.direction@);
            }
            background(r)
        },
    }
}


/// A scattering decision at the nearest hit satisfies the radiance
/// relation once the recursive estimate of the scattered ray does.
proof fn lemma_scattered_radiance(
    r: Ray,
    world: HittableList,
    depth: int,
    rec: HitRecord,
    m: Material,
    sc: ScatterRecord,
    sub: V3,
    c: V3,
)
    requires
        depth > 0,
        list_hit_s(world, r, T_MIN as int, T_MAX as int) == Option::Some(rec@),
        m == world.materials@[rec.mat as int],
        scatter_holds(m, r, rec, Option::Some(sc)),
        radiance_rel(sc.scattered, world, depth - 1, sub),
        c == mul_s(sc.attenuation@, sub),
    ensures
        radiance_rel(r, world, depth, c),
{
    let h = rec@;
    assert(h.mat == rec.mat as int);
    assert(world.materials@[h.mat] == m);
    assert(sc.scattered.origin@ == h.p);
    match m {
        Material::Lambertian { albedo } => {
            let smp = choose|smp: V3|
                sphere_sample(smp) && sc.scattered.direction@ == #[trigger] lambertian_dir_s(
                    rec.normal@,
                    smp,
                );
            assert(ray_of(h.p, lambertian_dir_s(h.normal, smp)) == sc.scattered);
            assert(sphere_sample(smp) && radiance_rel(
                ray_of(h.p, lambertian_dir_s(h.normal, smp)),
                world,
                depth - 1,
                sub,
            ) && c == mul_s(albedo@, sub));
            assert(hit_radiance_rel(r, world, depth, h, c));
        },
        Material::Metal { albedo, fuzz } => {
            let smp = choose|smp: V3|
                sphere_sample(smp) && sc.scattered.direction@ == #[trigger] metal_dir_s(
                    r,
                    rec.normal@,
                    fuzz as int,
                    smp,
                ) && dot_s(metal_dir_s(r, rec.normal@, fuzz as int, smp), rec.normal@) > 0;
            assert(ray_of(h.p, metal_dir_s(r, h.normal, fuzz as int, smp)) == sc.scattered);
            assert(sphere_sample(smp) && dot_s(
                metal_dir_s(r, h.normal, fuzz as int, smp),
                h.normal,
            ) > 0 && radiance_rel(
                ray_of(h.p, metal_dir_s(r, h.normal, fuzz as int, smp)),
                world,
                depth - 1,
                sub,
            ) && c == mul_s(albedo@, sub));
            assert(hit_radiance_rel(r, world, depth, h, c));
        },
        Material::Dielectric { refractive_index } => {
            let draw = choose|draw: int|
                0 <= draw < 65536 && sc.scattered.direction@ == #[trigger] dielectric_dir_s(
                    refractive_index as int,
                    r,
                    rec@,
                    draw,
                );
            assert(sc.attenuation@ == v3_white());
            assert(ray_of(h.p, dielectric_dir_s(refractive_index as int, r, h, draw))
                == sc.scattered);
            assert(0 <= draw < 65536 && radiance_rel(
                ray_of(h.p, dielectric_dir_s(refractive_index as int, r, h, draw)),
                world,
                depth - 1,
                sub,
            ) && c == mul_s(v3_white(), sub));
            assert(hit_radiance_rel(r, world, depth, h, c));
        },
    }
}

/// An absorbing decision at the nearest hit makes black satisfy the
/// radiance relation.
proof fn lemma_absorbed_radiance(
    r: Ray,
    world: HittableList,
    depth: int,
    rec: HitRecord,
    m: Material,
    scat: Option<ScatterRecord>,
)
    requires
        depth > 0,
        list_hit_s(world, r, T_MIN as int, T_MAX as int) == Option::Some(rec@),
        m == world.materials@[rec.mat as int],
        scat is None,
        scatter_holds(m, r, rec, scat),
    ensures
        radiance_rel(r, world, depth, v3_black()),
{
    let h = rec@;
    assert(h.mat == rec.mat as int);
    assert(world.materials@[h.mat] == m);
    match m {
        Material::Lambertian { albedo } => {
            assert(false);
        },
        Material::Metal { albedo, fuzz } => {
            let smp = choose|smp: V3|
                sphere_sample(smp) && dot_s(
                    #[trigger] metal_dir_s(r, rec.normal@, fuzz as int, smp),
                    rec.normal@,
                ) <= 0;
            assert(sphere_sample(smp) && dot_s(
                metal_dir_s(r, h.normal, fuzz as int, smp),
                h.normal,
            ) <= 0);
            assert(hit_radiance_rel(r, world, depth, h, v3_black()));
        },
        Material::Dielectric { refractive_index } => {
            assert(false);
        },
    }
}

/// The background gradient for a ray that escaped the scene.
fn background(r: &Ray) -> (c: Color)
    requires
        wf_ray(*r),
    ensures
        c@ == background_s(r.direction@),
{
    let unit = crate::vec3::unit_vector(r.direction);
    let t = clamp(fmul(FX_HALF, unit.y + FX_ONE), 0, FX_ONE);
    proof {
        lemma_sd_abs(32768 * (unit@.y + 65536), 8589934592);
        assert(-8589934592 <= 32768 * (unit@.y + 65536) <= 8589934592)
            by (nonlinear_arith)
            requires
                -196608 <= unit@.y <= 196608,
        ;
        lemma_fmul_one(65536 - t as int);
        lemma_fmul_one(t as int);
        lemma_fmul_abs(t as int, 32768, 65536, 32768);
        lemma_fmul_abs(t as int, 45875, 65536, 45875);
    }
    let white = Vec3 { x: FX_ONE, y: FX_ONE, z: FX_ONE };
    let sky = Vec3 { x: FX_HALF, y: 45875, z: FX_ONE };
    white.scale(FX_ONE - t).add(sky.scale(t))
}

/// A jittered viewport coordinate of pixel index `i` out of `w`:
/// `(i + jitter) / (w - 1)` for a unit jitter, clamped into `[0, 1]`.
pub open spec fn pixel_coord_ok(i: int, w: int, u: int) -> bool {
    exists|jit: int|
        #![trigger fdiv_s(i * 65536 + jit, (w - 1) * 65536)]
        {
            &&& 0 <= jit < 65536
            &&& u == clamp_s(fdiv_s(i * 65536 + jit, (w - 1) * 65536), 0, 65536)
        }
}

/// One sample of pixel `(i, j)`: the radiance-relation outcome of a camera
/// ray through a jittered coordinate of the pixel, with some lens sample.
pub open spec fn pixel_sample_ok(
    cam: Camera,
    world: HittableList,
    i: int,
    j: int,
    w: int,
    hh: int,
    depth: int,
    col: V3,
) -> bool {
    exists|u: int, v: int, d: V3, ray: Ray|
        #![trigger get_ray_dir_s(cam, u, v, d), radiance_rel(ray, world, depth, col)]
        {
            &&& pixel_coord_ok(i, w, u)
            &&& pixel_coord_ok(j, hh, v)
            &&& disk_sample(d)
            &&& ray.origin@ == get_ray_origin_s(cam, d)
            &&& ray.direction@ == get_ray_dir_s(cam, u, v, d)
            &&& radiance_rel(ray, world, depth, col)
        }
}

/// The componentwise sum of a sequence of colors.
pub open spec fn color_sum_s(cols: Seq<V3>) -> V3
    decreases cols.len(),
{
    if cols.len() == 0 {
        v3_black()
    } else {
        add_s(color_sum_s(cols.drop_last()), cols.last())
    }
}

/// The accumulated value of pixel `(i, j)`: the sum of `spp` per-sample
/// colors, each an integrator outcome for a jittered camera ray of this
/// pixel.
pub open spec fn pixel_value_ok(
    cam: Camera,
    world: HittableList,
    i: int,
    j: int,
    w: int,
    hh: int,
    spp: int,
    depth: int,
    c: V3,
) -> bool {
    exists|cols: Seq<V3>|
        #![trigger color_sum_s(cols)]
        {
            &&& cols.len() == spp
            &&& forall|k: int|
                0 <= k < cols.len() ==> color01(#[trigger] cols[k]) && pixel_sample_ok(
                    cam,
                    world,
                    i,
                    j,
                    w,
                    hh,
                    depth,
                    cols[k],
                )
            &&& c == color_sum_s(cols)
        }
}

/// Accumulate the radiance of `samples_per_pixel` jittered camera rays for
/// pixel `(i, j)`; the result is the raw channel sum, each channel at most
/// the sample count.
pub fn render_pixel(
    camera: &Camera,
    world: &HittableList,
    i: u32,
    j: u32,
    image_width: u32,
    image_height: u32,
    samples_per_pixel: u32,
    max_depth: i32,
    rng: &mut Rng,
) -> (c: Color)
    requires
        wf_camera(*camera),
        wf_list(*world),
        2 <= image_width <= 65536,
        2 <= image_height <= 65536,
        i < image_width,
        j < image_height,
        1 <= samples_per_pixel <= 65536,
    ensures
        0 <= c@.x <= samples_per_pixel * 65536,
        0 <= c@.y <= samples_per_pixel * 65536,
        0 <= c@.z <= samples_per_pixel * 65536,
        pixel_value_ok(
            *camera,
            *world,
            i as int,
            j as int,
            image_width as int,
            image_height as int,
            samples_per_pixel as int,
            max_depth as int,
            c@,
        ),
        world.objects@.len() == 0 && max_depth > 0 ==> c@.z == samples_per_pixel * 65536,
{
    let mut pixel_color = Vec3::zero();
    let ghost mut cols: Seq<V3> = Seq::empty();
    let mut s: u32 = 0;
    while s < samples_per_pixel
        invariant
            wf_camera(*camera),
            wf_list(*world),
            2 <= image_width <= 65536,
            2 <= image_height <= 65536,
            i < image_width,
            j < image_height,
            1 <= samples_per_pixel <= 65536,
            s <= samples_per_pixel,
            0 <= pixel_color@.x <= s * 65536,
            0 <= pixel_color@.y <= s * 65536,
            0 <= pixel_color@.z <= s * 65536,
            cols.len() == s,
            forall|k: int|
                0 <= k < cols.len() ==> color01(#[trigger] cols[k]) && pixel_sample_ok(
                    *camera,
                    *world,
                    i as int,
                    j as int,
                    image_width as int,
                    image_height as int,
                    max_depth as int,
                    cols[k],
                ),
            pixel_color@ == color_sum_s(cols),
            world.objects@.len() == 0 && max_depth > 0 ==> pixel_color@.z == s * 65536,
        decreases samples_per_pixel - s,
    {
        let du = rng.random_fx();
        let dv = rng.random_fx();
        let un = (i as i64) * 65536 + du;
        let vn = (j as i64) * 65536 + dv;
        let uden = ((image_width - 1) as i64) * 65536;
        let vden = ((image_height - 1) as i64) * 65536;
        proof {
            lemma_fdiv_abs(un as int, uden as int, 0x1_0001_0000);
            lemma_fdiv_abs(vn as int, vden as int, 0x1_0001_0000);
        }
        // The viewport coordinate (i + jitter) / (width - 1), clamped to
        // the unit interval: the jitter can push the edge pixel past it.
        let u = clamp(fdiv(un, uden), 0, FX_ONE);
        let v = clamp(fdiv(vn, vden), 0, FX_ONE);
        let ray = camera.get_ray(u, v, rng);
        let col = ray_color(&ray, world, max_depth, rng);
        proof {
            // The sample is a jittered-coordinate integrator outcome.
            assert(0 <= du < 65536 && u == clamp_s(
                fdiv_s(i as int * 65536 + du, (image_width - 1) * 65536),
                0,
                65536,
            ));
            assert(pixel_coord_ok(i as int, image_width as int, u as int));
            assert(0 <= dv < 65536 && v == clamp_s(
                fdiv_s(j as int * 65536 + dv, (image_height - 1) * 65536),
                0,
                65536,
            ));
            assert(pixel_coord_ok(j as int, image_height as int, v as int));
            let d = choose|d: V3|
                disk_sample(d) && ray.origin@ == get_ray_origin_s(*camera, d) && ray.direction@
                    == #[trigger] get_ray_dir_s(*camera, u as int, v as int, d);
            assert(disk_sample(d) && ray.origin@ == get_ray_origin_s(*camera, d)
                && ray.direction@ == get_ray_dir_s(*camera, u as int, v as int, d)
                && radiance_rel(ray, *world, max_depth as int, col@));
            assert(pixel_sample_ok(
                *camera,
                *world,
                i as int,
                j as int,
                image_width as int,
                image_height as int,
                max_depth as int,
                col@,
            ));
            // With no surfaces the sample is pure background, whose blue
            // channel is exactly one.
            if world.objects@.len() == 0 && max_depth > 0 {
                assert(list_hit_s(*world, ray, T_MIN as int, T_MAX as int) is None);
                lemma_background_convex(ray.direction@);
                assert(col@.z == 65536);
            }
        }
        pixel_color = pixel_color.add(col);
        proof {
            assert(s * 65536 + 65536 == (s + 1) * 65536) by (nonlinear_arith);
            let prev = cols;
            cols = cols.push(col@);
            assert(cols.drop_last() =~= prev);
            assert(cols.last() == col@);
            assert(color_sum_s(cols) == add_s(color_sum_s(prev), col@));
            assert(forall|k: int| 0 <= k < prev.len() ==> cols[k] == #[trigger] prev[k]);
        }
        s = s + 1;
    }
    proof {
        assert(pixel_color@ == color_sum_s(cols) && cols.len() == samples_per_pixel);
    }
    pixel_color
}

/// The packed `0x00RRGGBB` word for an accumulated pixel color.
pub open spec fn packed_pixel_s(c: V3, spp: int) -> int {
    65536 * quantize_s(c.x, spp) + 256 * quantize_s(c.y, spp) + quantize_s(c.z, spp)
}

/// One emitted word of a row: the packed quantization of an accumulated
/// pixel value of its column.
pub open spec fn row_pixel_ok(
    cam: Camera,
    world: HittableList,
    i: int,
    j: int,
    w: int,
    hh: int,
    spp: int,
    depth: int,
    px: int,
) -> bool {
    exists|c: V3|
        #![trigger packed_pixel_s(c, spp)]
        {
            &&& pixel_value_ok(cam, world, i, j, w, hh, spp, depth, c)
            &&& px == packed_pixel_s(c, spp)
        }
}

/// Render one row of the image, left to right, one packed `0x00RRGGBB`
/// word per column: the quantization of an accumulated pixel value of that
/// column.  Each pixel owns a generator seeded from its coordinates, so
/// columns are independent and reproducible in isolation.
pub fn render_row(
    camera: &Camera,
    world: &HittableList,
    j: u32,
    image_width: u32,
    image_height: u32,
    samples_per_pixel: u32,
    max_depth: i32,
    base_seed: u64,
) -> (row: Vec<u32>)
    requires
        wf_camera(*camera),
        wf_list(*world),
        2 <= image_width <= 65536,
        2 <= image_height <= 65536,
        j < image_height,
        1 <= samples_per_pixel <= 65536,
    ensures
        row@.len() == image_width,
        forall|i2: int|
            0 <= i2 < image_width ==> #[trigger] row_pixel_ok(
                *camera,
                *world,
                i2,
                j as int,
                image_width as int,
                image_height as int,
                samples_per_pixel as int,
                max_depth as int,
                row@[i2] as int,
            ),
{
    let mut row: Vec<u32> = Vec::new();
    let mut i: u32 = 0;
    while i < image_width
        invariant
            wf_camera(*camera),
            wf_list(*world),
            2 <= image_width <= 65536,
            2 <= image_height <= 65536,
            j < image_height,
            1 <= samples_per_pixel <= 65536,
            i <= image_width,
            row@.len() == i,
            forall|i2: int|
                0 <= i2 < i ==> #[trigger] row_pixel_ok(
                    *camera,
                    *world,
                    i2,
                    j as int,
                    image_width as int,
                    image_height as int,
                    samples_per_pixel as int,
                    max_depth as int,
                    row@[i2] as int,
                ),
        decreases image_width - i,
    {
        let seed: u64 = base_seed ^ ((j as u64) * 0x1_0000_0000 + (i as u64) * 0x1_0000);
        let mut rng = Rng::new(seed);
        let c = render_pixel(
            camera,
            world,
            i,
            j,
            image_width,
            image_height,
            samples_per_pixel,
            max_depth,
            &mut rng,
        );
        proof {
            assert(samples_per_pixel * 65536 <= 0x1_0000_0000_0000) by (nonlinear_arith)
                requires
                    samples_per_pixel <= 65536,
            ;
        }
        let px = color_to_u32(c, samples_per_pixel as i32);
        proof {
            assert(px == packed_pixel_s(c@, samples_per_pixel as int));
        }
        let ghost prev = row@;
        row.push(px);
        proof {
            assert(row@[i as int] == px);
            assert(row_pixel_ok(
                *camera,
                *world,
                i as int,
                j as int,
                image_width as int,
                image_height as int,
                samples_per_pixel as int,
                max_depth as int,
                px as int,
            ));
            assert(forall|i2: int| 0 <= i2 < i ==> prev[i2] == #[trigger] row@[i2]);
        }
        i = i + 1;
    }
    row
}

/// The glass refractive index used by the reference scene, 1.5.
pub const GLASS_IOR: i64 = 98304;

/// A grid member of the reference scene: a sphere of radius 0.2 resting
/// at height 0.2, clear of the metal sphere's spot by more than 0.9, whose
/// material is a diffuse sphere with a product albedo in `[0, 1]`, a metal
/// with a half-bright albedo and fuzz in `[0, 1/2]`, or glass.
pub open spec fn grid_member_ok(mats: Seq<Material>, s: Sphere) -> bool {
    &&& s.radius == 13107
    &&& s.center@.y == 13107
    &&& len_s(sub_s(s.center@, V3 { x: 262144, y: 13107, z: 0 })) > 58982
    &&& s.mat < mats.len()
    &&& match mats[s.mat as int] {
        Material::Lambertian { albedo } => color01(albedo@),
        Material::Metal { albedo, fuzz } => {
            &&& 32768 <= albedo@.x <= 65536
            &&& 32768 <= albedo@.y <= 65536
            &&& 32768 <= albedo@.z <= 65536
            &&& 0 <= fuzz <= 32768
        },
        Material::Dielectric { refractive_index } => refractive_index == GLASS_IOR,
    }
}

/// Build the classic random scene: a gray ground sphere of radius 1000,
/// a grid of small spheres with randomly chosen materials, and three large
/// spheres (glass, diffuse brown, polished metal).
pub fn random_scene(rng: &mut Rng) -> (world: HittableList)
    ensures
        wf_list(world),
        world.objects@.len() >= 4,
        world.materials@.len() == world.objects@.len(),
        forall|k: int|
            1 <= k < world.objects@.len() - 3 ==> grid_member_ok(
                world.materials@,
                #[trigger] world.objects@[k],
            ),
        ({
            let g = world.objects@[0];
            &&& g.center@ == (V3 { x: 0int, y: -65536000int, z: 0int })
            &&& g.radius == 65536000
            &&& world.materials@[g.mat as int] == (Material::Lambertian {
                albedo: Vec3 { x: 32768, y: 32768, z: 32768 },
            })
        }),
        ({
            let n = world.objects@.len() as int;
            let s1 = world.objects@[n - 3];
            let s2 = world.objects@[n - 2];
            let s3 = world.objects@[n - 1];
            &&& s1.center@ == (V3 { x: 0int, y: 65536int, z: 0int })
            &&& s1.radius == 65536
            &&& world.materials@[s1.mat as int] == (Material::Dielectric {
                refractive_index: GLASS_IOR,
            })
            &&& s2.center@ == (V3 { x: -262144int, y: 65536int, z: 0int })
            &&& s2.radius == 65536
            &&& world.materials@[s2.mat as int] == (Material::Lambertian {
                albedo: Vec3 { x: 26214, y: 13107, z: 6554 },
            })
            &&& s3.center@ == (V3 { x: 262144int, y: 65536int, z: 0int })
            &&& s3.radius == 65536
            &&& world.materials@[s3.mat as int] == (Material::Metal {
                albedo: Vec3 { x: 45875, y: 39322, z: 32768 },
                fuzz: 0,
            })
        }),
{
    let mut world = HittableList::new();

    let ground_material = match Material::lambertian(Vec3::new(32768, 32768, 32768)) {
        Result::Ok(m) => m,
        Result::Err(_) => vstd::pervasive::unreached(),
    };
    let ground_idx = world.add_material(ground_material);
    let ground = match Sphere::new(Vec3::new(0, -65536000, 0), 65536000, ground_idx) {
        Result::Ok(s) => s,
        Result::Err(_) => vstd::pervasive::unreached(),
    };
    world.add(ground);

    let mut a: i32 = -11;
    while a < 11
        invariant
            wf_list(world),
            -11 <= a <= 11,
            world.materials@.len() == world.objects@.len(),
            1 <= world.objects@.len() <= 1 + (a + 11) * 22,
            world.objects@[0] == ground,
            world.materials@[ground.mat as int] == ground_material,
            forall|k: int|
                1 <= k < world.objects@.len() ==> grid_member_ok(
                    world.materials@,
                    #[trigger] world.objects@[k],
                ),
        decreases 11 - a,
    {
        let mut b: i32 = -11;
        while b < 11
            invariant
                wf_list(world),
                -11 <= a < 11,
                -11 <= b <= 11,
                world.materials@.len() == world.objects@.len(),
                1 <= world.objects@.len() <= 1 + (a + 11) * 22 + (b + 11),
                world.objects@[0] == ground,
                world.materials@[ground.mat as int] == ground_material,
                forall|k: int|
                    1 <= k < world.objects@.len() ==> grid_member_ok(
                        world.materials@,
                        #[trigger] world.objects@[k],
                    ),
            decreases 11 - b,
        {
            let choose_mat = rng.random_fx();
            let cx = (a as i64) * 65536 + fmul(58982, rng.random_fx());
            let cz = (b as i64) * 65536 + fmul(58982, rng.random_fx());
            let center = Vec3::new(cx, 13107, cz);

            let anchor = Vec3::new(262144, 13107, 0);
            let d = center.sub(anchor);
            if d.length() > 58982 {
                let sphere_material: Material;
                if choose_mat < 52429 {
                    // Diffuse: albedo is the channel product of two draws.
                    let c1 = rng.random_vec_range(0, 65536);
                    let c2 = rng.random_vec_range(0, 65536);
                    proof {
                        lemma_fmul_abs(c1@.x, c2@.x, 65536, 65536);
                        lemma_fmul_abs(c1@.y, c2@.y, 65536, 65536);
                        lemma_fmul_abs(c1@.z, c2@.z, 65536, 65536);
                        assert(c1@.x * c2@.x >= 0 && c1@.y * c2@.y >= 0 && c1@.z * c2@.z >= 0)
                            by (nonlinear_arith)
                            requires
                                c1@.x >= 0 && c1@.y >= 0 && c1@.z >= 0,
                                c2@.x >= 0 && c2@.y >= 0 && c2@.z >= 0,
                        ;
                        lemma_div_pos_is_pos(c1@.x * c2@.x, 65536);
                        lemma_div_pos_is_pos(c1@.y * c2@.y, 65536);
                        lemma_div_pos_is_pos(c1@.z * c2@.z, 65536);
                    }
                    let albedo = c1.mul(c2);
                    sphere_material = match Material::lambertian(albedo) {
                        Result::Ok(m) => m,
                        Result::Err(_) => vstd::pervasive::unreached(),
                    };
                } else if choose_mat < 62259 {
                    // Metal with a random half-bright albedo and mild fuzz.
                    let albedo = rng.random_vec_range(32768, 65536);
                    let fuzz = rng.random_fx_range(0, 32768);
                    sphere_material = match Material::metal(albedo, fuzz) {
                        Result::Ok(m) => m,
                        Result::Err(_) => vstd::pervasive::unreached(),
                    };
                } else {
                    // Glass.
                    sphere_material = match Material::dielectric(GLASS_IOR) {
                        Result::Ok(m) => m,
                        Result::Err(_) => vstd::pervasive::unreached(),
                    };
                }
                let idx = world.add_material(sphere_material);
                let s = match Sphere::new(center, 13107, idx) {
                    Result::Ok(s) => s,
                    Result::Err(_) => vstd::pervasive::unreached(),
                };
                proof {
                    assert(d@ == sub_s(center@, V3 { x: 262144int, y: 13107int, z: 0int }));
                    assert(grid_member_ok(world.materials@, s));
                }
                world.add(s);
            }
            b = b + 1;
        }
        a = a + 1;
    }

    let material1 = match Material::dielectric(GLASS_IOR) {
        Result::Ok(m) => m,
        Result::Err(_) => vstd::pervasive::unreached(),
    };
    let idx1 = world.add_material(material1);
    let big1 = match Sphere::new(Vec3::new(0, 65536, 0), 65536, idx1) {
        Result::Ok(s) => s,
        Result::Err(_) => vstd::pervasive::unreached(),
    };
    world.add(big1);

    let material2 = match Material::lambertian(Vec3::new(26214, 13107, 6554)) {
        Result::Ok(m) => m,
        Result::Err(_) => vstd::pervasive::unreached(),
    };
    let idx2 = world.add_material(material2);
    let big2 = match Sphere::new(Vec3::new(-262144, 65536, 0), 65536, idx2) {
        Result::Ok(s) => s,
        Result::Err(_) => vstd::pervasive::unreached(),
    };
    world.add(big2);

    let material3 = match Material::metal(Vec3::new(45875, 39322, 32768), 0) {
        Result::Ok(m) => m,
        Result::Err(_) => vstd::pervasive::unreached(),
    };
    let idx3 = world.add_material(material3);
    let big3 = match Sphere::new(Vec3::new(262144, 65536, 0), 65536, idx3) {
        Result::Ok(s) => s,
        Result::Err(_) => vstd::pervasive::unreached(),
    };
    world.add(big3);

    world
}

} // verus!
