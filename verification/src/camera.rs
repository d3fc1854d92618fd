//! The camera: an orthonormal-ish viewing basis, a focus plane, and an
//! aperture for depth of field.  It maps normalized viewport coordinates
//! (plus a lens sample) to a world-space ray.
//!
//! The vertical field of view enters as the tangent of its half angle, a
//! plain fixed-point value computed by the caller.

use vstd::prelude::*;

verus! {

use crate::config::ConfigError;
use crate::fixed::{fmul_s, fmul, FX_ONE, FX_HALF, lemma_fmul_abs};
use crate::ray::{Ray, wf_ray};
use crate::rng::Rng;
use crate::vec3::{
    Vec3, Point3, V3, in_bound, add_s, sub_s, scale_s, cross_s, len_sq_s, unit_s,
    unit_vector,
};

/// The zero vector.
pub open spec fn v3_zero() -> V3 {
    V3 { x: 0, y: 0, z: 0 }
}

/// The viewing basis vector pointing from the target back to the eye.
pub open spec fn cam_w_s(lookfrom: V3, lookat: V3) -> V3 {
    unit_s(sub_s(lookfrom, lookat))
}

/// The horizontal basis vector of the viewport.
pub open spec fn cam_u_s(lookfrom: V3, lookat: V3, vup: V3) -> V3 {
    unit_s(cross_s(vup, cam_w_s(lookfrom, lookat)))
}

/// The vertical basis vector of the viewport.
pub open spec fn cam_v_s(lookfrom: V3, lookat: V3, vup: V3) -> V3 {
    cross_s(cam_w_s(lookfrom, lookat), cam_u_s(lookfrom, lookat, vup))
}

/// A parameter set outside the supported machine ranges.
pub open spec fn cam_caps_exceeded(
    lookfrom: V3,
    lookat: V3,
    vup: V3,
    tan_half_fov: int,
    aspect_ratio: int,
    aperture: int,
    focus_dist: int,
) -> bool {
    ||| !in_bound(lookfrom, 0x800_0000)
    ||| !in_bound(lookat, 0x800_0000)
    ||| !in_bound(vup, 0x800_0000)
    ||| tan_half_fov > 0x10_0000
    ||| aspect_ratio > 0x10_0000
    ||| aperture > 131072
    ||| focus_dist > 0x100_0000
}

/// Eye, target and up give no usable basis: eye and target coincide (to
/// rounding), or up is (near) parallel to the view direction.
pub open spec fn cam_degenerate(lookfrom: V3, lookat: V3, vup: V3) -> bool {
    ||| cam_w_s(lookfrom, lookat) == v3_zero()
    ||| cam_u_s(lookfrom, lookat, vup) == v3_zero()
}

/// The camera ready for use: eye in the scene volume, viewport vectors and
/// corner offset within the ray budget, basis vectors bounded, lens radius
/// at most one.
pub open spec fn wf_camera(c: Camera) -> bool {
    &&& in_bound(c.origin@, 0x800_0000)
    &&& in_bound(c.horizontal@, 0x20_0000)
    &&& in_bound(c.vertical@, 0x20_0000)
    &&& in_bound(sub_s(c.lower_left_corner@, c.origin@), 0x80_0000)
    &&& in_bound(c.u@, 196608)
    &&& in_bound(c.v@, 1179648)
    &&& in_bound(c.w@, 196608)
    &&& 0 <= c.lens_radius <= 65536
}

/// The origin of a generated ray, given a unit-disk lens sample.
pub open spec fn get_ray_origin_s(c: Camera, d: V3) -> V3 {
    let rd = scale_s(d, c.lens_radius as int);
    let offset = add_s(scale_s(c.u@, rd.x), scale_s(c.v@, rd.y));
    add_s(c.origin@, offset)
}

/// The direction of a generated ray: from the (lens-offset) origin toward
/// the point `(s, t)` on the focus plane.
pub open spec fn get_ray_dir_s(c: Camera, s: int, t: int, d: V3) -> V3 {
    sub_s(
        add_s(add_s(c.lower_left_corner@, scale_s(c.horizontal@, s)), scale_s(c.vertical@, t)),
        get_ray_origin_s(c, d),
    )
}

/// A point of the unit lens disk.
pub open spec fn disk_sample(d: V3) -> bool {
    &&& in_bound(d, 65536)
    &&& len_sq_s(d) < 65536
    &&& d.z == 0
}

#[derive(Clone, Copy, Debug, PartialEq, Eq, Structural)]
pub struct Camera {
    pub origin: Point3,
    pub lower_left_corner: Point3,
    pub horizontal: Vec3,
    pub vertical: Vec3,
    pub u: Vec3,
    pub v: Vec3,
    pub w: Vec3,
    pub lens_radius: i64,
}

impl Camera {
    /// Build a camera from eye, target, up vector, tangent of the half
    /// field-of-view, aspect ratio, aperture and focus distance; invalid
    /// shapes, out-of-range parameters and degenerate orientations are
    /// rejected eagerly.
    pub fn new(
        lookfrom: Point3,
        lookat: Point3,
        vup: Vec3,
        tan_half_fov: i64,
        aspect_ratio: i64,
        aperture: i64,
        focus_dist: i64,
    ) -> (res: Result<Camera, ConfigError>)
        ensures
            (res == Result::<Camera, ConfigError>::Err(ConfigError::InvalidCameraShape)) <==> (
            tan_half_fov <= 0 || aspect_ratio <= 0 || focus_dist <= 0 || aperture < 0),
            (tan_half_fov > 0 && aspect_ratio > 0 && focus_dist > 0 && aperture >= 0
                && !cam_caps_exceeded(
                lookfrom@,
                lookat@,
                vup@,
                tan_half_fov as int,
                aspect_ratio as int,
                aperture as int,
                focus_dist as int,
            )) ==> ((res == Result::<Camera, ConfigError>::Err(
                ConfigError::DegenerateOrientation,
            )) <==> cam_degenerate(lookfrom@, lookat@, vup@)),
            match res {
                Result::Ok(c) => {
                    &&& wf_camera(c)
                    &&& c.origin == lookfrom
                    &&& c.w@ == cam_w_s(lookfrom@, lookat@)
                    &&& c.u@ == cam_u_s(lookfrom@, lookat@, vup@)
                    &&& c.v@ == cam_v_s(lookfrom@, lookat@, vup@)
                    &&& c.horizontal@ == scale_s(
                        c.u@,
                        fmul_s(
                            fmul_s(aspect_ratio as int, 2 * tan_half_fov),
                            focus_dist as int,
                        ),
                    )
                    &&& c.vertical@ == scale_s(
                        c.v@,
                        fmul_s(2 * tan_half_fov, focus_dist as int),
                    )
                    &&& c.lower_left_corner@ == sub_s(
                        sub_s(
                            sub_s(lookfrom@, scale_s(c.horizontal@, 32768)),
                            scale_s(c.vertical@, 32768),
                        ),
                        scale_s(c.w@, focus_dist as int),
                    )
                    &&& c.lens_radius == fmul_s(aperture as int, 32768)
                },
                Result::Err(e) => {
                    e == ConfigError::InvalidCameraShape || e == ConfigError::OutOfRange || e
                        == ConfigError::DegenerateOrientation
                },
            },
    {
        if tan_half_fov <= 0 || aspect_ratio <= 0 || focus_dist <= 0 || aperture < 0 {
            return Result::Err(ConfigError::InvalidCameraShape);
        }
        if lookfrom.x > 0x800_0000 || lookfrom.x < -0x800_0000 || lookfrom.y > 0x800_0000
            || lookfrom.y < -0x800_0000 || lookfrom.z > 0x800_0000 || lookfrom.z < -0x800_0000
            || lookat.x > 0x800_0000 || lookat.x < -0x800_0000 || lookat.y > 0x800_0000
            || lookat.y < -0x800_0000 || lookat.z > 0x800_0000 || lookat.z < -0x800_0000
            || vup.x > 0x800_0000 || vup.x < -0x800_0000 || vup.y > 0x800_0000 || vup.y
            < -0x800_0000 || vup.z > 0x800_0000 || vup.z < -0x800_0000 || tan_half_fov
            > 0x10_0000 || aspect_ratio > 0x10_0000 || aperture > 131072 || focus_dist
            > 0x100_0000 {
            return Result::Err(ConfigError::OutOfRange);
        }
        let w = unit_vector(lookfrom.sub(lookat));
        if w.x == 0 && w.y == 0 && w.z == 0 {
            return Result::Err(ConfigError::DegenerateOrientation);
        }
        proof {
            lemma_fmul_abs(vup@.y, w@.z, 0x800_0000, 196608);
            lemma_fmul_abs(vup@.z, w@.y, 0x800_0000, 196608);
            lemma_fmul_abs(vup@.z, w@.x, 0x800_0000, 196608);
            lemma_fmul_abs(vup@.x, w@.z, 0x800_0000, 196608);
            lemma_fmul_abs(vup@.x, w@.y, 0x800_0000, 196608);
            lemma_fmul_abs(vup@.y, w@.x, 0x800_0000, 196608);
        }
        let u = unit_vector(vup.cross(w));
        if u.x == 0 && u.y == 0 && u.z == 0 {
            return Result::Err(ConfigError::DegenerateOrientation);
        }
        let v = w.cross(u);
        proof {
            lemma_fmul_abs(w@.y, u@.z, 196608, 196608);
            lemma_fmul_abs(w@.z, u@.y, 196608, 196608);
            lemma_fmul_abs(w@.z, u@.x, 196608, 196608);
            lemma_fmul_abs(w@.x, u@.z, 196608, 196608);
            lemma_fmul_abs(w@.x, u@.y, 196608, 196608);
            lemma_fmul_abs(w@.y, u@.x, 196608, 196608);
        }
        let viewport_height: i64 = 2 * tan_half_fov;
        proof {
            lemma_fmul_abs(aspect_ratio as int, viewport_height as int, 0x10_0000, 0x20_0000);
        }
        let viewport_width: i64 = fmul(aspect_ratio, viewport_height);
        proof {
            lemma_fmul_abs(viewport_width as int, focus_dist as int, 0x2000_0000, 0x100_0000);
            lemma_fmul_abs(viewport_height as int, focus_dist as int, 0x20_0000, 0x100_0000);
        }
        let hm = fmul(viewport_width, focus_dist);
        let vm = fmul(viewport_height, focus_dist);
        let horizontal = u.scale(hm);
        let vertical = v.scale(vm);
        if horizontal.x > 0x20_0000 || horizontal.x < -0x20_0000 || horizontal.y > 0x20_0000
            || horizontal.y < -0x20_0000 || horizontal.z > 0x20_0000 || horizontal.z
            < -0x20_0000 || vertical.x > 0x20_0000 || vertical.x < -0x20_0000 || vertical.y
            > 0x20_0000 || vertical.y < -0x20_0000 || vertical.z > 0x20_0000 || vertical.z
            < -0x20_0000 {
            return Result::Err(ConfigError::OutOfRange);
        }
        proof {
            lemma_fmul_abs(focus_dist as int, w@.x, 0x100_0000, 196608);
            lemma_fmul_abs(focus_dist as int, w@.y, 0x100_0000, 196608);
            lemma_fmul_abs(focus_dist as int, w@.z, 0x100_0000, 196608);
        }
        let half_h = horizontal.scale(FX_HALF);
        let half_v = vertical.scale(FX_HALF);
        let fw = w.scale(focus_dist);
        let lower_left_corner = lookfrom.sub(half_h).sub(half_v).sub(fw);
        if lower_left_corner.x - lookfrom.x > 0x80_0000 || lower_left_corner.x - lookfrom.x
            < -0x80_0000 || lower_left_corner.y - lookfrom.y > 0x80_0000 || lower_left_corner.y
            - lookfrom.y < -0x80_0000 || lower_left_corner.z - lookfrom.z > 0x80_0000
            || lower_left_corner.z - lookfrom.z < -0x80_0000 {
            return Result::Err(ConfigError::OutOfRange);
        }
        proof {
            lemma_fmul_abs(aperture as int, 32768, 131072, 32768);
            vstd::arithmetic::div_mod::lemma_div_pos_is_pos(aperture as int * 32768, 65536);
            assert(aperture as int * 32768 >= 0) by (nonlinear_arith)
                requires
                    aperture >= 0,
            ;
            assert(aperture as int * 32768 <= 4294967296) by (nonlinear_arith)
                requires
                    0 <= aperture <= 131072,
            ;
            crate::fixed::lemma_sd_abs(aperture as int * 32768, 4294967296);
        }
        let lens_radius = fmul(aperture, FX_HALF);
        Result::Ok(
            Camera { origin: lookfrom, lower_left_corner, horizontal, vertical, u, v, w, lens_radius },
        )
    }

    /// The ray for viewport coordinates `(s, t)` in `[0, 1]`, with a
    /// depth-of-field lens offset; a zero aperture gives the exact pinhole
    /// ray through the focus-plane point.
    pub fn get_ray(&self, s: i64, t: i64, rng: &mut Rng) -> (r: Ray)
        requires
            wf_camera(*self),
            0 <= s <= 65536,
            0 <= t <= 65536,
        ensures
            wf_ray(r),
            exists|d: V3|
                disk_sample(d) && r.origin@ == get_ray_origin_s(*self, d) && r.direction@
                    == #[trigger] get_ray_dir_s(*self, s as int, t as int, d),
            self.lens_radius == 0 ==> r.origin == self.origin && r.direction@ == get_ray_dir_s(
                *self,
                s as int,
                t as int,
                v3_zero(),
            ),
    {
        let dsmp = rng.random_in_unit_disk();
        proof {
            lemma_fmul_abs(self.lens_radius as int, dsmp@.x, 65536, 65536);
            lemma_fmul_abs(self.lens_radius as int, dsmp@.y, 65536, 65536);
            lemma_fmul_abs(self.lens_radius as int, dsmp@.z, 65536, 65536);
        }
        let rd = dsmp.scale(self.lens_radius);
        proof {
            lemma_fmul_abs(rd.x as int, self.u@.x, 65536, 196608);
            lemma_fmul_abs(rd.x as int, self.u@.y, 65536, 196608);
            lemma_fmul_abs(rd.x as int, self.u@.z, 65536, 196608);
            lemma_fmul_abs(rd.y as int, self.v@.x, 65536, 1179648);
            lemma_fmul_abs(rd.y as int, self.v@.y, 65536, 1179648);
            lemma_fmul_abs(rd.y as int, self.v@.z, 65536, 1179648);
        }
        let offset = self.u.scale(rd.x).add(self.v.scale(rd.y));
        let origin = self.origin.add(offset);
        proof {
            lemma_fmul_abs(s as int, self.horizontal@.x, 65536, 0x20_0000);
            lemma_fmul_abs(s as int, self.horizontal@.y, 65536, 0x20_0000);
            lemma_fmul_abs(s as int, self.horizontal@.z, 65536, 0x20_0000);
            lemma_fmul_abs(t as int, self.vertical@.x, 65536, 0x20_0000);
            lemma_fmul_abs(t as int, self.vertical@.y, 65536, 0x20_0000);
            lemma_fmul_abs(t as int, self.vertical@.z, 65536, 0x20_0000);
        }
        let direction = self.lower_left_corner.add(self.horizontal.scale(s)).add(
            self.vertical.scale(t),
        ).sub(origin);
        proof {
            assert(disk_sample(dsmp@) && origin@ == get_ray_origin_s(*self, dsmp@) && direction@
                == get_ray_dir_s(*self, s as int, t as int, dsmp@));
            if self.lens_radius == 0 {
                crate::fixed::lemma_fmul_zero(dsmp@.x);
                crate::fixed::lemma_fmul_zero(dsmp@.y);
                crate::fixed::lemma_fmul_zero(dsmp@.z);
                assert(scale_s(dsmp@, 0) == v3_zero());
                crate::fixed::lemma_fmul_zero(self.u@.x);
                crate::fixed::lemma_fmul_zero(self.u@.y);
                crate::fixed::lemma_fmul_zero(self.u@.z);
                crate::fixed::lemma_fmul_zero(self.v@.x);
                crate::fixed::lemma_fmul_zero(self.v@.y);
                crate::fixed::lemma_fmul_zero(self.v@.z);
                assert(scale_s(self.u@, 0) == v3_zero());
                assert(scale_s(self.v@, 0) == v3_zero());
                assert(direction@ == get_ray_dir_s(*self, s as int, t as int, v3_zero()));
            }
        }
        Ray::new(origin, direction)
    }
}

} // verus!
