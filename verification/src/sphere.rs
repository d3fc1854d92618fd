//! The one concrete surface: a sphere, with the quadratic ray-intersection
//! test.

use vstd::prelude::*;

verus! {

use crate::config::ConfigError;
use crate::fixed::{
    sd, fmul_s, fdiv_s, fsqrt_s, fmul, fdiv, fsqrt, lemma_fmul_abs, lemma_fdiv_abs,
    lemma_isqrt_bounds,
};
use crate::hittable::{HitRecord, HR3, wf_hr};
use crate::ray::{Ray, wf_ray, at_s};
use crate::vec3::{
    Vec3, Point3, V3, in_bound, add_s, sub_s, neg_s, dot_s, len_sq_s, lemma_dot_abs,
};
use vstd::arithmetic::div_mod::lemma_div_pos_is_pos;
use vstd::arithmetic::div_mod::lemma_div_is_ordered;

/// A sphere fit for tracing: its center lies in the scene volume and its
/// radius is positive and bounded.
pub open spec fn wf_sphere(s: Sphere) -> bool {
    &&& in_bound(s.center@, 0x800_0000)
    &&& 0 < s.radius <= 0x800_0000
}

#[derive(Clone, Copy, Debug, PartialEq, Eq, Structural)]
pub struct Sphere {
    pub center: Point3,
    pub radius: i64,
    /// Index of this sphere's material in the scene's material arena.
    pub mat: usize,
}

/// The discriminant of the quadratic `|origin + t dir - center|^2 = r^2`,
/// in the halved-b form: `(b/2)^2 - a c`.
pub open spec fn discriminant_s(s: Sphere, r: Ray) -> int {
    let oc = sub_s(r.origin@, s.center@);
    let a = len_sq_s(r.direction@);
    let half_b = dot_s(oc, r.direction@);
    let c = len_sq_s(oc) - fmul_s(s.radius as int, s.radius as int);
    fmul_s(half_b, half_b) - fmul_s(a, c)
}

/// The hit record produced for an accepted root, or nothing when the
/// computed point or normal falls outside the ranges a usable record needs
/// (a rounding degeneracy, treated as a miss).
pub open spec fn sphere_rec_s(s: Sphere, r: Ray, root: int) -> Option<HR3> {
    let p = at_s(r, root);
    let outward = V3 {
        x: fdiv_s(p.x - s.center@.x, s.radius as int),
        y: fdiv_s(p.y - s.center@.y, s.radius as int),
        z: fdiv_s(p.z - s.center@.z, s.radius as int),
    };
    if !in_bound(p, 0x1000_0000) {
        Option::None
    } else if !in_bound(outward, 131072) {
        Option::None
    } else if !(32768 <= len_sq_s(outward) <= 131072) {
        Option::None
    } else {
        let ff = dot_s(r.direction@, outward) < 0;
        let normal = if ff {
            outward
        } else {
            neg_s(outward)
        };
        Option::Some(
            HR3 { p, normal, t: root, front_face: ff, mat: s.mat as int },
        )
    }
}

/// The full intersection test: no hit when the discriminant is negative or
/// the direction has zero computed length; otherwise the nearer root in
/// `(t_min, t_max)` is preferred, falling back to the farther one.
pub open spec fn sphere_hit_s(s: Sphere, r: Ray, t_min: int, t_max: int) -> Option<HR3> {
    let a = len_sq_s(r.direction@);
    let disc = discriminant_s(s, r);
    if a <= 0 || disc < 0 {
        Option::None
    } else {
        let oc = sub_s(r.origin@, s.center@);
        let half_b = dot_s(oc, r.direction@);
        let sqrtd = fsqrt_s(disc);
        let root1 = fdiv_s(-half_b - sqrtd, a);
        let root2 = fdiv_s(-half_b + sqrtd, a);
        if t_min < root1 && root1 < t_max {
            sphere_rec_s(s, r, root1)
        } else if t_min < root2 && root2 < t_max {
            sphere_rec_s(s, r, root2)
        } else {
            Option::None
        }
    }
}

impl Sphere {
    /// Build a sphere, rejecting a non-positive radius and out-of-range
    /// coordinates eagerly.
    pub fn new(center: Point3, radius: i64, mat: usize) -> (res: Result<Sphere, ConfigError>)
        ensures
            match res {
                Result::Ok(s) => {
                    &&& s.center == center
                    &&& s.radius == radius
                    &&& s.mat == mat
                    &&& wf_sphere(s)
                },
                Result::Err(e) => {
                    &&& (e == ConfigError::NonPositiveRadius <==> radius <= 0)
                    &&& (radius <= 0 || !(in_bound(center@, 0x800_0000) && radius
                        <= 0x800_0000))
                },
            },
            res.is_ok() <==> (0 < radius <= 0x800_0000 && in_bound(center@, 0x800_0000)),
    {
        if radius <= 0 {
            Result::Err(ConfigError::NonPositiveRadius)
        } else if radius > 0x800_0000 || center.x > 0x800_0000 || center.x < -0x800_0000
            || center.y > 0x800_0000 || center.y < -0x800_0000 || center.z > 0x800_0000
            || center.z < -0x800_0000 {
            Result::Err(ConfigError::OutOfRange)
        } else {
            Result::Ok(Sphere { center, radius, mat })
        }
    }

    /// Compute the hit record for an already accepted root.
    fn hit_at_root(&self, r: &Ray, root: i64) -> (res: Option<HitRecord>)
        requires
            wf_sphere(*self),
            wf_ray(*r),
            0 < root <= 0x4000_0000,
        ensures
            match res {
                Option::None => sphere_rec_s(*self, *r, root as int) is None,
                Option::Some(h) => {
                    &&& sphere_rec_s(*self, *r, root as int) == Option::Some(h@)
                    &&& wf_hr(h@)
                    &&& h.mat == self.mat
                    &&& h.t == root
                },
            },
    {
        let p = r.at(root);
        proof {
            lemma_fdiv_abs(p@.x - self.center@.x, self.radius as int, 0x41_9000_0000);
            lemma_fdiv_abs(p@.y - self.center@.y, self.radius as int, 0x41_9000_0000);
            lemma_fdiv_abs(p@.z - self.center@.z, self.radius as int, 0x41_9000_0000);
        }
        let outward = Vec3 {
            x: fdiv(p.x - self.center.x, self.radius),
            y: fdiv(p.y - self.center.y, self.radius),
            z: fdiv(p.z - self.center.z, self.radius),
        };
        if p.x > 0x1000_0000 || p.x < -0x1000_0000 || p.y > 0x1000_0000 || p.y < -0x1000_0000
            || p.z > 0x1000_0000 || p.z < -0x1000_0000 {
            return None;
        }
        if outward.x > 131072 || outward.x < -131072 || outward.y > 131072 || outward.y
            < -131072 || outward.z > 131072 || outward.z < -131072 {
            return None;
        }
        let nls = outward.length_squared();
        if !(32768 <= nls && nls <= 131072) {
            return None;
        }
        let ff = r.direction.dot(outward) < 0;
        proof {
            crate::vec3::lemma_len_sq_neg(outward@);
        }
        let normal = if ff {
            outward
        } else {
            outward.neg()
        };
        Some(HitRecord { p, normal, t: root, front_face: ff, mat: self.mat })
    }

    /// Test the ray against this sphere within the open interval
    /// `(t_min, t_max)`.
    pub fn hit(&self, r: &Ray, t_min: i64, t_max: i64) -> (res: Option<HitRecord>)
        requires
            wf_sphere(*self),
            wf_ray(*r),
            0 < t_min,
            t_max <= 0x4000_0000,
        ensures
            match res {
                Option::None => sphere_hit_s(*self, *r, t_min as int, t_max as int) is None,
                Option::Some(h) => {
                    &&& sphere_hit_s(*self, *r, t_min as int, t_max as int)
                        == Option::Some(h@)
                    &&& wf_hr(h@)
                    &&& h.mat == self.mat
                    &&& t_min < h.t < t_max
                },
            },
            discriminant_s(*self, *r) < 0 ==> res is None,
    {
        let oc = r.origin.sub(self.center);
        let a = r.direction.length_squared();
        proof {
            lemma_dot_abs(oc@, r.direction@, 0x1800_0000, 0x100_0000);
            lemma_dot_abs(oc@, oc@, 0x1800_0000, 0x1800_0000);
            lemma_dot_abs(r.direction@, r.direction@, 0x100_0000, 0x100_0000);
            lemma_fmul_abs(self.radius as int, self.radius as int, 0x800_0000, 0x800_0000);
        }
        let half_b = oc.dot(r.direction);
        let c = oc.length_squared() - fmul(self.radius, self.radius);
        proof {
            lemma_fmul_abs(half_b as int, half_b as int, 309237645312, 309237645312);
            lemma_fmul_abs(a as int, c as int, 12884901888, 7696581394432);
        }
        let disc = fmul(half_b, half_b) - fmul(a, c);
        if a <= 0 || disc < 0 {
            return None;
        }
        let sqrtd = fsqrt(disc);
        proof {
            lemma_isqrt_bounds((disc * 65536) as nat);
            assert(sqrtd <= 450_000_000_000) by (nonlinear_arith)
                requires
                    sqrtd * sqrtd <= disc * 65536,
                    0 <= disc <= 3_000_000_000_000_000_000,
                    sqrtd >= 0,
            ;
            lemma_fdiv_abs(-half_b - sqrtd, a as int, 759237645312);
            lemma_fdiv_abs(-half_b + sqrtd, a as int, 759237645312);
        }
        let root1 = fdiv(-half_b - sqrtd, a);
        if t_min < root1 && root1 < t_max {
            return self.hit_at_root(r, root1);
        }
        let root2 = fdiv(-half_b + sqrtd, a);
        if t_min < root2 && root2 < t_max {
            return self.hit_at_root(r, root2);
        }
        None
    }
}

/// Narrowing the acceptance window keeps exactly the hits that beat the
/// narrowed cutoff: a hit found under the narrow window is the hit of the
/// wide window, and a narrow-window miss means any wide-window hit lies at
/// or past the narrow cutoff.
pub proof fn lemma_sphere_hit_narrow(s: Sphere, r: Ray, t_min: int, cur: int, t_full: int)
    requires
        cur <= t_full,
    ensures
        match sphere_hit_s(s, r, t_min, cur) {
            Option::Some(h) => sphere_hit_s(s, r, t_min, t_full) == Option::Some(h),
            Option::None => match sphere_hit_s(s, r, t_min, t_full) {
                Option::Some(g) => g.t >= cur,
                Option::None => true,
            },
        },
{
    let a = len_sq_s(r.direction@);
    let disc = discriminant_s(s, r);
    if a <= 0 || disc < 0 {
    } else {
        let oc = sub_s(r.origin@, s.center@);
        let half_b = dot_s(oc, r.direction@);
        let sqrtd = fsqrt_s(disc);
        assert(sqrtd >= 0);
        let root1 = fdiv_s(-half_b - sqrtd, a);
        let root2 = fdiv_s(-half_b + sqrtd, a);
        assert((-half_b - sqrtd) * 65536 <= (-half_b + sqrtd) * 65536) by (nonlinear_arith)
            requires
                sqrtd >= 0,
        ;
        crate::fixed::lemma_tdiv_mono(
            (-half_b - sqrtd) * 65536,
            (-half_b + sqrtd) * 65536,
            a,
        );
        assert(root1 <= root2);
    }
}

/// Law: a ray fired straight down a sphere's axis from outside, at
/// distance `d` from the center, first hits the sphere at parameter
/// `d - sqrt(radius^2)` — within two representation steps of `d - radius`
/// for any radius of at least one half.
pub proof fn lemma_axial_hit(s: Sphere, r: Ray, d: int)
    requires
        wf_sphere(s),
        s.radius >= 32768,
        r.origin@ == add_s(s.center@, V3 { x: 0, y: 0, z: d }),
        r.direction@ == (V3 { x: 0int, y: 0int, z: -65536int }),
        s.radius + 68 <= d <= 0x2000_0000,
    ensures
        match sphere_hit_s(s, r, 66, 0x4000_0000) {
            Option::Some(h) => {
                &&& h.t == d - fsqrt_s(sd(s.radius as int * s.radius as int))
                &&& d - s.radius <= h.t <= d - s.radius + 2
            },
            Option::None => false,
        },
{
    let rad = s.radius as int;
    let oc = sub_s(r.origin@, s.center@);
    assert(oc == (V3 { x: 0int, y: 0int, z: d }));
    crate::fixed::lemma_fmul_zero(0);
    assert((-65536) * (-65536) == 65536 * 65536) by (nonlinear_arith);
    crate::fixed::lemma_sd_multiple(65536);
    let a = len_sq_s(r.direction@);
    assert(a == 65536);
    crate::fixed::lemma_sd_multiple(-d);
    assert(d * (-65536) == (-d) * 65536) by (nonlinear_arith);
    let half_b = dot_s(oc, r.direction@);
    assert(half_b == -d);
    assert(len_sq_s(oc) == sd(d * d));
    let c_val = len_sq_s(oc) - fmul_s(rad, rad);
    assert((-d) * (-d) == d * d) by (nonlinear_arith);
    crate::fixed::lemma_fmul_one(c_val);
    let disc = discriminant_s(s, r);
    assert(disc == sd(rad * rad));
    assert(rad * rad >= 0) by (nonlinear_arith);
    lemma_div_pos_is_pos(rad * rad, 65536);
    let sq = fsqrt_s(disc);
    let ghost x_scaled = sd(rad * rad) * 65536;
    vstd::arithmetic::div_mod::lemma_fundamental_div_mod(rad * rad, 65536);
    assert(rad * rad - 65536 < x_scaled <= rad * rad);
    lemma_isqrt_bounds(x_scaled as nat);
    assert(sq <= rad) by (nonlinear_arith)
        requires
            sq * sq <= x_scaled,
            x_scaled <= rad * rad,
            sq >= 0,
            rad >= 0,
    ;
    assert((rad - 2) * (rad - 2) <= x_scaled) by (nonlinear_arith)
        requires
            rad >= 32768,
            x_scaled > rad * rad - 65536,
    ;
    crate::vec3::lemma_isqrt_ge(x_scaled as nat, (rad - 2) as nat);
    assert(rad - 2 <= sq <= rad);
    // The near root is d - sqrt(disc), inside (t_min, t_max).
    crate::fixed::lemma_fdiv_one(d - sq);
    let root = d - sq;
    assert(66 < root < 0x4000_0000);
    // The hit point sits one computed radius before the center on the axis.
    crate::fixed::lemma_fmul_zero(root);
    crate::fixed::lemma_sd_multiple(-root);
    assert(root * (-65536) == (-root) * 65536) by (nonlinear_arith);
    let p = at_s(r, root);
    assert(p == (V3 { x: s.center@.x, y: s.center@.y, z: s.center@.z + sq }));
    assert(in_bound(p, 0x1000_0000));
    // The outward normal is (0, 0, sq / radius), within rounding of unit.
    vstd::arithmetic::div_mod::lemma_div_of0(rad);
    let oz = fdiv_s(sq, rad);
    assert(oz == (sq * 65536) / rad);
    assert(sq * 65536 <= rad * 65536) by (nonlinear_arith)
        requires
            sq <= rad,
    ;
    lemma_div_is_ordered(sq * 65536, rad * 65536, rad);
    assert((65536 * rad) / rad == 65536) by {
        vstd::arithmetic::div_mod::lemma_div_by_multiple(65536, rad);
    }
    assert(rad * 65536 == 65536 * rad) by (nonlinear_arith);
    assert(oz <= 65536);
    vstd::arithmetic::div_mod::lemma_fundamental_div_mod(sq * 65536, rad);
    assert(oz >= 65532) by (nonlinear_arith)
        requires
            sq * 65536 == rad * ((sq * 65536) / rad) + (sq * 65536) % rad,
            0 <= (sq * 65536) % rad < rad,
            sq >= rad - 2,
            rad >= 32768,
            oz == (sq * 65536) / rad,
    ;
    // The computed normal has near-unit squared length, so the range
    // guards accept the record.
    assert(oz * oz >= 2147483648) by (nonlinear_arith)
        requires
            oz >= 65532,
    ;
    assert(oz * oz <= 65536 * 65536) by (nonlinear_arith)
        requires
            0 <= oz <= 65536,
    ;
    lemma_div_is_ordered(2147483648, oz * oz, 65536);
    lemma_div_is_ordered(oz * oz, 4294967296, 65536);
    lemma_div_pos_is_pos(oz * oz, 65536);
    assert(32768 <= sd(oz * oz) <= 131072);
    let outward = V3 { x: 0, y: 0, z: oz };
    assert(len_sq_s(outward) == sd(oz * oz));
    // The ray approaches from outside: the dot with the outward normal is
    // negative, so the record keeps the outward normal and front_face.
    crate::fixed::lemma_sd_multiple(-oz);
    assert((-65536) * oz == (-oz) * 65536) by (nonlinear_arith);
    assert(dot_s(r.direction@, outward) == -oz);
    assert(sphere_rec_s(s, r, root) == Option::Some(
        HR3 {
            p,
            normal: outward,
            t: root,
            front_face: true,
            mat: s.mat as int,
        },
    ));
}

} // verus!
