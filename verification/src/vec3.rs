//! Three-component vectors over fixed-point scalars, with the geometric
//! operations the renderer needs: arithmetic, dot and cross products,
//! normalization, reflection and refraction.

use vstd::prelude::*;

verus! {

use crate::fixed::{
    sd, fmul_s, fdiv_s, fsqrt_s, clamp_s, fmul, fdiv, fsqrt, clamp, FX_ONE,
    lemma_fmul_abs, lemma_fdiv_abs, lemma_isqrt_bounds, isqrt,
};
use vstd::arithmetic::div_mod::lemma_fundamental_div_mod;
use vstd::arithmetic::div_mod::lemma_div_is_ordered;
use vstd::arithmetic::div_mod::lemma_div_is_ordered_by_denominator;
use vstd::arithmetic::div_mod::lemma_div_pos_is_pos;
use vstd::arithmetic::div_mod::lemma_multiply_divide_lt;

/// A vector as three unbounded integers: the mathematical model of `Vec3`.
pub ghost struct V3 {
    pub x: int,
    pub y: int,
    pub z: int,
}

/// A point, a direction or a color: three fixed-point components.
#[derive(Clone, Copy, Debug, PartialEq, Eq, Structural)]
pub struct Vec3 {
    pub x: i64,
    pub y: i64,
    pub z: i64,
}

/// Points in space carry the same representation as free vectors.
pub type Point3 = Vec3;

impl View for Vec3 {
    type V = V3;

    open spec fn view(&self) -> V3 {
        V3 { x: self.x as int, y: self.y as int, z: self.z as int }
    }
}

/// Every component lies in `[-b, b]`.
pub open spec fn in_bound(v: V3, b: int) -> bool {
    &&& -b <= v.x <= b
    &&& -b <= v.y <= b
    &&& -b <= v.z <= b
}

pub open spec fn add_s(a: V3, b: V3) -> V3 {
    V3 { x: a.x + b.x, y: a.y + b.y, z: a.z + b.z }
}

pub open spec fn sub_s(a: V3, b: V3) -> V3 {
    V3 { x: a.x - b.x, y: a.y - b.y, z: a.z - b.z }
}

pub open spec fn neg_s(a: V3) -> V3 {
    V3 { x: -a.x, y: -a.y, z: -a.z }
}

/// The vector scaled by the fixed-point scalar `t`.
pub open spec fn scale_s(a: V3, t: int) -> V3 {
    V3 { x: fmul_s(t, a.x), y: fmul_s(t, a.y), z: fmul_s(t, a.z) }
}

/// The componentwise (Hadamard) product, as used for color attenuation.
pub open spec fn mul_s(a: V3, b: V3) -> V3 {
    V3 { x: fmul_s(a.x, b.x), y: fmul_s(a.y, b.y), z: fmul_s(a.z, b.z) }
}

pub open spec fn dot_s(a: V3, b: V3) -> int {
    fmul_s(a.x, b.x) + fmul_s(a.y, b.y) + fmul_s(a.z, b.z)
}

pub open spec fn cross_s(a: V3, b: V3) -> V3 {
    V3 {
        x: fmul_s(a.y, b.z) - fmul_s(a.z, b.y),
        y: fmul_s(a.z, b.x) - fmul_s(a.x, b.z),
        z: fmul_s(a.x, b.y) - fmul_s(a.y, b.x),
    }
}

pub open spec fn len_sq_s(a: V3) -> int {
    dot_s(a, a)
}

pub open spec fn len_s(a: V3) -> int {
    fsqrt_s(len_sq_s(a))
}

/// Normalization; a vector of zero computed length maps to zero.
pub open spec fn unit_s(a: V3) -> V3 {
    let l = len_s(a);
    if l == 0 {
        V3 { x: 0, y: 0, z: 0 }
    } else {
        V3 { x: fdiv_s(a.x, l), y: fdiv_s(a.y, l), z: fdiv_s(a.z, l) }
    }
}

/// All components below one representation step in magnitude.
pub open spec fn near_zero_s(a: V3) -> bool {
    &&& -1 < a.x < 1
    &&& -1 < a.y < 1
    &&& -1 < a.z < 1
}

/// Mirror reflection of `v` about the normal `n`.
pub open spec fn reflect_s(v: V3, n: V3) -> V3 {
    sub_s(v, scale_s(n, 2 * dot_s(v, n)))
}

/// Snell refraction of the unit direction `uv` at normal `n` with the given
/// ratio of refractive indices; the incidence cosine is clamped to `[-1, 1]`
/// to guard fixed-point rounding.
pub open spec fn refract_s(uv: V3, n: V3, ratio: int) -> V3 {
    let cos_theta = clamp_s(dot_s(neg_s(uv), n), -65536, 65536);
    let r_out_perp = scale_s(add_s(uv, scale_s(n, cos_theta)), ratio);
    let k = 65536 - len_sq_s(r_out_perp);
    let abs_k = if k >= 0 { k } else { -k };
    let r_out_parallel = scale_s(n, -fsqrt_s(abs_k));
    add_s(r_out_perp, r_out_parallel)
}

/// Negating a vector leaves its squared length unchanged.
pub proof fn lemma_len_sq_neg(a: V3)
    ensures
        len_sq_s(neg_s(a)) == len_sq_s(a),
{
    assert((-a.x) * (-a.x) == a.x * a.x) by (nonlinear_arith);
    assert((-a.y) * (-a.y) == a.y * a.y) by (nonlinear_arith);
    assert((-a.z) * (-a.z) == a.z * a.z) by (nonlinear_arith);
}

/// The magnitude of a dot product, from componentwise magnitude bounds.
pub proof fn lemma_dot_abs(a: V3, b: V3, m: int, n: int)
    requires
        in_bound(a, m),
        in_bound(b, n),
        0 <= m,
        0 <= n,
    ensures
        -(3 * ((m * n) / 65536)) <= dot_s(a, b) <= 3 * ((m * n) / 65536),
{
    lemma_fmul_abs(a.x, b.x, m, n);
    lemma_fmul_abs(a.y, b.y, m, n);
    lemma_fmul_abs(a.z, b.z, m, n);
}

/// A squared length is nonnegative, and bounds each component's square.
pub proof fn lemma_len_sq_nonneg(a: V3)
    ensures
        len_sq_s(a) >= 0,
        sd(a.x * a.x) <= len_sq_s(a),
        sd(a.y * a.y) <= len_sq_s(a),
        sd(a.z * a.z) <= len_sq_s(a),
{
    assert(a.x * a.x >= 0 && a.y * a.y >= 0 && a.z * a.z >= 0) by (nonlinear_arith);
    lemma_div_pos_is_pos(a.x * a.x, 65536);
    lemma_div_pos_is_pos(a.y * a.y, 65536);
    lemma_div_pos_is_pos(a.z * a.z, 65536);
}

impl Vec3 {
    pub fn new(x: i64, y: i64, z: i64) -> (r: Vec3)
        ensures
            r@ == (V3 { x: x as int, y: y as int, z: z as int }),
    {
        Vec3 { x, y, z }
    }

    pub fn zero() -> (r: Vec3)
        ensures
            r@ == (V3 { x: 0int, y: 0int, z: 0int }),
    {
        Vec3 { x: 0, y: 0, z: 0 }
    }

    pub fn add(self, o: Vec3) -> (r: Vec3)
        requires
            i64::MIN <= self@.x + o@.x <= i64::MAX,
            i64::MIN <= self@.y + o@.y <= i64::MAX,
            i64::MIN <= self@.z + o@.z <= i64::MAX,
        ensures
            r@ == add_s(self@, o@),
    {
        Vec3 { x: self.x + o.x, y: self.y + o.y, z: self.z + o.z }
    }

    pub fn sub(self, o: Vec3) -> (r: Vec3)
        requires
            i64::MIN <= self@.x - o@.x <= i64::MAX,
            i64::MIN <= self@.y - o@.y <= i64::MAX,
            i64::MIN <= self@.z - o@.z <= i64::MAX,
        ensures
            r@ == sub_s(self@, o@),
    {
        Vec3 { x: self.x - o.x, y: self.y - o.y, z: self.z - o.z }
    }

    pub fn neg(self) -> (r: Vec3)
        requires
            self@.x > i64::MIN,
            self@.y > i64::MIN,
            self@.z > i64::MIN,
        ensures
            r@ == neg_s(self@),
    {
        Vec3 { x: -self.x, y: -self.y, z: -self.z }
    }

    /// Scale by a fixed-point scalar.
    pub fn scale(self, t: i64) -> (r: Vec3)
        requires
            in_bound(self@, 0x40_0000_0000),
            -0x40_0000_0000 <= t <= 0x40_0000_0000,
        ensures
            r@ == scale_s(self@, t as int),
            in_bound(r@, 0x4000_0000_0000_0000),
    {
        proof {
            lemma_fmul_abs(t as int, self@.x, 0x40_0000_0000, 0x40_0000_0000);
            lemma_fmul_abs(t as int, self@.y, 0x40_0000_0000, 0x40_0000_0000);
            lemma_fmul_abs(t as int, self@.z, 0x40_0000_0000, 0x40_0000_0000);
        }
        Vec3 { x: fmul(t, self.x), y: fmul(t, self.y), z: fmul(t, self.z) }
    }

    /// Componentwise product, used to tint one color by another.
    pub fn mul(self, o: Vec3) -> (r: Vec3)
        requires
            in_bound(self@, 0x40_0000_0000),
            in_bound(o@, 0x40_0000_0000),
        ensures
            r@ == mul_s(self@, o@),
    {
        proof {
            lemma_fmul_abs(self@.x, o@.x, 0x40_0000_0000, 0x40_0000_0000);
            lemma_fmul_abs(self@.y, o@.y, 0x40_0000_0000, 0x40_0000_0000);
            lemma_fmul_abs(self@.z, o@.z, 0x40_0000_0000, 0x40_0000_0000);
        }
        Vec3 { x: fmul(self.x, o.x), y: fmul(self.y, o.y), z: fmul(self.z, o.z) }
    }

    pub fn dot(self, o: Vec3) -> (r: i64)
        requires
            in_bound(self@, 0x40_0000_0000),
            in_bound(o@, 0x40_0000_0000),
        ensures
            r == dot_s(self@, o@),
    {
        proof {
            lemma_dot_abs(self@, o@, 0x40_0000_0000, 0x40_0000_0000);
            lemma_fmul_abs(self@.x, o@.x, 0x40_0000_0000, 0x40_0000_0000);
            lemma_fmul_abs(self@.y, o@.y, 0x40_0000_0000, 0x40_0000_0000);
            lemma_fmul_abs(self@.z, o@.z, 0x40_0000_0000, 0x40_0000_0000);
        }
        fmul(self.x, o.x) + fmul(self.y, o.y) + fmul(self.z, o.z)
    }

    pub fn cross(self, o: Vec3) -> (r: Vec3)
        requires
            in_bound(self@, 0x40_0000_0000),
            in_bound(o@, 0x40_0000_0000),
        ensures
            r@ == cross_s(self@, o@),
    {
        proof {
            lemma_fmul_abs(self@.y, o@.z, 0x40_0000_0000, 0x40_0000_0000);
            lemma_fmul_abs(self@.z, o@.y, 0x40_0000_0000, 0x40_0000_0000);
            lemma_fmul_abs(self@.z, o@.x, 0x40_0000_0000, 0x40_0000_0000);
            lemma_fmul_abs(self@.x, o@.z, 0x40_0000_0000, 0x40_0000_0000);
            lemma_fmul_abs(self@.x, o@.y, 0x40_0000_0000, 0x40_0000_0000);
            lemma_fmul_abs(self@.y, o@.x, 0x40_0000_0000, 0x40_0000_0000);
        }
        Vec3 {
            x: fmul(self.y, o.z) - fmul(self.z, o.y),
            y: fmul(self.z, o.x) - fmul(self.x, o.z),
            z: fmul(self.x, o.y) - fmul(self.y, o.x),
        }
    }

    pub fn length_squared(self) -> (r: i64)
        requires
            in_bound(self@, 0x40_0000_0000),
        ensures
            r == len_sq_s(self@),
            r >= 0,
    {
        proof {
            lemma_len_sq_nonneg(self@);
        }
        self.dot(self)
    }

    pub fn length(self) -> (r: i64)
        requires
            in_bound(self@, 0x40_0000_0000),
        ensures
            r == len_s(self@),
            r >= 0,
    {
        fsqrt(self.length_squared())
    }

    /// True when every component is below one representation step.
    pub fn near_zero(self) -> (r: bool)
        ensures
            r == near_zero_s(self@),
    {
        self.x > -1 && self.x < 1 && self.y > -1 && self.y < 1 && self.z > -1 && self.z < 1
    }
}

/// The normalized direction; zero when the computed length is zero.
pub fn unit_vector(v: Vec3) -> (r: Vec3)
    requires
        in_bound(v@, 0x40_0000_0000),
    ensures
        r@ == unit_s(v@),
        in_bound(r@, 196608),
{
    let l = v.length();
    proof {
        lemma_unit_bound(v@);
    }
    if l == 0 {
        Vec3 { x: 0, y: 0, z: 0 }
    } else {
        proof {
            lemma_fdiv_abs(v@.x, l as int, 0x40_0000_0000);
            lemma_fdiv_abs(v@.y, l as int, 0x40_0000_0000);
            lemma_fdiv_abs(v@.z, l as int, 0x40_0000_0000);
        }
        Vec3 { x: fdiv(v.x, l), y: fdiv(v.y, l), z: fdiv(v.z, l) }
    }
}

/// A normalized vector never exceeds three in any component: the computed
/// length underestimates a component by at most a couple of rounding steps.
pub proof fn lemma_unit_bound(v: V3)
    requires
        in_bound(v, 0x40_0000_0000),
    ensures
        in_bound(unit_s(v), 196608),
{
    let l = len_s(v);
    if l != 0 {
        lemma_unit_component_bound(v.x, v);
        lemma_unit_component_bound(v.y, v);
        lemma_unit_component_bound(v.z, v);
    }
}

/// One component of the normalization bound: `|c * 65536 / len| <= 3 * 65536`
/// for any component `c` of `v`.
proof fn lemma_unit_component_bound(c: int, v: V3)
    requires
        in_bound(v, 0x40_0000_0000),
        c == v.x || c == v.y || c == v.z,
        len_s(v) != 0,
    ensures
        -196608 <= fdiv_s(c, len_s(v)) <= 196608,
{
    let ls = len_sq_s(v);
    let l = len_s(v);
    lemma_len_sq_nonneg(v);
    // The length is the integer square root of the scaled squared length.
    lemma_isqrt_bounds((ls * 65536) as nat);
    assert(l >= 1);
    let t = isqrt(ls as nat);
    lemma_isqrt_bounds(ls as nat);
    // ls >= 1 because l >= 1 means ls * 65536 >= 1.
    assert(ls >= 1) by {
        if ls == 0 {
            assert(isqrt(0nat) == 0);
            assert(l == 0);
        }
    }
    assert(t >= 1) by {
        if t == 0 {
            assert(ls < 1) by (nonlinear_arith)
                requires
                    ls < (t + 1) * (t + 1),
                    t == 0,
            ;
        }
    }
    // l >= 256 * t: (256 t)^2 <= 65536 ls, and isqrt is the largest such root.
    assert((256 * t) * (256 * t) <= 65536 * (ls as nat)) by (nonlinear_arith)
        requires
            t * t <= ls as nat,
    ;
    lemma_isqrt_ge((ls * 65536) as nat, (256 * t) as nat);
    assert(l >= 256 * t);
    // c^2 < 65536 * (ls + 1), since sd(c^2) <= ls.
    assert(c * c >= 0) by (nonlinear_arith);
    assert(sd(c * c) <= ls);
    lemma_fundamental_div_mod(c * c, 65536);
    assert(c * c < 65536 * (ls + 1));
    // |c| < 256 * (t + 2): 65536 (ls + 1) <= (256 (t + 2))^2.
    assert(65536 * (ls + 1) <= (256 * (t + 2)) * (256 * (t + 2))) by (nonlinear_arith)
        requires
            ls < (t + 1) * (t + 1),
            t >= 0,
    ;
    let cap = 256 * (t + 2);
    assert(-cap < c < cap) by (nonlinear_arith)
        requires
            c * c < cap * cap,
            cap >= 1,
    ;
    // Division bound: |c * 65536 / l| <= |c| * 65536 / (256 t) < 3 * 65536.
    assert(cap * 65536 <= (3 * 65536) * (256 * t)) by (nonlinear_arith)
        requires
            t >= 1,
            cap == 256 * (t + 2),
    ;
    if c >= 0 {
        lemma_div_is_ordered(c * 65536, cap * 65536 - 1, l);
        lemma_div_is_ordered_by_denominator(cap * 65536 - 1, 256 * (t as int), l);
        lemma_multiply_divide_lt(cap * 65536 - 1, 256 * (t as int), 196608);
        lemma_div_pos_is_pos(c * 65536, l);
    } else {
        lemma_div_is_ordered(-(c * 65536), cap * 65536 - 1, l);
        lemma_div_is_ordered_by_denominator(cap * 65536 - 1, 256 * (t as int), l);
        lemma_multiply_divide_lt(cap * 65536 - 1, 256 * (t as int), 196608);
        lemma_div_pos_is_pos(-(c * 65536), l);
    }
}

/// `isqrt(n)` is at least any `k` whose square is at most `n`.
pub proof fn lemma_isqrt_ge(n: nat, k: nat)
    requires
        k * k <= n,
    ensures
        isqrt(n) >= k,
{
    lemma_isqrt_bounds(n);
    if isqrt(n) < k {
        assert((isqrt(n) + 1) * (isqrt(n) + 1) <= k * k) by (nonlinear_arith)
            requires
                isqrt(n) + 1 <= k,
        ;
    }
}

/// Reflection about a surface normal.
pub fn reflect(v: Vec3, n: Vec3) -> (r: Vec3)
    requires
        in_bound(v@, 196608),
        in_bound(n@, 131072),
    ensures
        r@ == reflect_s(v@, n@),
        in_bound(r@, 4915200),
{
    let d = v.dot(n);
    proof {
        lemma_dot_abs(v@, n@, 196608, 131072);
        lemma_fmul_abs(2 * (d as int), n@.x, 2359296, 131072);
        lemma_fmul_abs(2 * (d as int), n@.y, 2359296, 131072);
        lemma_fmul_abs(2 * (d as int), n@.z, 2359296, 131072);
    }
    v.sub(n.scale(2 * d))
}

/// Snell refraction with Schlick-independent geometry: the refracted
/// direction for incident unit vector `uv`, normal `n` and index ratio.
pub fn refract(uv: Vec3, n: Vec3, ratio: i64) -> (r: Vec3)
    requires
        in_bound(uv@, 196608),
        in_bound(n@, 131072),
        0 < ratio <= 524288,
    ensures
        r@ == refract_s(uv@, n@, ratio as int),
        in_bound(r@, 0x100_0000),
{
    proof {
        lemma_dot_abs(neg_s(uv@), n@, 196608, 131072);
    }
    let cos_theta = clamp(uv.neg().dot(n), -FX_ONE, FX_ONE);
    let scaled_n = n.scale(cos_theta);
    proof {
        lemma_fmul_abs(cos_theta as int, n@.x, 65536, 131072);
        lemma_fmul_abs(cos_theta as int, n@.y, 65536, 131072);
        lemma_fmul_abs(cos_theta as int, n@.z, 65536, 131072);
    }
    let base = uv.add(scaled_n);
    proof {
        lemma_fmul_abs(ratio as int, base@.x, 524288, 327680);
        lemma_fmul_abs(ratio as int, base@.y, 524288, 327680);
        lemma_fmul_abs(ratio as int, base@.z, 524288, 327680);
    }
    let r_out_perp = base.scale(ratio);
    proof {
        lemma_dot_abs(r_out_perp@, r_out_perp@, 2621440, 2621440);
    }
    let perp_ls = r_out_perp.length_squared();
    let k = FX_ONE - perp_ls;
    let abs_k = if k >= 0 { k } else { -k };
    let s = fsqrt(abs_k);
    proof {
        lemma_len_sq_nonneg(r_out_perp@);
        lemma_isqrt_bounds((abs_k * 65536) as nat);
        assert(s <= 4587520) by (nonlinear_arith)
            requires
                s * s <= abs_k * 65536,
                abs_k <= 314572800,
                s >= 0,
        ;
        lemma_fmul_abs(-s as int, n@.x, 4587520, 131072);
        lemma_fmul_abs(-s as int, n@.y, 4587520, 131072);
        lemma_fmul_abs(-s as int, n@.z, 4587520, 131072);
    }
    let r_out_parallel = n.scale(-s);
    r_out_perp.add(r_out_parallel)
}

/// Law: a refractive-index ratio of exactly one bends no light at normal
/// incidence — for an incident direction exactly opposite a normal of
/// computed unit length, the refracted direction equals the incident
/// direction.  (At oblique incidence the equality holds of the real
/// numbers but fixed-point rounding can perturb the last bit.)
pub proof fn lemma_refract_identity_normal_incidence(uv: V3, n: V3)
    requires
        uv == neg_s(n),
        len_sq_s(n) == 65536,
        in_bound(n, 131072),
    ensures
        refract_s(uv, n, 65536) == uv,
{
    let cos = clamp_s(dot_s(neg_s(uv), n), -65536, 65536);
    assert(neg_s(uv) == n);
    assert(cos == 65536);
    crate::fixed::lemma_fmul_one(n.x);
    crate::fixed::lemma_fmul_one(n.y);
    crate::fixed::lemma_fmul_one(n.z);
    let scaled_n = scale_s(n, cos);
    assert(scaled_n == n);
    let base = add_s(uv, scaled_n);
    assert(base == (V3 { x: 0int, y: 0int, z: 0int }));
    crate::fixed::lemma_fmul_zero(65536);
    let perp = scale_s(base, 65536);
    assert(perp == (V3 { x: 0int, y: 0int, z: 0int }));
    crate::fixed::lemma_fmul_zero(0);
    assert(len_sq_s(perp) == 0);
    assert(65536nat * 65536nat == 4294967296nat && 4294967296nat < 65537nat * 65537nat)
        by (nonlinear_arith);
    crate::fixed::lemma_isqrt_unique(4294967296nat, 65536nat);
    let s = fsqrt_s(65536);
    assert(s == 65536);
    crate::fixed::lemma_sd_multiple(-n.x);
    crate::fixed::lemma_sd_multiple(-n.y);
    crate::fixed::lemma_sd_multiple(-n.z);
    assert((-65536) * n.x == (-n.x) * 65536) by (nonlinear_arith);
    assert((-65536) * n.y == (-n.y) * 65536) by (nonlinear_arith);
    assert((-65536) * n.z == (-n.z) * 65536) by (nonlinear_arith);
    let parallel = scale_s(n, -s);
    assert(parallel == neg_s(n));
    assert(refract_s(uv, n, 65536) == add_s(perp, parallel));
    assert(add_s(perp, parallel) == uv);
}

} // verus!
