//! Signed fixed-point scalars: an `i64` holds `v` meaning the real number
//! `v / 65536`.  All operations round toward zero and are specified exactly
//! over the mathematical integers.

use vstd::prelude::*;

verus! {

use vstd::arithmetic::div_mod::lemma_fundamental_div_mod;
use vstd::arithmetic::div_mod::lemma_div_is_ordered;
use vstd::arithmetic::div_mod::lemma_div_pos_is_pos;
use vstd::arithmetic::div_mod::lemma_div_is_ordered_by_denominator;

/// The fixed-point representation of one.
pub const FX_ONE: i64 = 65536;

/// The fixed-point representation of one half.
pub const FX_HALF: i64 = 32768;

/// Truncating (toward zero) division of `x` by the scale 65536.
pub open spec fn sd(x: int) -> int {
    if x >= 0 {
        x / 65536
    } else {
        -((-x) / 65536)
    }
}

/// Truncating (toward zero) division of `x` by a positive `d`.
pub open spec fn tdiv(x: int, d: int) -> int
    recommends
        d > 0,
{
    if x >= 0 {
        x / d
    } else {
        -((-x) / d)
    }
}

/// The fixed-point product: scale the integer product back down.
pub open spec fn fmul_s(a: int, b: int) -> int {
    sd(a * b)
}

/// The fixed-point quotient of `a` by a positive `b`.
pub open spec fn fdiv_s(a: int, b: int) -> int {
    tdiv(a * 65536, b)
}

/// The integer square root: the largest `r` with `r * r <= n`.
pub open spec fn isqrt(n: nat) -> nat
    decreases n,
{
    if n == 0 {
        0
    } else {
        let s = 2 * isqrt(n / 4);
        if (s + 1) * (s + 1) <= n {
            s + 1
        } else {
            s
        }
    }
}

/// The fixed-point square root of a nonnegative `x`.
pub open spec fn fsqrt_s(x: int) -> int
    recommends
        x >= 0,
{
    isqrt((x * 65536) as nat) as int
}

/// Clamping into the interval `[lo, hi]`.
pub open spec fn clamp_s(x: int, lo: int, hi: int) -> int {
    if x < lo {
        lo
    } else if x > hi {
        hi
    } else {
        x
    }
}

/// `isqrt(n)` is the integer square root: it squares to at most `n`,
/// and the next integer squares past `n`.
pub proof fn lemma_isqrt_bounds(n: nat)
    ensures
        isqrt(n) * isqrt(n) <= n,
        n < (isqrt(n) + 1) * (isqrt(n) + 1),
    decreases n,
{
    if n == 0 {
        assert(isqrt(n) == 0);
        assert(n < (isqrt(n) + 1) * (isqrt(n) + 1)) by (nonlinear_arith)
            requires
                n == 0,
                isqrt(n) == 0,
        ;
    } else {
        let m = isqrt(n / 4);
        assert(isqrt(n) == if (2 * m + 1) * (2 * m + 1) <= n {
            2 * m + 1
        } else {
            2 * m
        });
        lemma_isqrt_bounds(n / 4);
        lemma_fundamental_div_mod(n as int, 4);
        assert(4 * (n / 4) <= n && n <= 4 * (n / 4) + 3);
        assert((2 * m) * (2 * m) <= n) by (nonlinear_arith)
            requires
                m * m <= n / 4,
                4 * (n / 4) <= n,
        ;
        assert(n < (2 * m + 2) * (2 * m + 2)) by (nonlinear_arith)
            requires
                n / 4 < (m + 1) * (m + 1),
                n <= 4 * (n / 4) + 3,
        ;
        if (2 * m + 1) * (2 * m + 1) <= n {
            assert(isqrt(n) == 2 * m + 1);
            assert(n < (isqrt(n) + 1) * (isqrt(n) + 1)) by (nonlinear_arith)
                requires
                    isqrt(n) == 2 * m + 1,
                    n < (2 * m + 2) * (2 * m + 2),
            ;
        } else {
            assert(isqrt(n) == 2 * m);
            assert(n < (isqrt(n) + 1) * (isqrt(n) + 1)) by (nonlinear_arith)
                requires
                    isqrt(n) == 2 * m,
                    n < (2 * m + 1) * (2 * m + 1),
            ;
        }
    }
}

/// Any `r` with `r * r <= n < (r + 1) * (r + 1)` is `isqrt(n)`.
pub proof fn lemma_isqrt_unique(n: nat, r: nat)
    requires
        r * r <= n,
        n < (r + 1) * (r + 1),
    ensures
        isqrt(n) == r,
{
    lemma_isqrt_bounds(n);
    if isqrt(n) < r {
        assert(r * r >= (isqrt(n) + 1) * (isqrt(n) + 1)) by (nonlinear_arith)
            requires
                isqrt(n) + 1 <= r,
        ;
    }
    if isqrt(n) > r {
        assert(isqrt(n) * isqrt(n) >= (r + 1) * (r + 1)) by (nonlinear_arith)
            requires
                r + 1 <= isqrt(n),
        ;
    }
}

/// The magnitude of `sd` is bounded by the scaled-down magnitude bound.
pub proof fn lemma_sd_abs(x: int, m: int)
    requires
        -m <= x <= m,
        0 <= m,
    ensures
        -(m / 65536) <= sd(x) <= m / 65536,
{
    if x >= 0 {
        lemma_div_is_ordered(x, m, 65536);
        lemma_div_pos_is_pos(x, 65536);
    } else {
        lemma_div_is_ordered(-x, m, 65536);
        lemma_div_pos_is_pos(-x, 65536);
    }
}

/// The magnitude of a fixed-point product is bounded by the product of the
/// magnitude bounds, scaled down.
pub proof fn lemma_fmul_abs(a: int, b: int, m: int, n: int)
    requires
        -m <= a <= m,
        -n <= b <= n,
        0 <= m,
        0 <= n,
    ensures
        -((m * n) / 65536) <= fmul_s(a, b) <= (m * n) / 65536,
{
    assert(-(m * n) <= a * b <= m * n) by (nonlinear_arith)
        requires
            -m <= a <= m,
            -n <= b <= n,
            0 <= m,
            0 <= n,
    ;
    assert(m * n >= 0) by (nonlinear_arith)
        requires
            0 <= m,
            0 <= n,
    ;
    lemma_sd_abs(a * b, m * n);
}

/// The magnitude of a fixed-point quotient by a denominator of at least one
/// is bounded by the scaled-up numerator bound.
pub proof fn lemma_fdiv_abs(a: int, b: int, m: int)
    requires
        -m <= a <= m,
        b >= 1,
        0 <= m,
    ensures
        -(m * 65536) <= fdiv_s(a, b) <= m * 65536,
{
    assert(-(m * 65536) <= a * 65536 <= m * 65536);
    if a * 65536 >= 0 {
        lemma_div_is_ordered_by_denominator(a * 65536, 1, b);
        lemma_div_pos_is_pos(a * 65536, b);
    } else {
        lemma_div_is_ordered_by_denominator(-(a * 65536), 1, b);
        lemma_div_pos_is_pos(-(a * 65536), b);
    }
}

/// Scaling a multiple of 65536 back down is exact.
pub proof fn lemma_sd_multiple(k: int)
    ensures
        sd(k * 65536) == k,
{
    if k >= 0 {
        assert(k * 65536 >= 0) by (nonlinear_arith)
            requires
                k >= 0,
        ;
        assert((k * 65536) / 65536 == k) by (nonlinear_arith);
    } else {
        assert(k * 65536 < 0) by (nonlinear_arith)
            requires
                k < 0,
        ;
        assert(-(k * 65536) == (-k) * 65536);
        assert(((-k) * 65536) / 65536 == -k) by (nonlinear_arith);
    }
}

/// Truncating division by a positive divisor is monotone in the dividend.
pub proof fn lemma_tdiv_mono(x: int, y: int, d: int)
    requires
        x <= y,
        d >= 1,
    ensures
        tdiv(x, d) <= tdiv(y, d),
{
    if x >= 0 {
        lemma_div_is_ordered(x, y, d);
    } else if y < 0 {
        lemma_div_is_ordered(-y, -x, d);
    } else {
        lemma_div_pos_is_pos(-x, d);
        lemma_div_pos_is_pos(y, d);
    }
}

/// Multiplying by zero gives zero in fixed point.
pub proof fn lemma_fmul_zero(a: int)
    ensures
        fmul_s(0, a) == 0,
        fmul_s(a, 0) == 0,
{
    assert(0 * a == 0) by (nonlinear_arith);
    assert(a * 0 == 0) by (nonlinear_arith);
}

/// Multiplying by one is exact in fixed point.
pub proof fn lemma_fmul_one(a: int)
    ensures
        fmul_s(a, 65536) == a,
        fmul_s(65536, a) == a,
{
    lemma_sd_multiple(a);
    assert(a * 65536 == 65536 * a) by (nonlinear_arith);
}

/// Dividing by one is exact in fixed point.
pub proof fn lemma_fdiv_one(a: int)
    ensures
        fdiv_s(a, 65536) == a,
{
    lemma_sd_multiple(a);
}

/// Widening multiplication of two `i64` values; the product always fits `i128`.
fn mul_wide(a: i64, b: i64) -> (r: i128)
    ensures
        r == a as int * b as int,
{
    proof {
        assert(i128::MIN <= a as int * b as int <= i128::MAX) by (nonlinear_arith)
            requires
                i64::MIN <= a <= i64::MAX,
                i64::MIN <= b <= i64::MAX,
        ;
    }
    (a as i128) * (b as i128)
}

/// Truncating division of an `i128` by a positive `i128`, via magnitudes.
fn div_trunc(p: i128, d: i128) -> (r: i128)
    requires
        d > 0,
        p > i128::MIN,
    ensures
        r == tdiv(p as int, d as int),
{
    if p >= 0 {
        let q: u128 = (p as u128) / (d as u128);
        proof {
            lemma_div_pos_is_pos(p as int, d as int);
            lemma_div_is_ordered(p as int, i128::MAX as int, d as int);
            lemma_div_is_ordered_by_denominator(p as int, 1, d as int);
        }
        q as i128
    } else {
        let m: i128 = -p;
        let q: u128 = (m as u128) / (d as u128);
        proof {
            lemma_div_pos_is_pos(m as int, d as int);
            lemma_div_is_ordered_by_denominator(m as int, 1, d as int);
        }
        -(q as i128)
    }
}

/// Fixed-point multiplication, rounding toward zero.
pub fn fmul(a: i64, b: i64) -> (r: i64)
    requires
        i64::MIN < fmul_s(a as int, b as int) <= i64::MAX,
    ensures
        r == fmul_s(a as int, b as int),
{
    let p: i128 = mul_wide(a, b);
    proof {
        assert(p > i128::MIN) by (nonlinear_arith)
            requires
                p == a as int * b as int,
                i64::MIN <= a <= i64::MAX,
                i64::MIN <= b <= i64::MAX,
        ;
    }
    let q: i128 = div_trunc(p, 65536);
    q as i64
}

/// Fixed-point division by a positive denominator, rounding toward zero.
pub fn fdiv(a: i64, b: i64) -> (r: i64)
    requires
        b > 0,
        i64::MIN < fdiv_s(a as int, b as int) <= i64::MAX,
    ensures
        r == fdiv_s(a as int, b as int),
{
    let p: i128 = (a as i128) * 65536;
    let q: i128 = div_trunc(p, b as i128);
    q as i64
}

/// The integer square root of a `u128`, by halving the bit width.
fn isqrt_u128(n: u128) -> (r: u128)
    ensures
        r == isqrt(n as nat),
    decreases n,
{
    if n == 0 {
        0
    } else {
        let m: u128 = isqrt_u128(n / 4);
        proof {
            lemma_isqrt_bounds((n / 4) as nat);
            assert(((n / 4) as nat) < 0x4000_0000_0000_0000_0000_0000_0000_0000);
            assert(m < 0x8000_0000_0000_0000) by (nonlinear_arith)
                requires
                    m * m <= (n / 4) as nat,
                    ((n / 4) as nat) < 0x4000_0000_0000_0000_0000_0000_0000_0000,
            ;
            assert((2 * m + 1) * (2 * m + 1) <= u128::MAX) by (nonlinear_arith)
                requires
                    m < 0x8000_0000_0000_0000,
            ;
        }
        let s: u128 = 2 * m;
        if (s + 1) * (s + 1) <= n {
            s + 1
        } else {
            s
        }
    }
}

/// The fixed-point square root of a nonnegative scalar.
pub fn fsqrt(x: i64) -> (r: i64)
    requires
        x >= 0,
    ensures
        r == fsqrt_s(x as int),
        r >= 0,
{
    let n: u128 = (x as u128) * 65536;
    let r: u128 = isqrt_u128(n);
    proof {
        lemma_isqrt_bounds(n as nat);
        assert(isqrt(n as nat) < 0x1_0000_0000_0000) by (nonlinear_arith)
            requires
                isqrt(n as nat) * isqrt(n as nat) <= n as nat,
                (n as nat) < 0x1_0000_0000_0000_0000_0000_0000,
        ;
    }
    r as i64
}

/// Clamp a scalar into `[lo, hi]`.
pub fn clamp(x: i64, lo: i64, hi: i64) -> (r: i64)
    requires
        lo <= hi,
    ensures
        r == clamp_s(x as int, lo as int, hi as int),
{
    if x < lo {
        lo
    } else if x > hi {
        hi
    } else {
        x
    }
}

} // verus!
