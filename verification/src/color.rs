//! Color output: averaging the accumulated per-pixel radiance, square-root
//! gamma correction, clamping, and 8-bit quantization.

use vstd::prelude::*;

verus! {

use crate::fixed::{
    sd, fmul_s, fdiv_s, fsqrt_s, clamp_s, fmul, fdiv, fsqrt, clamp, FX_ONE,
    lemma_isqrt_bounds,
};
use crate::vec3::Vec3;
use vstd::arithmetic::div_mod::lemma_div_pos_is_pos;
use vstd::arithmetic::div_mod::lemma_div_is_ordered;
use vstd::arithmetic::div_mod::lemma_div_denominator;
use vstd::arithmetic::div_mod::lemma_fundamental_div_mod;

/// A color is a vector of three fixed-point channels.
pub type Color = Vec3;

/// One channel of the final pixel value: average the accumulated sum over
/// the sample count (dividing the sum by the count directly, so a sum of
/// exactly the count averages to exactly one), gamma-correct by square
/// root, clamp just below one, and quantize to 8 bits by flooring 256
/// times the value.
pub open spec fn quantize_s(sum: int, spp: int) -> int {
    let avg = fdiv_s(sum, spp * 65536);
    let g = fsqrt_s(avg);
    let c = clamp_s(g, 0, 65535);
    sd(256 * c)
}

/// The decimal digits (as ASCII bytes) of a channel value in `[0, 999]`.
pub open spec fn digits_s(n: int) -> Seq<u8> {
    if n >= 100 {
        seq![(48 + n / 100) as u8, (48 + (n / 10) % 10) as u8, (48 + n % 10) as u8]
    } else if n >= 10 {
        seq![(48 + n / 10) as u8, (48 + n % 10) as u8]
    } else {
        seq![(48 + n) as u8]
    }
}

/// The ASCII line emitted for one pixel: the three quantized channels,
/// space-separated, newline-terminated.
pub open spec fn color_line_s(c: Vec3, spp: int) -> Seq<u8> {
    digits_s(quantize_s(c@.x, spp)) + seq![32u8] + digits_s(quantize_s(c@.y, spp)) + seq![32u8]
        + digits_s(quantize_s(c@.z, spp)) + seq![10u8]
}

/// Average, gamma-correct, clamp and quantize one accumulated channel.
pub fn quantize_channel(sum: i64, samples_per_pixel: i32) -> (q: i64)
    requires
        samples_per_pixel >= 1,
        0 <= sum <= 0x1000_0000_0000,
    ensures
        q == quantize_s(sum as int, samples_per_pixel as int),
        0 <= q <= 255,
{
    let spp_fx: i64 = (samples_per_pixel as i64) * 65536;
    proof {
        crate::fixed::lemma_fdiv_abs(sum as int, spp_fx as int, 0x1000_0000_0000);
        lemma_div_pos_is_pos(sum as int * 65536, spp_fx as int);
    }
    let avg = fdiv(sum, spp_fx);
    let g = fsqrt(avg);
    let c = clamp(g, 0, 65535);
    let prod: i64 = 256 * c;
    proof {
        lemma_div_pos_is_pos(prod as int, 65536);
        lemma_div_is_ordered(prod as int, 16776960, 65536);
        assert(sd(prod as int) == prod as int / 65536);
    }
    let q: u64 = (prod as u64) / 65536;
    q as i64
}

/// Append the decimal digits of a channel value in `[0, 255]`.
fn push_digits(out: &mut Vec<u8>, n: i64)
    requires
        0 <= n <= 255,
    ensures
        final(out)@ == old(out)@ + digits_s(n as int),
{
    let m: u64 = n as u64;
    if m >= 100 {
        out.push(48 + (m / 100) as u8);
        out.push(48 + ((m / 10) % 10) as u8);
        out.push(48 + (m % 10) as u8);
        proof {
            assert(out@ =~= old(out)@ + digits_s(n as int));
        }
    } else if m >= 10 {
        out.push(48 + (m / 10) as u8);
        out.push(48 + (m % 10) as u8);
        proof {
            assert(out@ =~= old(out)@ + digits_s(n as int));
        }
    } else {
        out.push(48 + m as u8);
        proof {
            assert(out@ =~= old(out)@ + digits_s(n as int));
        }
    }
}

/// Emit one pixel's color as an ASCII "R G B" line, averaging the
/// accumulated radiance over the sample count with square-root gamma
/// correction and an 8-bit quantization.
pub fn write_color(out: &mut Vec<u8>, pixel_color: Color, samples_per_pixel: i32)
    requires
        samples_per_pixel >= 1,
        0 <= pixel_color@.x <= 0x1000_0000_0000,
        0 <= pixel_color@.y <= 0x1000_0000_0000,
        0 <= pixel_color@.z <= 0x1000_0000_0000,
    ensures
        final(out)@ == old(out)@ + color_line_s(pixel_color, samples_per_pixel as int),
{
    let r = quantize_channel(pixel_color.x, samples_per_pixel);
    let g = quantize_channel(pixel_color.y, samples_per_pixel);
    let b = quantize_channel(pixel_color.z, samples_per_pixel);
    push_digits(out, r);
    out.push(32);
    push_digits(out, g);
    out.push(32);
    push_digits(out, b);
    out.push(10);
    proof {
        assert(out@ =~= old(out)@ + color_line_s(pixel_color, samples_per_pixel as int));
    }
}

/// Pack one pixel's quantized channels into a `0x00RRGGBB` word.
pub fn color_to_u32(color: Color, samples_per_pixel: i32) -> (r: u32)
    requires
        samples_per_pixel >= 1,
        0 <= color@.x <= 0x1000_0000_0000,
        0 <= color@.y <= 0x1000_0000_0000,
        0 <= color@.z <= 0x1000_0000_0000,
    ensures
        r == 65536 * quantize_s(color@.x, samples_per_pixel as int) + 256 * quantize_s(
            color@.y,
            samples_per_pixel as int,
        ) + quantize_s(color@.z, samples_per_pixel as int),
{
    let ir = quantize_channel(color.x, samples_per_pixel) as u32;
    let ig = quantize_channel(color.y, samples_per_pixel) as u32;
    let ib = quantize_channel(color.z, samples_per_pixel) as u32;
    proof {
        assert((ir << 16) | (ig << 8) | ib == 65536 * ir + 256 * ig + ib) by (bit_vector)
            requires
                ir < 256,
                ig < 256,
                ib < 256,
        ;
    }
    (ir << 16) | (ig << 8) | ib
}

/// Law: a raw channel sum of exactly the sample count — an averaged value
/// of one — quantizes to the maximum 8-bit channel value, for every
/// positive sample count.
pub proof fn lemma_full_brightness_quantizes_to_max(spp: int)
    requires
        spp >= 1,
    ensures
        quantize_s(spp * 65536, spp) == 255,
{
    // The averaged channel is exactly one: the sum carries the divisor as
    // a factor.
    assert(spp * 65536 > 0) by (nonlinear_arith)
        requires
            spp >= 1,
    ;
    assert((spp * 65536) * 65536 == 65536 * (spp * 65536)) by (nonlinear_arith);
    vstd::arithmetic::div_mod::lemma_div_by_multiple(65536, spp * 65536);
    let avg = fdiv_s(spp * 65536, spp * 65536);
    assert(avg == 65536);
    // The gamma root of one is one, which clamps just below one.
    assert(65536nat * 65536nat == 4294967296nat && 4294967296nat < 65537nat * 65537nat)
        by (nonlinear_arith);
    crate::fixed::lemma_isqrt_unique(4294967296nat, 65536nat);
    assert(fsqrt_s(65536) == 65536);
    let c = clamp_s(65536, 0, 65535);
    assert(c == 65535);
    // 256 * 65535 floors to exactly 255 under the scale.
    vstd::arithmetic::div_mod::lemma_fundamental_div_mod_converse(16776960, 65536, 255, 65280);
    assert(sd(256 * c) == 16776960int / 65536);
}

} // verus!
