//! A deterministic pseudo-random generator.  Each rendering task owns its
//! own generator, seeded from its pixel coordinates, so pixels are
//! reproducible in isolation and independent under concurrency.

use vstd::prelude::*;

verus! {

use crate::fixed::{fmul_s, fmul, lemma_fmul_abs, lemma_sd_abs};
use crate::vec3::{Vec3, in_bound, len_sq_s};

/// The linear-congruential step (Knuth's MMIX multiplier and increment).
pub open spec fn next_state_s(s: int) -> int {
    (s * 6364136223846793005 + 1442695040888963407) % 0x1_0000_0000_0000_0000
}

/// The fixed-point unit draw taken from a generator state: the top sixteen
/// bits, a value in `[0, 1)`.
pub open spec fn unit_draw_s(s: int) -> int {
    s / 0x1_0000_0000_0000
}

#[derive(Clone, Copy, Debug, PartialEq, Eq, Structural)]
pub struct Rng {
    pub state: u64,
}

impl Rng {
    pub fn new(seed: u64) -> (r: Rng)
        ensures
            r.state == seed,
    {
        Rng { state: seed }
    }

    /// Advance the generator one step.
    fn step(&mut self)
        ensures
            final(self).state == next_state_s(old(self).state as int),
    {
        let wide: u128 = (self.state as u128) * 6364136223846793005u128 + 1442695040888963407u128;
        proof {
            assert((self.state as u128) * 6364136223846793005u128 <= u128::MAX
                - 1442695040888963407) by (nonlinear_arith)
                requires
                    self.state <= u64::MAX,
            ;
        }
        self.state = (wide % 0x1_0000_0000_0000_0000u128) as u64;
    }

    /// A uniform fixed-point draw in `[0, 1)`.
    pub fn random_fx(&mut self) -> (r: i64)
        ensures
            final(self).state == next_state_s(old(self).state as int),
            r == unit_draw_s(final(self).state as int),
            0 <= r < 65536,
    {
        self.step();
        let d: u64 = self.state / 0x1_0000_0000_0000;
        d as i64
    }

    /// A uniform fixed-point draw in `[min, max)`: `min + (max - min) * u`
    /// for a unit draw `u`.
    pub fn random_fx_range(&mut self, min: i64, max: i64) -> (r: i64)
        requires
            min <= max,
            -0x1000_0000 <= min,
            max <= 0x1000_0000,
        ensures
            final(self).state == next_state_s(old(self).state as int),
            r == min + fmul_s(max - min, unit_draw_s(final(self).state as int)),
            min <= r <= max,
    {
        let u = self.random_fx();
        proof {
            lemma_fmul_abs(max - min, u as int, 0x2000_0000, 65536);
            assert((max - min) * u >= 0) by (nonlinear_arith)
                requires
                    max - min >= 0,
                    u >= 0,
            ;
            assert((max - min) * u <= (max - min) * 65536) by (nonlinear_arith)
                requires
                    max - min >= 0,
                    u <= 65536,
            ;
            crate::fixed::lemma_sd_multiple(max - min);
            lemma_sd_abs((max - min) * u, (max - min) * 65536);
            vstd::arithmetic::div_mod::lemma_div_pos_is_pos((max - min) * u, 65536);
        }
        min + fmul(max - min, u)
    }

    /// A vector with each component drawn uniformly from `[min, max)`.
    pub fn random_vec_range(&mut self, min: i64, max: i64) -> (r: Vec3)
        requires
            min <= max,
            -0x1000_0000 <= min,
            max <= 0x1000_0000,
        ensures
            in_bound(r@, if -(min as int) > max as int { -(min as int) } else { max as int }),
            min <= r@.x <= max,
            min <= r@.y <= max,
            min <= r@.z <= max,
    {
        let x = self.random_fx_range(min, max);
        let y = self.random_fx_range(min, max);
        let z = self.random_fx_range(min, max);
        Vec3 { x, y, z }
    }

    /// Rejection-sample a point inside the unit sphere.  A bounded number of
    /// candidates is drawn; if every candidate misses (a vanishing-probability
    /// event), the center of the sphere is returned.
    pub fn random_in_unit_sphere(&mut self) -> (r: Vec3)
        ensures
            in_bound(r@, 65536),
            len_sq_s(r@) < 65536,
    {
        let mut tries: u32 = 0;
        while tries < 64
            invariant
                tries <= 64,
            decreases 64 - tries,
        {
            let p = self.random_vec_range(-65536, 65536);
            let ls = p.length_squared();
            if ls < 65536 {
                return p;
            }
            tries = tries + 1;
        }
        Vec3 { x: 0, y: 0, z: 0 }
    }

    /// Rejection-sample a point inside the unit disk in the x-y plane, for
    /// lens (depth-of-field) sampling.
    pub fn random_in_unit_disk(&mut self) -> (r: Vec3)
        ensures
            in_bound(r@, 65536),
            len_sq_s(r@) < 65536,
            r@.z == 0,
    {
        let mut tries: u32 = 0;
        while tries < 64
            invariant
                tries <= 64,
            decreases 64 - tries,
        {
            let x = self.random_fx_range(-65536, 65536);
            let y = self.random_fx_range(-65536, 65536);
            let p = Vec3 { x, y, z: 0 };
            let ls = p.length_squared();
            if ls < 65536 {
                return p;
            }
            tries = tries + 1;
        }
        Vec3 { x: 0, y: 0, z: 0 }
    }
}

} // verus!
