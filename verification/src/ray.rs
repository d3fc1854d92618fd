//! A ray: an origin and a (not necessarily unit) direction, with the
//! parameterized point `origin + t * direction`.

use vstd::prelude::*;

verus! {

use crate::fixed::fmul_s;
use crate::vec3::{Vec3, Point3, V3, in_bound, add_s, scale_s};

/// Rays the tracer works with keep their origin within the scene volume and
/// their direction within the machine range of the intersection arithmetic.
pub open spec fn wf_ray(r: Ray) -> bool {
    &&& in_bound(r.origin@, 0x1000_0000)
    &&& in_bound(r.direction@, 0x100_0000)
}

/// The point the ray reaches at parameter `t`.
pub open spec fn at_s(r: Ray, t: int) -> V3 {
    add_s(r.origin@, scale_s(r.direction@, t))
}

#[derive(Clone, Copy, Debug, PartialEq, Eq, Structural)]
pub struct Ray {
    pub origin: Point3,
    pub direction: Vec3,
}

impl Ray {
    pub fn new(origin: Point3, direction: Vec3) -> (r: Ray)
        ensures
            r.origin == origin,
            r.direction == direction,
    {
        Ray { origin, direction }
    }

    /// The point at parameter `t` along the ray.
    pub fn at(&self, t: i64) -> (p: Point3)
        requires
            wf_ray(*self),
            -0x4000_0000 <= t <= 0x4000_0000,
        ensures
            p@ == at_s(*self, t as int),
            in_bound(p@, 0x41_1000_0000),
    {
        proof {
            crate::fixed::lemma_fmul_abs(t as int, self.direction@.x, 0x4000_0000, 0x100_0000);
            crate::fixed::lemma_fmul_abs(t as int, self.direction@.y, 0x4000_0000, 0x100_0000);
            crate::fixed::lemma_fmul_abs(t as int, self.direction@.z, 0x4000_0000, 0x100_0000);
        }
        self.origin.add(self.direction.scale(t))
    }
}

} // verus!
