//! The record of a ray-surface intersection: where it happened, the shading
//! normal, the ray parameter, which side was struck, and which material owns
//! the surface.

use vstd::prelude::*;

verus! {

use crate::vec3::{Vec3, Point3, V3, in_bound, len_sq_s};

/// The mathematical model of a hit record.
pub ghost struct HR3 {
    pub p: V3,
    pub normal: V3,
    pub t: int,
    pub front_face: bool,
    pub mat: int,
}

/// An intersection report.  `normal` always opposes the incoming ray
/// direction; `front_face` records whether the ray struck the outside.
/// `mat` indexes the material arena of the scene list.
#[derive(Clone, Copy, Debug, PartialEq, Eq, Structural)]
pub struct HitRecord {
    pub p: Point3,
    pub normal: Vec3,
    pub t: i64,
    pub front_face: bool,
    pub mat: usize,
}

impl View for HitRecord {
    type V = HR3;

    open spec fn view(&self) -> HR3 {
        HR3 {
            p: self.p@,
            normal: self.normal@,
            t: self.t as int,
            front_face: self.front_face,
            mat: self.mat as int,
        }
    }
}

/// A usable hit: the point lies in the scene volume, and the computed unit
/// normal has close-to-unit length (intersections whose rounded normal
/// degenerates are discarded by the intersection test).
pub open spec fn wf_hr(h: HR3) -> bool {
    &&& in_bound(h.p, 0x1000_0000)
    &&& in_bound(h.normal, 131072)
    &&& 32768 <= len_sq_s(h.normal) <= 131072
    &&& h.t > 0
}

} // verus!
