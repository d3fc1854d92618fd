//! The scene aggregate: a list of spheres sharing a material arena, with
//! the nearest-hit reduction over all members.

use vstd::prelude::*;

verus! {

use crate::hittable::{HitRecord, HR3, wf_hr};
use crate::material::{Material, wf_material};
use crate::ray::{Ray, wf_ray};
use crate::sphere::{Sphere, wf_sphere, sphere_hit_s, lemma_sphere_hit_narrow};

/// A scene fit for tracing: every sphere is well-formed and refers to a
/// material present in the arena, and every material is well-formed.
pub open spec fn wf_list(l: HittableList) -> bool {
    &&& forall|i: int|
        0 <= i < l.objects@.len() ==> wf_sphere(#[trigger] l.objects@[i]) && l.objects@[i].mat
            < l.materials@.len()
    &&& forall|j: int| 0 <= j < l.materials@.len() ==> wf_material(#[trigger] l.materials@[j])
}

/// The view of an optional hit record.
pub open spec fn hit_view(o: Option<HitRecord>) -> Option<HR3> {
    match o {
        Option::None => Option::None,
        Option::Some(h) => Option::Some(h@),
    }
}

/// The nearest-hit fold from member `i` on, with the best hit so far:
/// each member is tested against `(t_min, cur_max)`, and a hit narrows
/// `cur_max` to its `t`, so the result is the hit with the smallest `t`.
pub open spec fn list_hit_from(
    objs: Seq<Sphere>,
    i: int,
    r: Ray,
    t_min: int,
    cur_max: int,
    best: Option<HR3>,
) -> Option<HR3>
    decreases objs.len() - i,
{
    if i < 0 || i >= objs.len() {
        best
    } else {
        match sphere_hit_s(objs[i], r, t_min, cur_max) {
            Option::Some(h) => list_hit_from(objs, i + 1, r, t_min, h.t, Option::Some(h)),
            Option::None => list_hit_from(objs, i + 1, r, t_min, cur_max, best),
        }
    }
}

/// The scene intersection: the member hit with the smallest `t` in
/// `(t_min, t_max)`, if any.
pub open spec fn list_hit_s(l: HittableList, r: Ray, t_min: int, t_max: int) -> Option<HR3> {
    list_hit_from(l.objects@, 0, r, t_min, t_max, Option::None)
}

/// A hit reported by a sphere lies strictly inside the query window.
proof fn lemma_sphere_hit_in_window(s: Sphere, r: Ray, t_min: int, t_max: int)
    ensures
        match sphere_hit_s(s, r, t_min, t_max) {
            Option::Some(h) => t_min < h.t < t_max,
            Option::None => true,
        },
{
}

/// The fold's result never reports a hit past the current cutoff, and
/// reports nothing only when it started with nothing.
proof fn lemma_list_hit_from_bound(
    objs: Seq<Sphere>,
    i: int,
    r: Ray,
    t_min: int,
    cur: int,
    best: Option<HR3>,
)
    requires
        match best {
            Option::Some(b) => b.t <= cur,
            Option::None => true,
        },
    ensures
        match list_hit_from(objs, i, r, t_min, cur, best) {
            Option::Some(h) => h.t <= cur,
            Option::None => best is None,
        },
    decreases objs.len() - i,
{
    if 0 <= i < objs.len() {
        lemma_sphere_hit_in_window(objs[i], r, t_min, cur);
        match sphere_hit_s(objs[i], r, t_min, cur) {
            Option::Some(h) => {
                lemma_list_hit_from_bound(objs, i + 1, r, t_min, h.t, Option::Some(h));
            },
            Option::None => {
                lemma_list_hit_from_bound(objs, i + 1, r, t_min, cur, best);
            },
        }
    }
}

/// The heart of the nearest-hit argument: along the fold, any member's own
/// hit over the full window comes no earlier than the fold's result.
proof fn lemma_list_hit_from_nearest(
    objs: Seq<Sphere>,
    i: int,
    r: Ray,
    t_min: int,
    cur: int,
    best: Option<HR3>,
    t_full: int,
    k: int,
)
    requires
        0 <= i <= k < objs.len(),
        cur <= t_full,
        match best {
            Option::Some(b) => b.t == cur,
            Option::None => cur == t_full,
        },
    ensures
        match sphere_hit_s(objs[k], r, t_min, t_full) {
            Option::Some(g) => match list_hit_from(objs, i, r, t_min, cur, best) {
                Option::Some(h) => h.t <= g.t,
                Option::None => false,
            },
            Option::None => true,
        },
    decreases k - i,
{
    lemma_sphere_hit_in_window(objs[i], r, t_min, cur);
    match sphere_hit_s(objs[i], r, t_min, cur) {
        Option::Some(h) => {
            if i == k {
                lemma_sphere_hit_narrow(objs[k], r, t_min, cur, t_full);
                lemma_list_hit_from_bound(objs, i + 1, r, t_min, h.t, Option::Some(h));
            } else {
                lemma_list_hit_from_nearest(
                    objs,
                    i + 1,
                    r,
                    t_min,
                    h.t,
                    Option::Some(h),
                    t_full,
                    k,
                );
            }
        },
        Option::None => {
            if i == k {
                lemma_sphere_hit_narrow(objs[k], r, t_min, cur, t_full);
                match best {
                    Option::Some(b) => {
                        lemma_list_hit_from_bound(objs, i + 1, r, t_min, cur, best);
                    },
                    Option::None => {
                        // The window has not been narrowed yet, so the
                        // narrow and full queries coincide.
                    },
                }
            } else {
                lemma_list_hit_from_nearest(objs, i + 1, r, t_min, cur, best, t_full, k);
            }
        },
    }
}

/// Law: the scene intersection is the nearest-hit reduction over the
/// members: when any member hits within the window, the scene reports a
/// hit, and no member's own hit over the same window comes earlier.
/// Insertion order therefore cannot change which `t` wins.
pub proof fn lemma_list_hit_is_nearest(
    l: HittableList,
    r: Ray,
    t_min: int,
    t_max: int,
    k: int,
)
    requires
        0 <= k < l.objects@.len(),
    ensures
        match sphere_hit_s(l.objects@[k], r, t_min, t_max) {
            Option::Some(g) => match list_hit_s(l, r, t_min, t_max) {
                Option::Some(h) => h.t <= g.t,
                Option::None => false,
            },
            Option::None => true,
        },
{
    lemma_list_hit_from_nearest(l.objects@, 0, r, t_min, t_max, Option::None, t_max, k);
}

/// The surfaces of a scene together with the material arena they index.
pub struct HittableList {
    pub objects: Vec<Sphere>,
    pub materials: Vec<Material>,
}

impl HittableList {
    /// An empty scene.
    pub fn new() -> (l: HittableList)
        ensures
            l.objects@.len() == 0,
            l.materials@.len() == 0,
            wf_list(l),
    {
        HittableList { objects: Vec::new(), materials: Vec::new() }
    }

    /// Put a material into the arena and return its index, through which
    /// any number of surfaces may share it.
    pub fn add_material(&mut self, m: Material) -> (idx: usize)
        requires
            wf_material(m),
            old(self).materials@.len() < usize::MAX,
        ensures
            final(self).materials@ == old(self).materials@.push(m),
            final(self).objects@ == old(self).objects@,
            idx == old(self).materials@.len(),
            wf_list(*old(self)) ==> wf_list(*final(self)),
    {
        let idx = self.materials.len();
        self.materials.push(m);
        idx
    }

    /// Add a surface to the scene.
    pub fn add(&mut self, s: Sphere)
        requires
            wf_sphere(s),
            s.mat < old(self).materials@.len(),
            old(self).objects@.len() < usize::MAX,
        ensures
            final(self).objects@ == old(self).objects@.push(s),
            final(self).materials@ == old(self).materials@,
            wf_list(*old(self)) ==> wf_list(*final(self)),
    {
        self.objects.push(s);
    }

    /// The material at an arena index.
    pub fn material(&self, idx: usize) -> (m: Material)
        requires
            idx < self.materials@.len(),
        ensures
            m == self.materials@[idx as int],
    {
        self.materials[idx]
    }

    /// Test the ray against every member and keep the nearest hit within
    /// `(t_min, t_max)`; the result does not depend on insertion order
    /// beyond tie-breaking at equal `t`.
    pub fn hit(&self, r: &Ray, t_min: i64, t_max: i64) -> (res: Option<HitRecord>)
        requires
            wf_list(*self),
            wf_ray(*r),
            0 < t_min,
            t_max <= 0x4000_0000,
        ensures
            hit_view(res) == list_hit_s(*self, *r, t_min as int, t_max as int),
            match res {
                Option::None => true,
                Option::Some(h) => {
                    &&& wf_hr(h@)
                    &&& h.mat < self.materials@.len()
                    &&& t_min < h.t < t_max
                },
            },
    {
        let mut best: Option<HitRecord> = None;
        let mut closest: i64 = t_max;
        let mut i: usize = 0;
        while i < self.objects.len()
            invariant
                wf_list(*self),
                wf_ray(*r),
                0 < t_min,
                t_max <= 0x4000_0000,
                i <= self.objects@.len(),
                closest <= t_max,
                list_hit_s(*self, *r, t_min as int, t_max as int) == list_hit_from(
                    self.objects@,
                    i as int,
                    *r,
                    t_min as int,
                    closest as int,
                    hit_view(best),
                ),
                match best {
                    Option::None => closest == t_max,
                    Option::Some(h) => {
                        &&& h@.t == closest
                        &&& wf_hr(h@)
                        &&& h.mat < self.materials@.len()
                        &&& t_min < h.t < t_max
                    },
                },
            decreases self.objects@.len() - i,
        {
            let s = self.objects[i];
            match s.hit(r, t_min, closest) {
                Option::Some(h) => {
                    best = Some(h);
                    closest = h.t;
                },
                Option::None => {},
            }
            i = i + 1;
        }
        best
    }
}

} // verus!
