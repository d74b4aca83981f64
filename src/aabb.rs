//! Axis-aligned bounding boxes.

use vstd::prelude::*;
use crate::fixed::{self, Fx, div_spec, sub_spec, min_spec, max_spec};
use crate::ray::Ray;
use crate::vec3::{Point3, Vec3};

verus! {

/// An axis-aligned box, given by its lower and upper corners.
#[derive(Clone, Copy, Debug, PartialEq, Eq, Structural)]
pub struct Aabb {
    /// The lower corner.
    pub min: Point3,
    /// The upper corner.
    pub max: Point3,
}

impl Aabb {
    /// The lower corner lies below the upper corner on every axis.
    pub open spec fn wf(self) -> bool {
        self.min.0 <= self.max.0 && self.min.1 <= self.max.1 && self.min.2 <= self.max.2
    }

    /// The point lies in the box.
    pub open spec fn contains_point(self, p: Point3) -> bool {
        &&& self.min.0 <= p.0 <= self.max.0
        &&& self.min.1 <= p.1 <= self.max.1
        &&& self.min.2 <= p.2 <= self.max.2
    }

    /// The box `inner` lies in this box.
    pub open spec fn contains_box(self, inner: Aabb) -> bool {
        &&& self.min.0 <= inner.min.0 && inner.max.0 <= self.max.0
        &&& self.min.1 <= inner.min.1 && inner.max.1 <= self.max.1
        &&& self.min.2 <= inner.min.2 && inner.max.2 <= self.max.2
    }
}

/// The smallest box holding both boxes: component-wise minimum of the lower
/// corners and maximum of the upper corners.
pub open spec fn surrounding_spec(a: Aabb, b: Aabb) -> Aabb {
    Aabb {
        min: Vec3(
            min_spec(a.min.0 as int, b.min.0 as int) as i64,
            min_spec(a.min.1 as int, b.min.1 as int) as i64,
            min_spec(a.min.2 as int, b.min.2 as int) as i64,
        ),
        max: Vec3(
            max_spec(a.max.0 as int, b.max.0 as int) as i64,
            max_spec(a.max.1 as int, b.max.1 as int) as i64,
            max_spec(a.max.2 as int, b.max.2 as int) as i64,
        ),
    }
}

/// One slab of the slab test: the interval `(tmin, tmax)` shrunk to the part
/// in which the ray lies between `lo` and `hi` on this axis, or `None` once it
/// is empty. A ray parallel to the slab keeps the interval when its origin
/// lies inside the slab.
pub open spec fn slab_spec(lo: int, hi: int, o: int, d: int, tmin: int, tmax: int) -> Option<(int, int)> {
    if d == 0 {
        if o < lo || o > hi {
            None
        } else {
            Some((tmin, tmax))
        }
    } else {
        let ta = div_spec(sub_spec(lo, o), d);
        let tb = div_spec(sub_spec(hi, o), d);
        let t0 = if d < 0 { tb } else { ta };
        let t1 = if d < 0 { ta } else { tb };
        let nmin = if t0 > tmin { t0 } else { tmin };
        let nmax = if t1 < tmax { t1 } else { tmax };
        if nmax <= nmin {
            None
        } else {
            Some((nmin, nmax))
        }
    }
}

/// The slab test over the three axes in turn.
pub open spec fn box_hit_spec(b: Aabb, r: Ray, tmin: int, tmax: int) -> bool {
    match slab_spec(b.min.0 as int, b.max.0 as int, r.orig.0 as int, r.dir.0 as int, tmin, tmax) {
        None => false,
        Some((t0, t1)) => match slab_spec(b.min.1 as int, b.max.1 as int, r.orig.1 as int, r.dir.1 as int, t0, t1) {
            None => false,
            Some((u0, u1)) => slab_spec(b.min.2 as int, b.max.2 as int, r.orig.2 as int, r.dir.2 as int, u0, u1) is Some,
        },
    }
}

/// One slab of the slab test.
fn slab(lo: Fx, hi: Fx, o: Fx, d: Fx, tmin: Fx, tmax: Fx) -> (r: Option<(Fx, Fx)>)
    ensures
        match r {
            None => slab_spec(lo as int, hi as int, o as int, d as int, tmin as int, tmax as int) is None,
            Some((a, b)) => slab_spec(lo as int, hi as int, o as int, d as int, tmin as int, tmax as int) == Some((a as int, b as int)),
        },
{
    if d == 0 {
        if o < lo || o > hi {
            None
        } else {
            Some((tmin, tmax))
        }
    } else {
        let ta = fixed::div(fixed::sub(lo, o), d);
        let tb = fixed::div(fixed::sub(hi, o), d);
        let (t0, t1) = if d < 0 { (tb, ta) } else { (ta, tb) };
        let nmin = if t0 > tmin { t0 } else { tmin };
        let nmax = if t1 < tmax { t1 } else { tmax };
        if nmax <= nmin {
            None
        } else {
            Some((nmin, nmax))
        }
    }
}

impl Aabb {
    /// A box from its two corners.
    pub fn new(a: &Point3, b: &Point3) -> (r: Self)
        ensures
            r == (Aabb { min: *a, max: *b }),
    {
        Aabb { min: *a, max: *b }
    }

    /// The lower corner.
    pub fn min(&self) -> (r: Point3)
        ensures
            r == self.min,
    {
        self.min
    }

    /// The upper corner.
    pub fn max(&self) -> (r: Point3)
        ensures
            r == self.max,
    {
        self.max
    }

    /// Whether the ray passes through the box for some parameter in
    /// `(tmin, tmax)`, by the slab test.
    pub fn hit(&self, r: &Ray, tmin: Fx, tmax: Fx) -> (res: bool)
        ensures
            res == box_hit_spec(*self, *r, tmin as int, tmax as int),
    {
        match slab(self.min.0, self.max.0, r.orig.0, r.dir.0, tmin, tmax) {
            None => false,
            Some((t0, t1)) => match slab(self.min.1, self.max.1, r.orig.1, r.dir.1, t0, t1) {
                None => false,
                Some((u0, u1)) => match slab(self.min.2, self.max.2, r.orig.2, r.dir.2, u0, u1) {
                    None => false,
                    Some(_) => true,
                },
            },
        }
    }

    /// The smallest box holding both boxes.
    pub fn surrounding_box(box0: &Self, box1: &Self) -> (r: Self)
        ensures
            r == surrounding_spec(*box0, *box1),
    {
        let a = Point3::new(
            fixed::min(box0.min.0, box1.min.0),
            fixed::min(box0.min.1, box1.min.1),
            fixed::min(box0.min.2, box1.min.2),
        );
        let b = Point3::new(
            fixed::max(box0.max.0, box1.max.0),
            fixed::max(box0.max.1, box1.max.1),
            fixed::max(box0.max.2, box1.max.2),
        );
        Aabb::new(&a, &b)
    }
}

/// The surrounding box holds both boxes, and lies in every box that holds
/// both; it is well formed when both boxes are.
pub proof fn lemma_surrounding_box_tightest(a: Aabb, b: Aabb, c: Aabb)
    ensures
        surrounding_spec(a, b).contains_box(a),
        surrounding_spec(a, b).contains_box(b),
        c.contains_box(a) && c.contains_box(b) ==> c.contains_box(surrounding_spec(a, b)),
        a.wf() && b.wf() ==> surrounding_spec(a, b).wf(),
{
}

} // verus!
