//! Orthonormal bases, which carry directions sampled around the z axis over
//! to directions around a given normal.

use vstd::prelude::*;
use crate::fixed::{Fx, ONE};
use crate::vec3::{Vec3, vadd, vscale, unit_spec, cross_spec};

verus! {

/// Three mutually perpendicular unit vectors `u`, `v`, `w`.
#[derive(Clone, Copy, Debug)]
pub struct Onb {
    /// The vectors `u`, `v` and `w`, in that order.
    pub axis: [Vec3; 3],
}

/// The helper axis crossed with `w`: the y axis when `w` is close to the x
/// axis (`|w.x| > 0.9`), else the x axis.
pub open spec fn helper_axis(w: Vec3) -> Vec3 {
    if w.0 > 58982 || w.0 < -58982 {
        Vec3(0, ONE, 0)
    } else {
        Vec3(ONE, 0, 0)
    }
}

/// The basis built around `n`: `w` is `n` made unit, `v` is `w x a` made unit
/// for the helper axis `a`, and `u` is `w x v`.
pub open spec fn onb_spec(n: Vec3) -> Onb {
    let w = unit_spec(n);
    let v = unit_spec(cross_spec(w, helper_axis(w)));
    let u = cross_spec(w, v);
    Onb { axis: [u, v, w] }
}

/// `a u + b v + c w`.
pub open spec fn local_spec(o: Onb, a: int, b: int, c: int) -> Vec3 {
    vadd(vadd(vscale(o.axis[0], a), vscale(o.axis[1], b)), vscale(o.axis[2], c))
}

impl Onb {
    /// The basis around the normal `n`.
    pub fn build_from_w(n: &Vec3) -> (r: Self)
        ensures
            r == onb_spec(*n),
    {
        let w = n.unit_vector();
        let a = if w.0 > 58982 || w.0 < -58982 {
            Vec3(0, ONE, 0)
        } else {
            Vec3(ONE, 0, 0)
        };
        let v = w.cross(&a).unit_vector();
        let u = w.cross(&v);
        Onb { axis: [u, v, w] }
    }

    /// The vector `u`.
    pub fn u(&self) -> (r: Vec3)
        ensures
            r == self.axis[0],
    {
        self.axis[0]
    }

    /// The vector `v`.
    pub fn v(&self) -> (r: Vec3)
        ensures
            r == self.axis[1],
    {
        self.axis[1]
    }

    /// The vector `w`.
    pub fn w(&self) -> (r: Vec3)
        ensures
            r == self.axis[2],
    {
        self.axis[2]
    }

    /// The local vector `a` in world space: `a.x u + a.y v + a.z w`.
    pub fn local(&self, a: &Vec3) -> (r: Vec3)
        ensures
            r == local_spec(*self, a.0 as int, a.1 as int, a.2 as int),
    {
        self.local_from(a.0, a.1, a.2)
    }

    /// `a u + b v + c w`.
    pub fn local_from(&self, a: Fx, b: Fx, c: Fx) -> (r: Vec3)
        ensures
            r == local_spec(*self, a as int, b as int, c as int),
    {
        self.axis[0].scale(a).add(&self.axis[1].scale(b)).add(&self.axis[2].scale(c))
    }
}

} // verus!
