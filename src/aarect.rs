//! Axis-aligned rectangles.

use vstd::prelude::*;
use crate::aabb::Aabb;
use crate::fixed::{self, Fx, ONE, LIMIT, add_spec, sub_spec, mul_spec, div_spec};
use crate::hittable::{HitRecord, rec_spec};
use crate::ray::{Ray, at_spec};
use crate::vec3::Vec3;

verus! {

/// How far a rectangle's box reaches off its plane, so that no side of the
/// box has zero width.
pub const PADDING: Fx = 7;

/// The plane a rectangle lies in.
#[derive(Clone, Copy, Debug, PartialEq, Eq, Structural)]
pub enum Plane {
    /// Spans x and y at a fixed z.
    Xy,
    /// Spans x and z at a fixed y.
    Xz,
    /// Spans y and z at a fixed x.
    Yz,
}

/// A rectangle spanning `[a0, a1]` on its plane's first axis and `[b0, b1]`
/// on its second, at `k` on the remaining axis.
#[derive(Clone, Copy, Debug, PartialEq, Eq, Structural)]
pub struct AaRect {
    /// Lower bound on the first axis.
    pub a0: Fx,
    /// Upper bound on the first axis.
    pub a1: Fx,
    /// Lower bound on the second axis.
    pub b0: Fx,
    /// Upper bound on the second axis.
    pub b1: Fx,
    /// Position on the normal axis.
    pub k: Fx,
    /// The index of the material.
    pub mp: usize,
    /// The plane.
    pub plane: Plane,
}

/// The first spanned axis, the second, and the normal axis of a plane.
pub open spec fn axes(plane: Plane) -> (int, int, int) {
    match plane {
        Plane::Xy => (0, 1, 2),
        Plane::Xz => (0, 2, 1),
        Plane::Yz => (1, 2, 0),
    }
}

/// Component `i` of a vector.
pub open spec fn comp(v: Vec3, i: int) -> int {
    if i == 0 {
        v.0 as int
    } else if i == 1 {
        v.1 as int
    } else {
        v.2 as int
    }
}

/// The vector with `a` on the plane's first axis, `b` on its second and `k`
/// on its normal axis.
pub open spec fn place(plane: Plane, a: int, b: int, k: int) -> Vec3 {
    match plane {
        Plane::Xy => Vec3(a as i64, b as i64, k as i64),
        Plane::Xz => Vec3(a as i64, k as i64, b as i64),
        Plane::Yz => Vec3(k as i64, a as i64, b as i64),
    }
}

/// The ray parameter at which the ray crosses the rectangle's plane, when it
/// does so inside `(tmin, tmax]` and within the rectangle's bounds.
pub open spec fn rect_hit_t(s: AaRect, r: Ray, tmin: int, tmax: int) -> Option<int> {
    let (ia, ib, ik) = axes(s.plane);
    let dk = comp(r.dir, ik);
    if dk == 0 {
        None
    } else {
        let t = div_spec(sub_spec(s.k as int, comp(r.orig, ik)), dk);
        let x = add_spec(comp(r.orig, ia), mul_spec(t, comp(r.dir, ia)));
        let y = add_spec(comp(r.orig, ib), mul_spec(t, comp(r.dir, ib)));
        if t <= tmin || t > tmax || x < s.a0 || x > s.a1 || y < s.b0 || y > s.b1 {
            None
        } else {
            Some(t)
        }
    }
}

/// The fraction of the way `x` lies from `lo` to `hi`; zero for an empty span.
pub open spec fn fraction_spec(x: int, lo: int, hi: int) -> int {
    if sub_spec(hi, lo) == 0 {
        0
    } else {
        div_spec(sub_spec(x, lo), sub_spec(hi, lo))
    }
}

/// The record of a ray's hit on a rectangle: at the parameter `rect_hit_t`
/// gives, at the point the ray reaches there, with the surface
/// coordinates the fractions of the rectangle's two spans and the unit
/// normal of the plane turned against the ray.
pub open spec fn rect_rec_spec(s: AaRect, r: Ray, tmin: int, tmax: int) -> Option<HitRecord> {
    match rect_hit_t(s, r, tmin, tmax) {
        None => None,
        Some(t) => {
            let (ia, ib, ik) = axes(s.plane);
            let x = add_spec(comp(r.orig, ia), mul_spec(t, comp(r.dir, ia)));
            let y = add_spec(comp(r.orig, ib), mul_spec(t, comp(r.dir, ib)));
            Some(rec_spec(
                r,
                t as i64,
                at_spec(r, t),
                place(s.plane, 0, 0, ONE as int),
                fraction_spec(x, s.a0 as int, s.a1 as int) as i64,
                fraction_spec(y, s.b0 as int, s.b1 as int) as i64,
                s.mp,
            ))
        },
    }
}

/// The rectangle's box, padded off its plane.
pub open spec fn rect_box(s: AaRect) -> Aabb {
    Aabb {
        min: place(s.plane, s.a0 as int, s.b0 as int, sub_spec(s.k as int, PADDING as int)),
        max: place(s.plane, s.a1 as int, s.b1 as int, add_spec(s.k as int, PADDING as int)),
    }
}

/// Component `i` of a vector.
fn get(v: &Vec3, i: u8) -> (r: Fx)
    requires
        i < 3,
    ensures
        r == comp(*v, i as int),
{
    if i == 0 {
        v.0
    } else if i == 1 {
        v.1
    } else {
        v.2
    }
}

/// The spanned axes and the normal axis of a plane.
fn plane_axes(plane: Plane) -> (r: (u8, u8, u8))
    ensures
        (r.0 as int, r.1 as int, r.2 as int) == axes(plane),
{
    match plane {
        Plane::Xy => (0, 1, 2),
        Plane::Xz => (0, 2, 1),
        Plane::Yz => (1, 2, 0),
    }
}

/// The vector with `a`, `b` on the plane's axes and `k` on its normal axis.
fn place_exec(plane: Plane, a: Fx, b: Fx, k: Fx) -> (r: Vec3)
    ensures
        r == place(plane, a as int, b as int, k as int),
{
    match plane {
        Plane::Xy => Vec3(a, b, k),
        Plane::Xz => Vec3(a, k, b),
        Plane::Yz => Vec3(k, a, b),
    }
}

/// The fraction of the way `x` lies from `lo` to `hi`; zero for an empty span.
fn fraction(x: Fx, lo: Fx, hi: Fx) -> (r: Fx)
    ensures
        r == fraction_spec(x as int, lo as int, hi as int),
{
    let span = fixed::sub(hi, lo);
    if span == 0 {
        0
    } else {
        fixed::div(fixed::sub(x, lo), span)
    }
}

impl AaRect {
    /// A rectangle.
    pub fn new(a0: Fx, a1: Fx, b0: Fx, b1: Fx, k: Fx, mp: usize, plane: Plane) -> (r: Self)
        ensures
            r == (AaRect { a0, a1, b0, b1, k, mp, plane }),
    {
        AaRect { a0, a1, b0, b1, k, mp, plane }
    }

    /// The hit of `r` on the rectangle with parameter in `(t_min, t_max]`.
    /// The hit point is the ray's point there; it lies within the
    /// rectangle's bounds on the two axes of its plane.
    pub fn hit(&self, r: &Ray, t_min: Fx, t_max: Fx) -> (res: Option<HitRecord>)
        ensures
            res == rect_rec_spec(*self, *r, t_min as int, t_max as int),
            match res {
                None => rect_hit_t(*self, *r, t_min as int, t_max as int) is None,
                Some(rec) => {
                    &&& rect_hit_t(*self, *r, t_min as int, t_max as int) == Some(rec.t as int)
                    &&& rec.material == self.mp
                    &&& t_min < rec.t <= t_max
                    &&& self.a0 <= comp(rec.p, axes(self.plane).0) <= self.a1
                    &&& self.b0 <= comp(rec.p, axes(self.plane).1) <= self.b1
                },
            },
    {
        let (ia, ib, ik) = plane_axes(self.plane);
        let dk = get(&r.dir, ik);
        if dk == 0 {
            return None;
        }
        let t = fixed::div(fixed::sub(self.k, get(&r.orig, ik)), dk);
        let x = fixed::add(get(&r.orig, ia), fixed::mul(t, get(&r.dir, ia)));
        let y = fixed::add(get(&r.orig, ib), fixed::mul(t, get(&r.dir, ib)));
        if t <= t_min || t > t_max || x < self.a0 || x > self.a1 || y < self.b0 || y > self.b1 {
            return None;
        }
        let u = fraction(x, self.a0, self.a1);
        let v = fraction(y, self.b0, self.b1);
        let p = r.at(t);
        proof {
            let ti = t as int;
            assert(ti * r.dir.0 == r.dir.0 * ti && ti * r.dir.1 == r.dir.1 * ti && ti * r.dir.2 == r.dir.2 * ti) by (nonlinear_arith);
            assert(comp(p, ia as int) == x);
            assert(comp(p, ib as int) == y);
        }
        let outward = place_exec(self.plane, 0, 0, ONE);
        let rec = HitRecord::new(r, t, p, &outward, u, v, self.mp);
        Some(rec)
    }

    /// The rectangle's box, padded off its plane.
    pub fn bounding_box(&self) -> (r: Aabb)
        ensures
            r == rect_box(*self),
    {
        Aabb::new(
            &place_exec(self.plane, self.a0, self.b0, fixed::sub(self.k, PADDING)),
            &place_exec(self.plane, self.a1, self.b1, fixed::add(self.k, PADDING)),
        )
    }
}

} // verus!
