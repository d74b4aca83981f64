//! Objects moved by an offset or turned about the y axis.

use vstd::prelude::*;
use crate::aabb::{Aabb, surrounding_spec};
use crate::fixed::{self, Fx, add_spec, sub_spec, mul_spec};
use crate::hittable::{Scene, bbox_spec};
use crate::vec3::{Point3, Vec3};

verus! {

/// Object `pointer` moved by `offset`.
#[derive(Clone, Copy, Debug, PartialEq, Eq, Structural)]
pub struct Translate {
    /// The index of the moved object.
    pub pointer: usize,
    /// The offset.
    pub offset: Vec3,
}

/// Object `pointer` turned about the y axis by the angle whose sine and
/// cosine are given.
#[derive(Clone, Copy, Debug, PartialEq, Eq, Structural)]
pub struct RotateY {
    /// The index of the turned object.
    pub pointer: usize,
    /// The sine of the angle.
    pub sin_theta: Fx,
    /// The cosine of the angle.
    pub cos_theta: Fx,
    /// Whether the turned object has a box.
    pub has_box: bool,
    /// The box of the turned object.
    pub bbox: Aabb,
}

impl Translate {
    /// Object `pointer` moved by `offset`.
    pub fn new(pointer: usize, offset: Vec3) -> (r: Self)
        ensures
            r == (Translate { pointer, offset }),
    {
        Translate { pointer, offset }
    }
}

/// A point turned about the y axis: `x' = cos x + sin z`, `z' = cos z - sin x`.
pub open spec fn turn_spec(sin: int, cos: int, p: Point3) -> Point3 {
    Vec3(
        add_spec(mul_spec(cos, p.0 as int), mul_spec(sin, p.2 as int)) as i64,
        p.1,
        sub_spec(mul_spec(cos, p.2 as int), mul_spec(sin, p.0 as int)) as i64,
    )
}

/// A point turned back about the y axis: `x' = cos x - sin z`,
/// `z' = sin x + cos z`.
pub open spec fn unturn_spec(sin: int, cos: int, p: Point3) -> Point3 {
    Vec3(
        sub_spec(mul_spec(cos, p.0 as int), mul_spec(sin, p.2 as int)) as i64,
        p.1,
        add_spec(mul_spec(sin, p.0 as int), mul_spec(cos, p.2 as int)) as i64,
    )
}

/// A corner of a box: the upper bound on each axis whose flag is set.
pub open spec fn corner(b: Aabb, i: bool, j: bool, k: bool) -> Point3 {
    Vec3(if i { b.max.0 } else { b.min.0 }, if j { b.max.1 } else { b.min.1 }, if k { b.max.2 } else { b.min.2 })
}

/// The box of a single point.
pub open spec fn point_box(p: Point3) -> Aabb {
    Aabb { min: p, max: p }
}

/// A point turned about the y axis.
pub fn turn(sin: Fx, cos: Fx, p: &Point3) -> (r: Point3)
    ensures
        r == turn_spec(sin as int, cos as int, *p),
{
    Vec3(
        fixed::add(fixed::mul(cos, p.0), fixed::mul(sin, p.2)),
        p.1,
        fixed::sub(fixed::mul(cos, p.2), fixed::mul(sin, p.0)),
    )
}

/// A point turned back about the y axis.
pub fn unturn(sin: Fx, cos: Fx, p: &Point3) -> (r: Point3)
    ensures
        r == unturn_spec(sin as int, cos as int, *p),
{
    Vec3(
        fixed::sub(fixed::mul(cos, p.0), fixed::mul(sin, p.2)),
        p.1,
        fixed::add(fixed::mul(sin, p.0), fixed::mul(cos, p.2)),
    )
}

/// The box `b` grown to hold the point `p`.
fn extend(b: &Aabb, p: &Point3) -> (r: Aabb)
    ensures
        r == surrounding_spec(*b, point_box(*p)),
{
    Aabb::surrounding_box(b, &Aabb::new(p, p))
}

/// The box of the eight corners of `b` turned about the y axis.
pub open spec fn turned_box_spec(sin: int, cos: int, b: Aabb) -> Aabb {
    let c = |i: bool, j: bool, k: bool| point_box(turn_spec(sin, cos, corner(b, i, j, k)));
    surrounding_spec(surrounding_spec(surrounding_spec(surrounding_spec(surrounding_spec(surrounding_spec(surrounding_spec(
        c(false, false, false), c(false, false, true)), c(false, true, false)), c(false, true, true)),
        c(true, false, false)), c(true, false, true)), c(true, true, false)), c(true, true, true))
}

impl RotateY {
    /// Object `pointer` of the scene turned about the y axis by the angle
    /// whose sine and cosine are given; its box, over `[t_min, t_max]`, is
    /// that of the turned corners of the object's box.
    pub fn new(scene: &Scene, pointer: usize, sin_theta: Fx, cos_theta: Fx, t_min: Fx, t_max: Fx) -> (r: Self)
        requires
            scene.wf(),
            pointer < scene.objects@.len(),
        ensures
            r.pointer == pointer,
            r.sin_theta == sin_theta,
            r.cos_theta == cos_theta,
            r.has_box == bbox_spec(scene.objects@, pointer as int, t_min as int, t_max as int) is Some,
            bbox_spec(scene.objects@, pointer as int, t_min as int, t_max as int) matches Some(b)
                ==> r.bbox == turned_box_spec(sin_theta as int, cos_theta as int, b),
    {
        match scene.bounding_box(pointer, t_min, t_max) {
            Some(b) => RotateY { pointer, sin_theta, cos_theta, has_box: true, bbox: Self::turned_box(sin_theta, cos_theta, &b) },
            None => RotateY {
                pointer,
                sin_theta,
                cos_theta,
                has_box: false,
                bbox: Aabb { min: Vec3(0, 0, 0), max: Vec3(0, 0, 0) },
            },
        }
    }

    /// The box of the eight corners of `b` turned about the y axis.
    pub fn turned_box(sin: Fx, cos: Fx, b: &Aabb) -> (r: Aabb)
        ensures
            r == turned_box_spec(sin as int, cos as int, *b),
    {
        let mut acc = {
            let p = turn(sin, cos, &Vec3(b.min.0, b.min.1, b.min.2));
            Aabb::new(&p, &p)
        };
        acc = extend(&acc, &turn(sin, cos, &Vec3(b.min.0, b.min.1, b.max.2)));
        acc = extend(&acc, &turn(sin, cos, &Vec3(b.min.0, b.max.1, b.min.2)));
        acc = extend(&acc, &turn(sin, cos, &Vec3(b.min.0, b.max.1, b.max.2)));
        acc = extend(&acc, &turn(sin, cos, &Vec3(b.max.0, b.min.1, b.min.2)));
        acc = extend(&acc, &turn(sin, cos, &Vec3(b.max.0, b.min.1, b.max.2)));
        acc = extend(&acc, &turn(sin, cos, &Vec3(b.max.0, b.max.1, b.min.2)));
        acc = extend(&acc, &turn(sin, cos, &Vec3(b.max.0, b.max.1, b.max.2)));
        acc
    }
}

} // verus!
