//! Axis-aligned boxes made of six rectangles.

use vstd::prelude::*;
use crate::aarect::{AaRect, Plane};
use crate::vec3::Point3;

verus! {

/// A box between two corners. Its sides are the rectangles at the upper
/// corner (even positions) and at the lower corner (odd positions, which
/// report their faces swapped), in the planes xy, xz and yz in turn.
#[derive(Clone, Debug)]
pub struct BoxPrim {
    /// The lower corner.
    pub box_min: Point3,
    /// The upper corner.
    pub box_max: Point3,
    /// The six sides.
    pub sides: Vec<AaRect>,
}

/// The six sides of the box between `p0` and `p1`.
pub open spec fn box_sides(p0: Point3, p1: Point3, m: usize) -> Seq<AaRect> {
    seq![
        AaRect { a0: p0.0, a1: p1.0, b0: p0.1, b1: p1.1, k: p1.2, mp: m, plane: Plane::Xy },
        AaRect { a0: p0.0, a1: p1.0, b0: p0.1, b1: p1.1, k: p0.2, mp: m, plane: Plane::Xy },
        AaRect { a0: p0.0, a1: p1.0, b0: p0.2, b1: p1.2, k: p1.1, mp: m, plane: Plane::Xz },
        AaRect { a0: p0.0, a1: p1.0, b0: p0.2, b1: p1.2, k: p0.1, mp: m, plane: Plane::Xz },
        AaRect { a0: p0.1, a1: p1.1, b0: p0.2, b1: p1.2, k: p1.0, mp: m, plane: Plane::Yz },
        AaRect { a0: p0.1, a1: p1.1, b0: p0.2, b1: p1.2, k: p0.0, mp: m, plane: Plane::Yz },
    ]
}

impl BoxPrim {
    /// The box between `p0` and `p1` of material `ptr`.
    pub fn new(p0: &Point3, p1: &Point3, ptr: usize) -> (r: Self)
        ensures
            r.box_min == *p0,
            r.box_max == *p1,
            r.sides@ == box_sides(*p0, *p1, ptr),
    {
        let mut sides: Vec<AaRect> = Vec::with_capacity(6);
        sides.push(AaRect::new(p0.0, p1.0, p0.1, p1.1, p1.2, ptr, Plane::Xy));
        sides.push(AaRect::new(p0.0, p1.0, p0.1, p1.1, p0.2, ptr, Plane::Xy));
        sides.push(AaRect::new(p0.0, p1.0, p0.2, p1.2, p1.1, ptr, Plane::Xz));
        sides.push(AaRect::new(p0.0, p1.0, p0.2, p1.2, p0.1, ptr, Plane::Xz));
        sides.push(AaRect::new(p0.1, p1.1, p0.2, p1.2, p1.0, ptr, Plane::Yz));
        sides.push(AaRect::new(p0.1, p1.1, p0.2, p1.2, p0.0, ptr, Plane::Yz));
        assert(sides@ =~= box_sides(*p0, *p1, ptr));
        BoxPrim { box_min: *p0, box_max: *p1, sides }
    }
}

} // verus!
