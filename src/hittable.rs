//! Hit records and the closed set of primitives a scene is made of.
//!
//! Primitives live in a [`Scene`] arena and refer to one another, and to
//! their materials, by index, so that a primitive can be shared by several
//! holders (a hierarchy leaf and a light reference, say).

use vstd::prelude::*;
use crate::aabb::{Aabb, surrounding_spec, box_hit_spec};
use crate::aarect::{AaRect, rect_box, rect_rec_spec, place};
use crate::box_prim::BoxPrim;
use crate::bvh::BvhNode;
use crate::constant_medium::{ConstantMedium, medium_span, medium_t, medium_span_spec, medium_t_spec};
use crate::fixed::{self, Fx, ONE, LIMIT, add_spec};
use crate::flip_face::FlipFace;
use crate::list::HittableList;
use crate::material::Material;
use crate::pdf::{shape_pdf_spec, shape_outcome, to_sphere_ok, rect_pdf_value, sphere_pdf_value, random_to_sphere};
use crate::onb::Onb;
use crate::ray::{Ray, at_spec};
use crate::rng;
use crate::sphere::{MovingSphere, Sphere, sphere_box, ball_hit_spec, moving_center_spec};
use crate::translate::{RotateY, Translate, turn, unturn, turn_spec, unturn_spec};
use crate::vec3::{Point3, Vec3, vadd, vsub, dot_spec, unit_spec, neg_spec, length_spec};

verus! {

/// What a successful intersection reports.
#[derive(Clone, Copy, Debug, PartialEq, Eq, Structural)]
pub struct HitRecord {
    /// The point struck.
    pub p: Point3,
    /// The surface normal, facing against the incoming ray.
    pub normal: Vec3,
    /// The index of the material struck.
    pub material: usize,
    /// The ray parameter of the hit.
    pub t: Fx,
    /// The first surface coordinate.
    pub u: Fx,
    /// The second surface coordinate.
    pub v: Fx,
    /// Whether the outward side of the surface was struck.
    pub front_face: bool,
}

/// The side struck and the normal oriented against the ray.
pub open spec fn face_spec(r: Ray, outward: Vec3) -> (bool, Vec3) {
    let front = dot_spec(r.dir, outward) < 0;
    (front, if front { unit_spec(outward) } else { neg_spec(unit_spec(outward)) })
}

/// The record of a hit at `t` on `r` at point `p`, with the normal
/// `outward` turned against the ray.
pub open spec fn rec_spec(r: Ray, t: Fx, p: Point3, outward: Vec3, u: Fx, v: Fx, material: usize) -> HitRecord {
    HitRecord { p, normal: face_spec(r, outward).1, material, t, u, v, front_face: face_spec(r, outward).0 }
}

impl HitRecord {
    /// Records which side the ray struck and orients the normal against it.
    pub fn set_face_normal(&mut self, r: &Ray, outward_normal: &Vec3)
        ensures
            (final(self).front_face, final(self).normal) == face_spec(*r, *outward_normal),
            final(self).p == old(self).p,
            final(self).t == old(self).t,
            final(self).u == old(self).u,
            final(self).v == old(self).v,
            final(self).material == old(self).material,
    {
        self.front_face = r.dir.dot(outward_normal) < 0;
        let unit = outward_normal.unit_vector();
        self.normal = if self.front_face {
            unit
        } else {
            unit.neg()
        };
    }

    /// A record of a hit at `t` on `r`, with the normal oriented against `r`.
    pub fn new(r: &Ray, t: Fx, p: Point3, outward_normal: &Vec3, u: Fx, v: Fx, material: usize) -> (rec: Self)
        ensures
            rec == rec_spec(*r, t, p, *outward_normal, u, v, material),
    {
        let mut rec = HitRecord { p, normal: *outward_normal, material, t, u, v, front_face: true };
        rec.set_face_normal(r, outward_normal);
        rec
    }
}

/// The closed set of scene objects.
pub enum Hittable {
    /// A sphere.
    Sphere(Sphere),
    /// A moving sphere.
    MovingSphere(MovingSphere),
    /// An axis-aligned rectangle.
    Rect(AaRect),
    /// An axis-aligned box.
    Boxed(BoxPrim),
    /// A volume of constant density.
    Medium(ConstantMedium),
    /// An object moved by an offset.
    Translate(Translate),
    /// An object turned about the y axis.
    RotateY(RotateY),
    /// An object with its faces swapped.
    Flip(FlipFace),
    /// A list of objects.
    List(HittableList),
    /// A node of a bounding volume hierarchy.
    Bvh(BvhNode),
}

/// The arena of a scene: its objects and its materials. Objects refer to
/// other objects only below their own index, and to materials that exist.
pub struct Scene {
    /// The objects.
    pub objects: Vec<Hittable>,
    /// The materials.
    pub materials: Vec<Material>,
}

/// Object `h`, standing at index `i`, refers only to objects below `i` and
/// to materials below `nmat`.
pub open spec fn links_ok(h: Hittable, i: int, nmat: int) -> bool {
    match h {
        Hittable::Sphere(s) => s.material < nmat,
        Hittable::MovingSphere(s) => s.material < nmat,
        Hittable::Rect(s) => s.mp < nmat,
        Hittable::Boxed(b) => forall|k: int| 0 <= k < b.sides@.len() ==> #[trigger] b.sides@[k].mp < nmat,
        Hittable::Medium(m) => m.boundary < i && m.phase_function < nmat,
        Hittable::Translate(t) => t.pointer < i,
        Hittable::RotateY(t) => t.pointer < i,
        Hittable::Flip(f) => f.pointer < i,
        Hittable::List(l) => forall|k: int| 0 <= k < l.objects@.len() ==> #[trigger] l.objects@[k] < i,
        Hittable::Bvh(n) => (n.left matches Some(c) ==> c < i) && (n.right matches Some(c) ==> c < i),
    }
}

/// The box of object `i` over the time interval `[t0, t1]`, or `None` when
/// it has none.
pub open spec fn bbox_spec(objs: Seq<Hittable>, i: int, t0: int, t1: int) -> Option<Aabb>
    decreases i, 1int, 0int,
{
    if 0 <= i < objs.len() {
        match objs[i] {
            Hittable::Sphere(s) => Some(sphere_box(s.center, s.radius as int)),
            Hittable::MovingSphere(s) => Some(surrounding_spec(
                sphere_box(moving_center_spec(s, t0), s.radius as int),
                sphere_box(moving_center_spec(s, t1), s.radius as int),
            )),
            Hittable::Rect(s) => Some(rect_box(s)),
            Hittable::Boxed(b) => Some(Aabb { min: b.box_min, max: b.box_max }),
            Hittable::Medium(m) => if m.boundary < i { bbox_spec(objs, m.boundary as int, t0, t1) } else { None },
            Hittable::Translate(t) => if t.pointer < i {
                match bbox_spec(objs, t.pointer as int, t0, t1) {
                    Some(b) => Some(Aabb { min: vadd(b.min, t.offset), max: vadd(b.max, t.offset) }),
                    None => None,
                }
            } else {
                None
            },
            Hittable::RotateY(t) => if t.has_box { Some(t.bbox) } else { None },
            Hittable::Flip(f) => if f.pointer < i { bbox_spec(objs, f.pointer as int, t0, t1) } else { None },
            Hittable::List(l) => list_box_spec(objs, l.objects@, l.objects@.len() as int, i, t0, t1),
            Hittable::Bvh(n) => Some(n.bbox),
        }
    } else {
        None
    }
}

/// The box of the first `n` objects of a list that stands at index `bound`:
/// `None` for no objects or when one of them has no box.
pub open spec fn list_box_spec(objs: Seq<Hittable>, l: Seq<usize>, n: int, bound: int, t0: int, t1: int) -> Option<Aabb>
    decreases bound, 0int, n,
{
    if n <= 0 || n > l.len() {
        None
    } else {
        let c = l[n - 1] as int;
        let b = if 0 <= c < bound { bbox_spec(objs, c, t0, t1) } else { None };
        if n == 1 {
            b
        } else {
            match (list_box_spec(objs, l, n - 1, bound, t0, t1), b) {
                (Some(x), Some(y)) => Some(surrounding_spec(x, y)),
                _ => None,
            }
        }
    }
}

/// The hit of side `k` of a box: odd sides, at the lower corner, report
/// their faces swapped.
pub open spec fn side_hit_spec(side: AaRect, k: int, r: Ray, tmin: int, tmax: int) -> Option<HitRecord> {
    match rect_rec_spec(side, r, tmin, tmax) {
        Some(rec) => Some(if k % 2 == 1 { HitRecord { front_face: !rec.front_face, ..rec } } else { rec }),
        None => None,
    }
}

/// The nearest hit among the first `n` sides of a box: each side is tried
/// up to the nearest hit found so far.
pub open spec fn sides_hit_spec(sides: Seq<AaRect>, n: int, r: Ray, tmin: int, tmax: int) -> Option<HitRecord>
    decreases n,
{
    if n <= 0 || n > sides.len() {
        None
    } else {
        let prev = sides_hit_spec(sides, n - 1, r, tmin, tmax);
        let closest = match prev {
            Some(rec) => rec.t as int,
            None => tmax,
        };
        match side_hit_spec(sides[n - 1], n - 1, r, tmin, closest) {
            Some(rec) => Some(rec),
            None => prev,
        }
    }
}

/// Object `i` and every object below it hold no medium, so that hitting it
/// draws nothing at random.
pub open spec fn medium_free(objs: Seq<Hittable>, i: int) -> bool
    decreases i, 1int, 0int,
{
    if 0 <= i < objs.len() {
        match objs[i] {
            Hittable::Medium(_) => false,
            Hittable::Translate(t) => t.pointer < i && medium_free(objs, t.pointer as int),
            Hittable::RotateY(t) => t.pointer < i && medium_free(objs, t.pointer as int),
            Hittable::Flip(f) => f.pointer < i && medium_free(objs, f.pointer as int),
            Hittable::List(l) => list_medium_free(objs, l.objects@, l.objects@.len() as int, i),
            Hittable::Bvh(n) => {
                &&& (n.left matches Some(c) ==> c < i && medium_free(objs, c as int))
                &&& (n.right matches Some(c) ==> c < i && medium_free(objs, c as int))
            },
            _ => true,
        }
    } else {
        false
    }
}

/// The first `n` objects of a list standing at index `bound` are below it
/// and hold no medium.
pub open spec fn list_medium_free(objs: Seq<Hittable>, l: Seq<usize>, n: int, bound: int) -> bool
    decreases bound, 0int, n,
{
    if n <= 0 || n > l.len() {
        n == 0
    } else {
        &&& 0 <= l[n - 1] < bound
        &&& medium_free(objs, l[n - 1] as int)
        &&& list_medium_free(objs, l, n - 1, bound)
    }
}

/// The nearest hit of `r` on object `i` with parameter in `(tmin, tmax]`,
/// for objects without a medium: leaves by their own hit; a box, a list and
/// a hierarchy node by trying each part up to the nearest hit found so far
/// (a node only when the ray passes its box); a moved or turned object by
/// hitting its object with the ray moved back and moving the record; a
/// flipped object with its faces swapped.
pub open spec fn scene_hit_spec(objs: Seq<Hittable>, i: int, r: Ray, tmin: int, tmax: int) -> Option<HitRecord>
    decreases i, 1int, 0int,
{
    if 0 <= i < objs.len() {
        match objs[i] {
            Hittable::Sphere(s) => ball_hit_spec(s.center, s.radius as int, s.material, true, r, tmin, tmax),
            Hittable::MovingSphere(s) => ball_hit_spec(moving_center_spec(s, r.time as int), s.radius as int, s.material, false, r, tmin, tmax),
            Hittable::Rect(s) => rect_rec_spec(s, r, tmin, tmax),
            Hittable::Boxed(b) => sides_hit_spec(b.sides@, b.sides@.len() as int, r, tmin, tmax),
            Hittable::Medium(_) => None,
            Hittable::Translate(t) => if t.pointer < i {
                let moved = Ray { orig: vsub(r.orig, t.offset), dir: r.dir, time: r.time };
                match scene_hit_spec(objs, t.pointer as int, moved, tmin, tmax) {
                    Some(c) => Some(HitRecord {
                        p: vadd(c.p, t.offset),
                        normal: face_spec(moved, c.normal).1,
                        front_face: face_spec(moved, c.normal).0,
                        ..c
                    }),
                    None => None,
                }
            } else {
                None
            },
            Hittable::RotateY(t) => if t.pointer < i {
                let turned = Ray {
                    orig: unturn_spec(t.sin_theta as int, t.cos_theta as int, r.orig),
                    dir: unturn_spec(t.sin_theta as int, t.cos_theta as int, r.dir),
                    time: r.time,
                };
                match scene_hit_spec(objs, t.pointer as int, turned, tmin, tmax) {
                    Some(c) => {
                        let n = turn_spec(t.sin_theta as int, t.cos_theta as int, c.normal);
                        Some(HitRecord {
                            p: turn_spec(t.sin_theta as int, t.cos_theta as int, c.p),
                            normal: face_spec(turned, n).1,
                            front_face: face_spec(turned, n).0,
                            ..c
                        })
                    },
                    None => None,
                }
            } else {
                None
            },
            Hittable::Flip(f) => if f.pointer < i {
                match scene_hit_spec(objs, f.pointer as int, r, tmin, tmax) {
                    Some(c) => Some(HitRecord { front_face: !c.front_face, ..c }),
                    None => None,
                }
            } else {
                None
            },
            Hittable::List(l) => list_hit_spec(objs, l.objects@, l.objects@.len() as int, i, r, tmin, tmax),
            Hittable::Bvh(n) => if !box_hit_spec(n.bbox, r, tmin, tmax) {
                None
            } else {
                let left = match n.left {
                    Some(c) => if c < i { scene_hit_spec(objs, c as int, r, tmin, tmax) } else { None },
                    None => None,
                };
                let closest = match left {
                    Some(rec) => rec.t as int,
                    None => tmax,
                };
                let right = match n.right {
                    Some(c) => if c < i { scene_hit_spec(objs, c as int, r, tmin, closest) } else { None },
                    None => None,
                };
                match right {
                    Some(rec) => Some(rec),
                    None => left,
                }
            },
        }
    } else {
        None
    }
}

/// The nearest hit among the first `n` objects of a list standing at index
/// `bound`: each object is tried up to the nearest hit found so far, so the
/// result is the hit of least parameter, the later object winning a tie.
pub open spec fn list_hit_spec(objs: Seq<Hittable>, l: Seq<usize>, n: int, bound: int, r: Ray, tmin: int, tmax: int) -> Option<HitRecord>
    decreases bound, 0int, n,
{
    if n <= 0 || n > l.len() {
        None
    } else {
        let prev = list_hit_spec(objs, l, n - 1, bound, r, tmin, tmax);
        let closest = match prev {
            Some(rec) => rec.t as int,
            None => tmax,
        };
        let c = l[n - 1] as int;
        let h = if 0 <= c < bound { scene_hit_spec(objs, c, r, tmin, closest) } else { None };
        match h {
            Some(rec) => Some(rec),
            None => prev,
        }
    }
}

/// The parameter of a hit, if any.
pub open spec fn hit_t(res: Option<HitRecord>) -> Option<int> {
    match res {
        Some(rec) => Some(rec.t as int),
        None => None,
    }
}

/// What `Scene::hit` may return for object `i`, `nmat` materials being in
/// the scene: a hit inside `(tmin, tmax]` with an existing material;
/// exactly `scene_hit_spec` when no medium lies below the object; for a
/// medium whose boundary holds none, a scatter or a miss as `medium_hit_ok`
/// says; for a hierarchy node, a miss when the ray misses its box or it has
/// no children.
#[verifier::opaque]
pub open spec fn hit_ok(objs: Seq<Hittable>, nmat: int, i: int, r: Ray, tmin: int, tmax: int, res: Option<HitRecord>) -> bool {
    &&& res matches Some(rec) ==> tmin < rec.t <= tmax && rec.material < nmat
    &&& medium_free(objs, i) ==> res == scene_hit_spec(objs, i, r, tmin, tmax)
    &&& match objs[i] {
        Hittable::Medium(m) => medium_free(objs, m.boundary as int) ==> medium_hit_ok(objs, m, r, tmin, tmax, res),
        Hittable::Bvh(n) => (!box_hit_spec(n.bbox, r, tmin, tmax) || (n.left is None && n.right is None)) ==> res is None,
        _ => true,
    }
}

/// What a hit on medium `m` may be, when its boundary holds no medium: none
/// when the ray misses the boundary, or crosses none of it inside
/// `(tmin, tmax]`, or has no length; else, for some draw in `(0, 1]`, a
/// scatter exactly when `medium_t_spec` gives a parameter, there, at the
/// point the ray reaches, with the medium's material.
pub open spec fn medium_hit_ok(objs: Seq<Hittable>, m: ConstantMedium, r: Ray, tmin: int, tmax: int, res: Option<HitRecord>) -> bool {
    match scene_hit_spec(objs, m.boundary as int, r, -LIMIT as int, LIMIT as int) {
        None => res is None,
        Some(rec1) => match scene_hit_spec(objs, m.boundary as int, r, add_spec(rec1.t as int, 7), LIMIT as int) {
            None => res is None,
            Some(rec2) => match medium_span_spec(rec1.t as int, rec2.t as int, tmin, tmax, length_spec(r.dir)) {
                None => res is None,
                Some((t1, t2)) => {
                    &&& exists|u: int| 0 < u <= ONE && #[trigger] medium_t_spec(t1, t2, tmin, tmax, length_spec(r.dir), m.neg_inv_density as int, u) == hit_t(res)
                    &&& res matches Some(rec) ==> rec == HitRecord { p: at_spec(r, rec.t as int), normal: Vec3(ONE, 0, 0), material: m.phase_function, t: rec.t, u: 0, v: 0, front_face: true }
                },
            },
        },
    }
}

/// A list misses exactly when each of its objects, tried over the whole
/// interval, misses.
pub proof fn lemma_list_misses(objs: Seq<Hittable>, l: Seq<usize>, n: int, bound: int, r: Ray, tmin: int, tmax: int)
    requires
        0 <= n <= l.len(),
        forall|k: int| 0 <= k < n ==> #[trigger] l[k] < bound,
    ensures
        list_hit_spec(objs, l, n, bound, r, tmin, tmax) is None
            <==> forall|k: int| 0 <= k < n ==> #[trigger] scene_hit_spec(objs, l[k] as int, r, tmin, tmax) is None,
    decreases n,
{
    if n > 0 {
        lemma_list_misses(objs, l, n - 1, bound, r, tmin, tmax);
        let prev = list_hit_spec(objs, l, n - 1, bound, r, tmin, tmax);
        let h = scene_hit_spec(objs, l[n - 1] as int, r, tmin, tmax);
        assert(l[n - 1] < bound);
        if prev is None {
            assert(list_hit_spec(objs, l, n, bound, r, tmin, tmax) == h);
            if h is None {
                assert forall|k: int| 0 <= k < n implies #[trigger] scene_hit_spec(objs, l[k] as int, r, tmin, tmax) is None by {
                    if k < n - 1 {
                        assert(scene_hit_spec(objs, l[k] as int, r, tmin, tmax) is None);
                    }
                }
            } else {
                assert(!(scene_hit_spec(objs, l[n - 1] as int, r, tmin, tmax) is None));
            }
        } else {
            assert(list_hit_spec(objs, l, n, bound, r, tmin, tmax) is Some);
            let k = choose|k: int| 0 <= k < n - 1 && !(#[trigger] scene_hit_spec(objs, l[k] as int, r, tmin, tmax) is None);
            assert(!(scene_hit_spec(objs, l[k] as int, r, tmin, tmax) is None));
        }
    }
}

/// A hierarchy node misses exactly when the ray misses its box or misses
/// both children over the whole interval.
pub proof fn lemma_bvh_misses(objs: Seq<Hittable>, i: int, n: BvhNode, r: Ray, tmin: int, tmax: int)
    requires
        0 <= i < objs.len(),
        objs[i] == Hittable::Bvh(n),
        n.left matches Some(c) ==> c < i,
        n.right matches Some(c) ==> c < i,
    ensures
        scene_hit_spec(objs, i, r, tmin, tmax) is None <==> (!box_hit_spec(n.bbox, r, tmin, tmax) || {
            &&& n.left matches Some(c) ==> scene_hit_spec(objs, c as int, r, tmin, tmax) is None
            &&& n.right matches Some(c) ==> scene_hit_spec(objs, c as int, r, tmin, tmax) is None
        }),
{
}

/// Every object of a medium-free list is below it and medium free.
proof fn lemma_list_medium_free(objs: Seq<Hittable>, l: Seq<usize>, n: int, bound: int, k: int)
    requires
        list_medium_free(objs, l, n, bound),
        0 <= k < n,
    ensures
        l[k] < bound,
        medium_free(objs, l[k] as int),
    decreases n,
{
    if k < n - 1 {
        lemma_list_medium_free(objs, l, n - 1, bound, k);
    }
}

impl Scene {
    /// Every object refers only to objects below it and to existing
    /// materials.
    pub open spec fn wf(&self) -> bool {
        forall|i: int| 0 <= i < self.objects@.len() ==> links_ok(#[trigger] self.objects@[i], i, self.materials@.len() as int)
    }

    /// An empty scene.
    pub fn new() -> (r: Self)
        ensures
            r.wf(),
            r.objects@.len() == 0,
            r.materials@.len() == 0,
    {
        Scene { objects: Vec::new(), materials: Vec::new() }
    }

    /// Adds a material and returns its index.
    pub fn add_material(&mut self, m: Material) -> (r: usize)
        requires
            old(self).wf(),
        ensures
            final(self).wf(),
            r == old(self).materials@.len(),
            final(self).materials@ == old(self).materials@.push(m),
            final(self).objects@ == old(self).objects@,
    {
        let r = self.materials.len();
        self.materials.push(m);
        proof {
            assert forall|i: int| 0 <= i < self.objects@.len() implies links_ok(#[trigger] self.objects@[i], i, self.materials@.len() as int) by {
                assert(links_ok(old(self).objects@[i], i, old(self).materials@.len() as int));
            }
        }
        r
    }

    /// Adds an object and returns its index.
    pub fn add(&mut self, h: Hittable) -> (r: usize)
        requires
            old(self).wf(),
            links_ok(h, old(self).objects@.len() as int, old(self).materials@.len() as int),
        ensures
            final(self).wf(),
            r == old(self).objects@.len(),
            final(self).objects@ == old(self).objects@.push(h),
            final(self).materials@ == old(self).materials@,
    {
        let r = self.objects.len();
        self.objects.push(h);
        proof {
            assert forall|i: int| 0 <= i < self.objects@.len() implies links_ok(#[trigger] self.objects@[i], i, self.materials@.len() as int) by {
                if i < r {
                    assert(links_ok(old(self).objects@[i], i, old(self).materials@.len() as int));
                }
            }
        }
        r
    }

    /// The solid-angle density of directions from `o` towards object `i`,
    /// at `v`; zero for objects that are not sampled as lights.
    pub fn pdf_value(&self, i: usize, o: &Point3, v: &Vec3) -> (r: Fx)
        ensures
            r == shape_pdf_spec(self.objects@, i as int, *o, *v),
    {
        if i >= self.objects.len() {
            return 0;
        }
        match &self.objects[i] {
            Hittable::Rect(s) => rect_pdf_value(s, o, v),
            Hittable::Sphere(s) => sphere_pdf_value(s, o, v),
            _ => 0,
        }
    }

    /// A direction from `o` towards object `i`: towards a uniformly drawn
    /// point of a rectangle, or within the cone a sphere fills; the x axis
    /// for objects that are not sampled as lights.
    pub fn random(&self, i: usize, o: &Point3, rng: &mut rand_chacha::ChaCha8Rng) -> (r: Vec3)
        ensures
            shape_outcome(self.objects@, i as int, *o, r),
    {
        if i >= self.objects.len() {
            return Vec3(ONE, 0, 0);
        }
        match &self.objects[i] {
            Hittable::Rect(s) => {
                let a = if s.a0 < s.a1 { rng::random_range(rng, s.a0, s.a1) } else { s.a0 };
                let b = if s.b0 < s.b1 { rng::random_range(rng, s.b0, s.b1) } else { s.b0 };
                let p = match s.plane {
                    crate::aarect::Plane::Xy => Vec3(a, b, s.k),
                    crate::aarect::Plane::Xz => Vec3(a, s.k, b),
                    crate::aarect::Plane::Yz => Vec3(s.k, a, b),
                };
                assert(p == place(s.plane, a as int, b as int, s.k as int));
                p.sub(o)
            },
            Hittable::Sphere(s) => {
                let direction = s.center.sub(o);
                let d2 = direction.length_squared();
                if d2 == 0 {
                    direction
                } else {
                    let uvw = Onb::build_from_w(&direction);
                    let w = random_to_sphere(rng, s.radius, d2);
                    let r = uvw.local(&w);
                    assert(to_sphere_ok(s.radius as int, d2 as int, w));
                    r
                }
            },
            _ => Vec3(ONE, 0, 0),
        }
    }

    /// The nearest hit of `r` on object `i` with parameter in
    /// `(t_min, t_max]`. Without a medium below the object, this is
    /// `scene_hit_spec`; a medium scatters at a depth drawn at random.
    pub fn hit(&self, i: usize, r: &Ray, t_min: Fx, t_max: Fx, rng: &mut rand_chacha::ChaCha8Rng) -> (res: Option<HitRecord>)
        requires
            self.wf(),
            i < self.objects@.len(),
        ensures
            hit_ok(self.objects@, self.materials@.len() as int, i as int, *r, t_min as int, t_max as int, res),
            res matches Some(rec) ==> t_min < rec.t <= t_max && rec.material < self.materials@.len(),
    {
        let res = self.hit_inner(i, r, t_min, t_max, rng);
        proof {
            reveal(hit_ok);
        }
        res
    }

    /// The nearest hit, with `hit_ok`'s clauses spelled out.
    #[verifier::spinoff_prover]
    #[verifier::rlimit(60)]
    fn hit_inner(&self, i: usize, r: &Ray, t_min: Fx, t_max: Fx, rng: &mut rand_chacha::ChaCha8Rng) -> (res: Option<HitRecord>)
        requires
            self.wf(),
            i < self.objects@.len(),
        ensures
            res matches Some(rec) ==> t_min < rec.t <= t_max && rec.material < self.materials@.len(),
            medium_free(self.objects@, i as int) ==> res == scene_hit_spec(self.objects@, i as int, *r, t_min as int, t_max as int),
            match self.objects@[i as int] {
                Hittable::Medium(m) => medium_free(self.objects@, m.boundary as int) ==> medium_hit_ok(self.objects@, m, *r, t_min as int, t_max as int, res),
                Hittable::Bvh(n) => (!box_hit_spec(n.bbox, *r, t_min as int, t_max as int) || (n.left is None && n.right is None)) ==> res is None,
                _ => true,
            },
        decreases i,
    {

        proof {
            assert(links_ok(self.objects@[i as int], i as int, self.materials@.len() as int));
        }
        let ghost objs = self.objects@;
        match &self.objects[i] {
            Hittable::Sphere(s) => s.hit(r, t_min, t_max),
            Hittable::MovingSphere(s) => s.hit(r, t_min, t_max),
            Hittable::Rect(s) => s.hit(r, t_min, t_max),
            Hittable::Boxed(b) => {
                let mut best: Option<HitRecord> = None;
                let mut closest = t_max;
                let mut k: usize = 0;
                while k < b.sides.len()
                    invariant
                        self.wf(),
                        i < self.objects@.len(),
                        self.objects@[i as int] == Hittable::Boxed(*b),
                        forall|q: int| 0 <= q < b.sides@.len() ==> #[trigger] b.sides@[q].mp < self.materials@.len(),
                        k <= b.sides@.len(),
                        best == sides_hit_spec(b.sides@, k as int, *r, t_min as int, t_max as int),
                        closest == (match best { Some(rec) => rec.t, None => t_max }),
                        best matches Some(rec) ==> t_min < rec.t <= t_max && rec.material < self.materials@.len(),
                    decreases b.sides@.len() - k,
                {
                    assert(b.sides@[k as int].mp < self.materials@.len());
                    match b.sides[k].hit(r, t_min, closest) {
                        Some(rec) => {
                            let mut rec = rec;
                            if k % 2 == 1 {
                                rec.front_face = !rec.front_face;
                            }
                            closest = rec.t;
                            best = Some(rec);
                        },
                        None => {},
                    }
                    k = k + 1;
                }
                best
            },
            Hittable::Medium(m) => {
                let rec1 = match self.hit_inner(m.boundary, r, -LIMIT, LIMIT, rng) {
                    Some(x) => x,
                    None => return None,
                };
                let rec2 = match self.hit_inner(m.boundary, r, fixed::add(rec1.t, 7), LIMIT, rng) {
                    Some(x) => x,
                    None => return None,
                };
                let ray_length = r.dir.length();
                let (t1, t2) = match medium_span(rec1.t, rec2.t, t_min, t_max, ray_length) {
                    Some(span) => span,
                    None => return None,
                };
                let u = rng::random_range(rng, 1, ONE + 1);
                let t = match medium_t(t1, t2, t_min, t_max, ray_length, m.neg_inv_density, u) {
                    Some(t) => t,
                    None => return None,
                };
                Some(HitRecord { p: r.at(t), normal: Vec3(ONE, 0, 0), material: m.phase_function, t, u: 0, v: 0, front_face: true })
            },
            Hittable::Translate(tr) => {
                let moved = Ray::new(r.orig.sub(&tr.offset), r.dir, r.time);
                match self.hit_inner(tr.pointer, &moved, t_min, t_max, rng) {
                    Some(rec) => {
                        let mut rec = rec;
                        rec.p = rec.p.add(&tr.offset);
                        let n = rec.normal;
                        rec.set_face_normal(&moved, &n);
                        Some(rec)
                    },
                    None => None,
                }
            },
            Hittable::RotateY(ro) => {
                let turned = Ray::new(unturn(ro.sin_theta, ro.cos_theta, &r.orig), unturn(ro.sin_theta, ro.cos_theta, &r.dir), r.time);
                match self.hit_inner(ro.pointer, &turned, t_min, t_max, rng) {
                    Some(rec) => {
                        let mut rec = rec;
                        rec.p = turn(ro.sin_theta, ro.cos_theta, &rec.p);
                        let n = turn(ro.sin_theta, ro.cos_theta, &rec.normal);
                        rec.set_face_normal(&turned, &n);
                        Some(rec)
                    },
                    None => None,
                }
            },
            Hittable::Flip(f) => match self.hit_inner(f.pointer, r, t_min, t_max, rng) {
                Some(rec) => {
                    let mut rec = rec;
                    rec.front_face = !rec.front_face;
                    Some(rec)
                },
                None => None,
            },
            Hittable::List(l) => {
                let mut best: Option<HitRecord> = None;
                let mut closest = t_max;
                let mut k: usize = 0;
                while k < l.objects.len()
                    invariant
                        self.wf(),
                        i < self.objects@.len(),
                        self.objects@ == objs,
                        objs[i as int] == Hittable::List(*l),
                        forall|q: int| 0 <= q < l.objects@.len() ==> #[trigger] l.objects@[q] < i,
                        k <= l.objects@.len(),
                        closest == (match best { Some(rec) => rec.t, None => t_max }),
                        best matches Some(rec) ==> t_min < rec.t <= t_max && rec.material < self.materials@.len(),
                        medium_free(objs, i as int) ==> best == list_hit_spec(objs, l.objects@, k as int, i as int, *r, t_min as int, t_max as int),
                    decreases l.objects@.len() - k,
                {
                    let c = l.objects[k];
                    assert(l.objects@[k as int] < i);
                    proof {
                        if medium_free(objs, i as int) {
                            lemma_list_medium_free(objs, l.objects@, l.objects@.len() as int, i as int, k as int);
                        }
                    }
                    match self.hit_inner(c, r, t_min, closest, rng) {
                        Some(rec) => {
                            closest = rec.t;
                            best = Some(rec);
                        },
                        None => {},
                    }
                    k = k + 1;
                }
                best
            },
            Hittable::Bvh(n) => {
                if !n.bbox.hit(r, t_min, t_max) {
                    return None;
                }
                let left = match n.left {
                    Some(c) => self.hit_inner(c, r, t_min, t_max, rng),
                    None => None,
                };
                let closest = match left {
                    Some(rec) => rec.t,
                    None => t_max,
                };
                let right = match n.right {
                    Some(c) => self.hit_inner(c, r, t_min, closest, rng),
                    None => None,
                };
                match right {
                    Some(rec) => Some(rec),
                    None => left,
                }
            },
        }
    }

    /// The box of object `i` over `[t0, t1]`.
    pub fn bounding_box(&self, i: usize, t0: Fx, t1: Fx) -> (r: Option<Aabb>)
        requires
            self.wf(),
            i < self.objects@.len(),
        ensures
            r == bbox_spec(self.objects@, i as int, t0 as int, t1 as int),
        decreases i,
    {
        proof {
            assert(links_ok(self.objects@[i as int], i as int, self.materials@.len() as int));
        }
        match &self.objects[i] {
            Hittable::Sphere(s) => Some(s.bounding_box()),
            Hittable::MovingSphere(s) => Some(s.bounding_box(t0, t1)),
            Hittable::Rect(s) => Some(s.bounding_box()),
            Hittable::Boxed(b) => Some(Aabb::new(&b.box_min, &b.box_max)),
            Hittable::Medium(m) => self.bounding_box(m.boundary, t0, t1),
            Hittable::Translate(t) => match self.bounding_box(t.pointer, t0, t1) {
                Some(b) => Some(Aabb::new(&b.min.add(&t.offset), &b.max.add(&t.offset))),
                None => None,
            },
            Hittable::RotateY(t) => if t.has_box { Some(t.bbox) } else { None },
            Hittable::Flip(f) => self.bounding_box(f.pointer, t0, t1),
            Hittable::List(l) => {
                let mut acc: Option<Aabb> = None;
                let mut k: usize = 0;
                while k < l.objects.len()
                    invariant
                        self.wf(),
                        i < self.objects@.len(),
                        self.objects@[i as int] == Hittable::List(*l),
                        k <= l.objects@.len(),
                        forall|q: int| 0 <= q < l.objects@.len() ==> #[trigger] l.objects@[q] < i,
                        acc == list_box_spec(self.objects@, l.objects@, k as int, i as int, t0 as int, t1 as int),
                    decreases l.objects@.len() - k,
                {
                    let c = l.objects[k];
                    assert(l.objects@[k as int] < i);
                    reveal(hit_ok);
                    let b = self.bounding_box(c, t0, t1);
                    acc = if k == 0 {
                        b
                    } else {
                        match (acc, b) {
                            (Some(x), Some(y)) => Some(Aabb::surrounding_box(&x, &y)),
                            _ => None,
                        }
                    };
                    k = k + 1;
                }
                acc
            },
            Hittable::Bvh(n) => Some(n.bbox),
        }
    }
}

} // verus!
