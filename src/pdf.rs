//! Sampling densities over directions: cosine-weighted around a normal,
//! towards a known shape, and an equal mixture of two.

use vstd::prelude::*;
use crate::aarect::{AaRect, rect_hit_t, comp, axes, place};
use crate::fixed::{self, Fx, ONE, LIMIT, clamp, add_spec, sub_spec, mul_spec, div_spec, sqrt_spec};
use crate::hittable::{Hittable, Scene};
use crate::material::FRAC_1_PI;
use crate::onb::{Onb, onb_spec, local_spec};
use crate::ray::Ray;
use crate::rng;
use crate::sphere::{Sphere, PI, sphere_hit_t};
use crate::vec3::{Point3, Vec3, vsub, dot_spec, unit_spec, length_spec};

verus! {

/// The smallest ray parameter counted as a hit, so that a surface does not
/// shadow itself.
pub const T_EPSILON: Fx = 66;

/// The cosine-weighted density around the basis' `w`.
#[derive(Clone, Copy, Debug)]
pub struct CosPdf {
    /// The basis around the normal.
    pub uvw: Onb,
}

/// The density of directions from `origin` towards a shape of the scene.
#[derive(Clone, Copy, Debug, PartialEq, Eq, Structural)]
pub struct HittablePdf {
    /// Where the directions start.
    pub origin: Point3,
    /// The index of the shape in the scene.
    pub pointer: usize,
}

/// The equal mixture of two densities.
pub struct MixturePdf {
    /// The first density.
    pub p0: Box<Pdf>,
    /// The second density.
    pub p1: Box<Pdf>,
}

/// The closed set of densities.
pub enum Pdf {
    /// Cosine-weighted.
    Cosine(CosPdf),
    /// Towards a shape.
    Hittable(HittablePdf),
    /// An equal mixture.
    Mixture(MixturePdf),
}

/// The cosine density at `dir`: `max(0, cos) / pi`.
pub open spec fn cos_value_spec(uvw: Onb, dir: Vec3) -> int {
    let cosine = dot_spec(unit_spec(dir), uvw.axis[2]);
    if cosine <= 0 {
        0
    } else {
        mul_spec(cosine, FRAC_1_PI as int)
    }
}

/// The solid-angle density of directions from `o` towards a rectangle, at
/// `v`: `t^2 |v|^2 / (cos * area)`, zero when `v` misses it.
pub open spec fn rect_pdf_spec(s: AaRect, o: Point3, v: Vec3) -> int {
    match rect_hit_t(s, Ray { orig: o, dir: v, time: 0 }, T_EPSILON as int, LIMIT as int) {
        None => 0,
        Some(t) => {
            let area = mul_spec(sub_spec(s.a1 as int, s.a0 as int), sub_spec(s.b1 as int, s.b0 as int));
            let dist2 = mul_spec(mul_spec(t, t), dot_spec(v, v));
            let vk = comp(v, axes(s.plane).2);
            let len = length_spec(v);
            let cosine = if len == 0 { 0 } else { div_spec(if vk < 0 { clamp(-vk) } else { vk }, len) };
            let den = mul_spec(cosine, area);
            if den <= 0 {
                0
            } else {
                div_spec(dist2, den)
            }
        },
    }
}

/// The solid-angle density of directions from `o` towards a sphere, at `v`:
/// `1 / (2 pi (1 - cos_max))` with `cos_max = sqrt(1 - r^2 / d^2)`, zero when
/// `v` misses it.
pub open spec fn sphere_pdf_spec(s: Sphere, o: Point3, v: Vec3) -> int {
    if sphere_hit_t(s.center, s.radius as int, Ray { orig: o, dir: v, time: 0 }, T_EPSILON as int, LIMIT as int) is None {
        0
    } else {
        let oc = vsub(s.center, o);
        let d2 = dot_spec(oc, oc);
        if d2 == 0 {
            0
        } else {
            let cos_max = sqrt_spec(sub_spec(ONE as int, div_spec(mul_spec(s.radius as int, s.radius as int), d2)));
            let solid = mul_spec(2 * PI as int, sub_spec(ONE as int, cos_max));
            if solid <= 0 {
                0
            } else {
                div_spec(ONE as int, solid)
            }
        }
    }
}

/// The density of directions from `o` towards object `i` of the scene, at
/// `v`; zero for any shape but a rectangle or a sphere.
pub open spec fn shape_pdf_spec(objs: Seq<Hittable>, i: int, o: Point3, v: Vec3) -> int {
    if 0 <= i < objs.len() {
        match objs[i] {
            Hittable::Rect(s) => rect_pdf_spec(s, o, v),
            Hittable::Sphere(s) => sphere_pdf_spec(s, o, v),
            _ => 0,
        }
    } else {
        0
    }
}

/// The density a sampling strategy gives to the direction `dir`.
pub open spec fn density_spec(p: Pdf, objs: Seq<Hittable>, dir: Vec3) -> int
    decreases p,
{
    match p {
        Pdf::Cosine(c) => cos_value_spec(c.uvw, dir),
        Pdf::Hittable(h) => shape_pdf_spec(objs, h.pointer as int, h.origin, dir),
        Pdf::Mixture(m) => (density_spec(*m.p0, objs, dir) + density_spec(*m.p1, objs, dir)) / 2,
    }
}

/// The mean of two values, rounded down.
pub fn mean(a: Fx, b: Fx) -> (r: Fx)
    ensures
        r == (a + b) / 2,
{
    let s = a as i128 + b as i128;
    let q = fixed::div_floor_wide(s, 2);
    q as i64
}

/// The density from `o` towards the rectangle `s`, at `v`.
pub fn rect_pdf_value(s: &AaRect, o: &Point3, v: &Vec3) -> (r: Fx)
    ensures
        r == rect_pdf_spec(*s, *o, *v),
{
    let ray = Ray::new(*o, *v, 0);
    match s.hit(&ray, T_EPSILON, LIMIT) {
        None => 0,
        Some(rec) => {
            let t = rec.t;
            let area = fixed::mul(fixed::sub(s.a1, s.a0), fixed::sub(s.b1, s.b0));
            let dist2 = fixed::mul(fixed::mul(t, t), v.length_squared());
            let vk = match s.plane {
                crate::aarect::Plane::Xy => v.2,
                crate::aarect::Plane::Xz => v.1,
                crate::aarect::Plane::Yz => v.0,
            };
            let len = v.length();
            let cosine = if len == 0 {
                0
            } else {
                fixed::div(if vk < 0 { fixed::clamp_wide(-(vk as i128)) } else { vk }, len)
            };
            let den = fixed::mul(cosine, area);
            if den <= 0 {
                0
            } else {
                fixed::div(dist2, den)
            }
        },
    }
}

/// The density from `o` towards the sphere `s`, at `v`.
pub fn sphere_pdf_value(s: &Sphere, o: &Point3, v: &Vec3) -> (r: Fx)
    ensures
        r == sphere_pdf_spec(*s, *o, *v),
{
    let ray = Ray::new(*o, *v, 0);
    if s.hit(&ray, T_EPSILON, LIMIT).is_none() {
        return 0;
    }
    let oc = s.center.sub(o);
    let d2 = oc.length_squared();
    if d2 == 0 {
        return 0;
    }
    let cos_max = fixed::sqrt(fixed::sub(ONE, fixed::div(fixed::mul(s.radius, s.radius), d2)));
    let solid = fixed::mul(2 * PI, fixed::sub(ONE, cos_max));
    if solid <= 0 {
        0
    } else {
        fixed::div(ONE, solid)
    }
}

/// The cosine of the half-angle of the cone that a sphere of the given
/// radius fills, seen from the squared distance `d2`.
pub open spec fn cos_max_spec(radius: int, d2: int) -> int {
    sqrt_spec(sub_spec(ONE as int, div_spec(mul_spec(radius, radius), d2)))
}

/// The direction towards the sphere for the draw `f` in `[0, 1)` and the
/// unit direction `(cx, cy)` around the axis: its z component runs from 1
/// down to the cone's cosine as `f` runs from 0 to 1.
pub open spec fn to_sphere_at(radius: int, d2: int, f: int, cx: int, cy: int) -> Vec3 {
    let z = add_spec(ONE as int, mul_spec(f, sub_spec(cos_max_spec(radius, d2), ONE as int)));
    let s = sqrt_spec(sub_spec(ONE as int, mul_spec(z, z)));
    Vec3(mul_spec(cx, s) as i64, mul_spec(cy, s) as i64, z as i64)
}

/// `w` is a direction towards the sphere for some draw.
pub open spec fn to_sphere_ok(radius: int, d2: int, w: Vec3) -> bool {
    exists|f: int, cx: int, cy: int| 0 <= f < ONE && #[trigger] to_sphere_at(radius, d2, f, cx, cy) == w
}

/// A point of the unit disk lifted onto the upper hemisphere.
pub open spec fn lift_spec(d: Vec3) -> Vec3 {
    Vec3(d.0, d.1, sqrt_spec(sub_spec(ONE as int, dot_spec(d, d))) as i64)
}

/// `r` is a cosine-weighted direction around the z axis for some point of
/// the unit disk.
pub open spec fn cos_direction_ok(r: Vec3) -> bool {
    exists|d: Vec3| d.2 == 0 && dot_spec(d, d) < ONE && #[trigger] lift_spec(d) == r
}

/// `r` is a direction the cosine density around the basis' `w` may give.
pub open spec fn cos_outcome(uvw: Onb, r: Vec3) -> bool {
    exists|d: Vec3| #[trigger] cos_direction_ok(d) && r == local_spec(uvw, d.0 as int, d.1 as int, d.2 as int)
}

/// `r` is a direction towards object `i` from `o` that `Scene::random` may
/// give: towards a point of a rectangle (its lower bound on an empty span),
/// within a sphere's cone in the basis around the centre's direction, the
/// centre's direction itself from the centre, or the x axis for any other
/// object.
pub open spec fn shape_outcome(objs: Seq<Hittable>, i: int, o: Point3, r: Vec3) -> bool {
    if 0 <= i < objs.len() {
        match objs[i] {
            Hittable::Rect(s) => exists|a: int, b: int| {
                &&& (if s.a0 < s.a1 { s.a0 <= a < s.a1 } else { a == s.a0 })
                &&& (if s.b0 < s.b1 { s.b0 <= b < s.b1 } else { b == s.b0 })
                &&& r == vsub(#[trigger] place(s.plane, a, b, s.k as int), o)
            },
            Hittable::Sphere(s) => {
                let dir = vsub(s.center, o);
                let d2 = dot_spec(dir, dir);
                if d2 == 0 {
                    r == dir
                } else {
                    exists|w: Vec3| #[trigger] to_sphere_ok(s.radius as int, d2, w) && r == local_spec(onb_spec(dir), w.0 as int, w.1 as int, w.2 as int)
                }
            },
            _ => r == Vec3(ONE, 0, 0),
        }
    } else {
        r == Vec3(ONE, 0, 0)
    }
}

/// `r` is a direction that sampling from `p` may give; a mixture gives one
/// of either component.
pub open spec fn generate_ok(p: Pdf, objs: Seq<Hittable>, r: Vec3) -> bool
    decreases p,
{
    match p {
        Pdf::Cosine(c) => cos_outcome(c.uvw, r),
        Pdf::Hittable(h) => shape_outcome(objs, h.pointer as int, h.origin, r),
        Pdf::Mixture(m) => generate_ok(*m.p0, objs, r) || generate_ok(*m.p1, objs, r),
    }
}

/// A direction around the z axis towards a sphere of the given radius whose
/// centre lies at the given squared distance, uniform over the cone it fills.
pub fn random_to_sphere(rng: &mut rand_chacha::ChaCha8Rng, radius: Fx, distance_squared: Fx) -> (r: Vec3)
    requires
        distance_squared != 0,
    ensures
        to_sphere_ok(radius as int, distance_squared as int, r),
{
    let r2 = rng::random_fraction(rng);
    let cos_max = fixed::sqrt(fixed::sub(ONE, fixed::div(fixed::mul(radius, radius), distance_squared)));
    let z = fixed::add(ONE, fixed::mul(r2, fixed::sub(cos_max, ONE)));
    let around = Vec3::random_in_unit_circle(rng);
    let len = around.length();
    let (cx, cy) = if len == 0 {
        (ONE, 0)
    } else {
        (fixed::div(around.0, len), fixed::div(around.1, len))
    };
    let s = fixed::sqrt(fixed::sub(ONE, fixed::mul(z, z)));
    let w = Vec3(fixed::mul(cx, s), fixed::mul(cy, s), z);
    proof {
        assert(to_sphere_at(radius as int, distance_squared as int, r2 as int, cx as int, cy as int) == w);
    }
    w
}

impl CosPdf {
    /// A cosine-weighted direction around the z axis: a point drawn uniformly in
    /// the unit disk, lifted onto the hemisphere.
    pub fn random_cosine_direction(rng: &mut rand_chacha::ChaCha8Rng) -> (r: Vec3)
        ensures
            cos_direction_ok(r),
            r.2 >= 0,
    {
        let d = Vec3::random_in_unit_circle(rng);
        let z = fixed::sqrt(fixed::sub(ONE, d.length_squared()));
        let r = Vec3(d.0, d.1, z);
        assert(lift_spec(d) == r);
        r
    }

    /// The cosine density around `w`.
    pub fn new(w: &Vec3) -> (r: Self)
        ensures
            r == (CosPdf { uvw: onb_spec(*w) }),
    {
        CosPdf { uvw: Onb::build_from_w(w) }
    }

    /// The density at `dir`.
    pub fn value(&self, dir: &Vec3) -> (r: Fx)
        ensures
            r == cos_value_spec(self.uvw, *dir),
    {
        let cosine = dir.unit_vector().dot(&self.uvw.axis[2]);
        if cosine <= 0 {
            0
        } else {
            fixed::mul(cosine, FRAC_1_PI)
        }
    }

    /// A direction drawn from the density.
    pub fn generate(&self, rng: &mut rand_chacha::ChaCha8Rng) -> (r: Vec3)
        ensures
            cos_outcome(self.uvw, r),
    {
        let d = Self::random_cosine_direction(rng);
        let r = self.uvw.local(&d);
        assert(cos_direction_ok(d) && r == local_spec(self.uvw, d.0 as int, d.1 as int, d.2 as int));
        r
    }
}

impl HittablePdf {
    /// The density of directions from `origin` towards object `pointer`.
    pub fn new(origin: &Point3, pointer: usize) -> (r: Self)
        ensures
            r == (HittablePdf { origin: *origin, pointer }),
    {
        HittablePdf { origin: *origin, pointer }
    }
}

impl MixturePdf {
    /// The equal mixture of two densities.
    pub fn new(p0: Pdf, p1: Pdf) -> (r: Self)
        ensures
            *r.p0 == p0,
            *r.p1 == p1,
    {
        MixturePdf { p0: Box::new(p0), p1: Box::new(p1) }
    }

    /// The density at `dir`: the mean of the two components' densities.
    pub fn value(&self, scene: &Scene, dir: &Vec3) -> (r: Fx)
        ensures
            r == (density_spec(*self.p0, scene.objects@, *dir) + density_spec(*self.p1, scene.objects@, *dir)) / 2,
    {
        let a = self.p0.value(scene, dir);
        let b = self.p1.value(scene, dir);
        mean(a, b)
    }
}

impl Pdf {
    /// The density at `dir`.
    pub fn value(&self, scene: &Scene, dir: &Vec3) -> (r: Fx)
        ensures
            r == density_spec(*self, scene.objects@, *dir),
        decreases self,
    {
        match self {
            Pdf::Cosine(c) => c.value(dir),
            Pdf::Hittable(h) => scene.pdf_value(h.pointer, &h.origin, dir),
            Pdf::Mixture(m) => {
                let a = m.p0.value(scene, dir);
                let b = m.p1.value(scene, dir);
                mean(a, b)
            },
        }
    }

    /// A direction drawn from the density; a mixture draws from either
    /// component with equal chance.
    pub fn generate(&self, scene: &Scene, rng: &mut rand_chacha::ChaCha8Rng) -> (r: Vec3)
        ensures
            generate_ok(*self, scene.objects@, r),
        decreases self,
    {
        match self {
            Pdf::Cosine(c) => c.generate(rng),
            Pdf::Hittable(h) => scene.random(h.pointer, &h.origin, rng),
            Pdf::Mixture(m) => {
                if rng::random_below(rng, 2) == 0 {
                    m.p0.generate(scene, rng)
                } else {
                    m.p1.generate(scene, rng)
                }
            },
        }
    }
}

} // verus!
