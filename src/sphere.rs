//! Spheres, still and moving.

use vstd::prelude::*;
use crate::aabb::Aabb;
use crate::fixed::{self, Fx, ONE, LIMIT, clamp, floor_div, add_spec, sub_spec, mul_spec, div_spec, sqrt_spec};
use crate::hittable::{HitRecord, rec_spec};
use crate::ray::{Ray, at_spec};
use crate::vec3::{Point3, Vec3, vadd, vsub, vscale, vdiv, dot_spec};

verus! {

/// Pi in fixed point.
pub const PI: Fx = 205887;

/// A sphere.
#[derive(Clone, Copy, Debug, PartialEq, Eq, Structural)]
pub struct Sphere {
    /// The centre.
    pub center: Point3,
    /// The radius.
    pub radius: Fx,
    /// The index of the material.
    pub material: usize,
}

/// A sphere whose centre moves linearly from `center0` at `time0` to
/// `center1` at `time1`.
#[derive(Clone, Copy, Debug, PartialEq, Eq, Structural)]
pub struct MovingSphere {
    /// The centre at `time0`.
    pub center0: Point3,
    /// The centre at `time1`.
    pub center1: Point3,
    /// The start of the motion.
    pub time0: Fx,
    /// The end of the motion.
    pub time1: Fx,
    /// The radius.
    pub radius: Fx,
    /// The index of the material.
    pub material: usize,
}

/// The ray parameter at which a ray meets a sphere inside `(tmin, tmax]`:
/// the root of `a t^2 + 2 half_b t + c = 0` nearer to the origin when it lies
/// in the interval, else the farther one; none when the discriminant is not
/// positive.
pub open spec fn sphere_hit_t(center: Point3, radius: int, r: Ray, tmin: int, tmax: int) -> Option<int> {
    let oc = vsub(r.orig, center);
    let a = dot_spec(r.dir, r.dir);
    let half_b = dot_spec(oc, r.dir);
    let c = sub_spec(dot_spec(oc, oc), mul_spec(radius, radius));
    let disc = sub_spec(mul_spec(half_b, half_b), mul_spec(a, c));
    if disc <= 0 || a == 0 {
        None
    } else {
        let root = sqrt_spec(disc);
        let near = div_spec(sub_spec(clamp(-half_b), root), a);
        let far = div_spec(add_spec(clamp(-half_b), root), a);
        if tmin < near && near <= tmax {
            Some(near)
        } else if tmin < far && far <= tmax {
            Some(far)
        } else {
            None
        }
    }
}

/// The quadratic of a ray against a sphere: `a = |d|^2`,
/// `half_b = (o - c) . d` and the discriminant `half_b^2 - a c` with
/// `c = |o - c|^2 - r^2`.
pub open spec fn sphere_quadratic(center: Point3, radius: int, r: Ray) -> (int, int, int) {
    let oc = vsub(r.orig, center);
    let a = dot_spec(r.dir, r.dir);
    let half_b = dot_spec(oc, r.dir);
    let c = sub_spec(dot_spec(oc, oc), mul_spec(radius, radius));
    (a, half_b, sub_spec(mul_spec(half_b, half_b), mul_spec(a, c)))
}

/// The two roots `(-half_b -+ sqrt(disc)) / a` and the parameter
/// `-half_b / a` of the point of the ray nearest the centre, before any
/// saturation of the quotients.
pub open spec fn sphere_roots_unsaturated(center: Point3, radius: int, r: Ray) -> (int, int, int) {
    let (a, half_b, disc) = sphere_quadratic(center, radius, r);
    let root = sqrt_spec(disc);
    (
        floor_div((-half_b - root) * ONE, a),
        floor_div((-half_b + root) * ONE, a),
        floor_div(-half_b * ONE, a),
    )
}

/// A ray that meets a sphere meets it at two parameters on either side of
/// the parameter nearest the centre, symmetric about it up to one unit of
/// rounding; when neither the sums nor the quotients saturate they are the
/// two roots the hit test chooses between.
pub proof fn lemma_sphere_roots_symmetric(center: Point3, radius: int, r: Ray)
    requires
        sphere_quadratic(center, radius, r).0 > 0,
        sphere_quadratic(center, radius, r).2 > 0,
        -LIMIT <= -sphere_quadratic(center, radius, r).1 - sqrt_spec(sphere_quadratic(center, radius, r).2),
        -sphere_quadratic(center, radius, r).1 + sqrt_spec(sphere_quadratic(center, radius, r).2) <= LIMIT,
        -LIMIT <= sphere_roots_unsaturated(center, radius, r).0,
        sphere_roots_unsaturated(center, radius, r).1 <= LIMIT,
    ({
        let (a, half_b, disc) = sphere_quadratic(center, radius, r);
        let (near, far, mid) = sphere_roots_unsaturated(center, radius, r);
        let root = sqrt_spec(disc);
        &&& near <= mid <= far
        &&& 2 * mid - 1 <= near + far <= 2 * mid + 1
        &&& near == div_spec(sub_spec(clamp(-half_b), root), a)
        &&& far == div_spec(add_spec(clamp(-half_b), root), a)
    }),
{
    let (a, half_b, disc) = sphere_quadratic(center, radius, r);
    let (near, far, mid) = sphere_roots_unsaturated(center, radius, r);
    let root = sqrt_spec(disc);
    let one = ONE as int;
    let x = -half_b * one;
    let rr = root * one;
    fixed::lemma_sqrt_nonneg(disc);
    assert(rr >= 0) by (nonlinear_arith)
        requires
            root >= 0,
            one > 0,
            rr == root * one,
    ;
    assert((-half_b - root) * one == x - rr && (-half_b + root) * one == x + rr) by (nonlinear_arith)
        requires
            x == -half_b * one,
            rr == root * one,
    ;
    vstd::arithmetic::div_mod::lemma_fundamental_div_mod(x - rr, a);
    vstd::arithmetic::div_mod::lemma_fundamental_div_mod(x + rr, a);
    vstd::arithmetic::div_mod::lemma_fundamental_div_mod(x, a);
    assert(near <= mid <= far && 2 * mid - 1 <= near + far <= 2 * mid + 1) by (nonlinear_arith)
        requires
            a > 0,
            rr >= 0,
            a * near + (x - rr) % a == x - rr,
            0 <= (x - rr) % a < a,
            a * far + (x + rr) % a == x + rr,
            0 <= (x + rr) % a < a,
            a * mid + x % a == x,
            0 <= x % a < a,
    ;
    assert(clamp(-half_b) == -half_b);
}

/// The box of a sphere: its centre plus and minus the radius on each axis.
pub open spec fn sphere_box(center: Point3, radius: int) -> Aabb {
    Aabb { min: vsub(center, Vec3(radius as i64, radius as i64, radius as i64)), max: vadd(center, Vec3(radius as i64, radius as i64, radius as i64)) }
}

/// `x` kept within `[lo, hi]`.
pub open spec fn keep_spec(x: int, lo: int, hi: int) -> int {
    if x < lo {
        lo
    } else if x > hi {
        hi
    } else {
        x
    }
}

/// A value kept within `[lo, hi]`.
fn keep_within(x: Fx, lo: Fx, hi: Fx) -> (r: Fx)
    requires
        lo <= hi,
    ensures
        r == keep_spec(x as int, lo as int, hi as int),
        lo <= r <= hi,
{
    if x < lo {
        lo
    } else if x > hi {
        hi
    } else {
        x
    }
}

/// The arc tangent of `y / x` for `|y| <= |x|` by the rational
/// approximation `a (pi/4 + 0.273 (1 - |a|))` of `a = y / x`, kept in
/// `[-pi/4, pi/4]`.
pub open spec fn atan_unit_spec(y: int, x: int) -> int {
    let a = keep_spec(div_spec(y, x), -ONE as int, ONE as int);
    let abs_a = if a < 0 { -a } else { a };
    let s = add_spec((PI / 4) as int, mul_spec(17891, ONE - abs_a));
    keep_spec(mul_spec(a, s), -(PI / 4) as int, (PI / 4) as int)
}

/// The angle of the point `(x, y)` from the positive x axis: the arc
/// tangent of the smaller coordinate over the larger, moved into the point's
/// quadrant; zero at the origin.
pub open spec fn atan2_spec(y: int, x: int) -> int {
    let ax = if x < 0 { clamp(-x) } else { x };
    let ay = if y < 0 { clamp(-y) } else { y };
    if x == 0 && y == 0 {
        0
    } else if ay <= ax {
        let base = atan_unit_spec(y, x);
        if x > 0 {
            base
        } else if y >= 0 {
            keep_spec(base + PI, -PI as int, PI as int)
        } else {
            keep_spec(base - PI, -PI as int, PI as int)
        }
    } else {
        let base = atan_unit_spec(x, y);
        if y > 0 {
            PI / 2 - base
        } else {
            -(PI / 2) - base
        }
    }
}

/// The surface coordinates of a point `p` of the unit sphere:
/// `u = 1 - (atan2(z, x) + pi) / 2 pi` and `v = (asin(y) + pi / 2) / pi`,
/// with `asin(y) = atan2(y, sqrt(1 - y^2))`, each kept in `[0, 1]`.
pub open spec fn sphere_uv_spec(p: Vec3) -> (int, int) {
    let phi = atan2_spec(p.2 as int, p.0 as int);
    let y = keep_spec(p.1 as int, -ONE as int, ONE as int);
    let across = sqrt_spec(sub_spec(ONE as int, mul_spec(y, y)));
    let theta = atan2_spec(y, across);
    let u = ONE - div_spec(phi + PI, 2 * PI as int);
    let v = div_spec(theta + PI / 2, PI as int);
    (keep_spec(u, 0, ONE as int), keep_spec(v, 0, ONE as int))
}

/// The arc tangent of `y / x` for `|y| <= |x|`.
fn atan_unit(y: Fx, x: Fx) -> (r: Fx)
    requires
        x != 0,
    ensures
        r == atan_unit_spec(y as int, x as int),
        -PI / 4 <= r <= PI / 4,
{
    let a = keep_within(fixed::div(y, x), -ONE, ONE);
    let abs_a = if a < 0 { -a } else { a };
    // 0.273 in fixed point
    let k = fixed::mul(17891, ONE - abs_a);
    let s = fixed::add(PI / 4, k);
    keep_within(fixed::mul(a, s), -PI / 4, PI / 4)
}

/// The angle of the point `(x, y)` from the positive x axis, in `[-pi, pi]`.
pub fn atan2(y: Fx, x: Fx) -> (r: Fx)
    ensures
        r == atan2_spec(y as int, x as int),
        -PI <= r <= PI,
{
    let ax = if x < 0 { fixed::clamp_wide(-(x as i128)) } else { x };
    let ay = if y < 0 { fixed::clamp_wide(-(y as i128)) } else { y };
    if x == 0 && y == 0 {
        0
    } else if ay <= ax {
        let base = atan_unit(y, x);
        if x > 0 {
            base
        } else if y >= 0 {
            keep_within(base + PI, -PI, PI)
        } else {
            keep_within(base - PI, -PI, PI)
        }
    } else {
        let base = atan_unit(x, y);
        if y > 0 {
            PI / 2 - base
        } else {
            -PI / 2 - base
        }
    }
}

/// The surface coordinates of a point `p` of the unit sphere, in `[0, 1]`.
pub fn get_sphere_uv(p: &Vec3) -> (r: (Fx, Fx))
    ensures
        (r.0 as int, r.1 as int) == sphere_uv_spec(*p),
        0 <= r.0 <= ONE,
        0 <= r.1 <= ONE,
{
    let phi = atan2(p.2, p.0);
    let y = keep_within(p.1, -ONE, ONE);
    let across = fixed::sqrt(fixed::sub(ONE, fixed::mul(y, y)));
    let theta = atan2(y, across);
    let u = ONE - fixed::div(phi + PI, 2 * PI);
    let v = fixed::div(theta + PI / 2, PI);
    (keep_within(u, 0, ONE), keep_within(v, 0, ONE))
}

/// The record of a ray's hit on the sphere of the given centre, radius and
/// material: at the parameter `sphere_hit_t` gives, with the outward normal
/// `(p - c) / r` turned against the ray and, when asked for, the surface
/// coordinates of that normal.
pub open spec fn ball_hit_spec(center: Point3, radius: int, material: usize, with_uv: bool, r: Ray, tmin: int, tmax: int) -> Option<HitRecord> {
    match sphere_hit_t(center, radius, r, tmin, tmax) {
        None => None,
        Some(t) => {
            let p = at_spec(r, t);
            let offset = vsub(p, center);
            let outward = if radius != 0 { vdiv(offset, radius) } else { offset };
            let uv = if with_uv && radius != 0 { sphere_uv_spec(outward) } else { (0, 0) };
            Some(rec_spec(r, t as i64, p, outward, uv.0 as i64, uv.1 as i64, material))
        },
    }
}

/// The hit of a ray on the sphere of the given centre and radius.
fn hit_ball(center: &Point3, radius: Fx, material: usize, with_uv: bool, r: &Ray, t_min: Fx, t_max: Fx) -> (res: Option<HitRecord>)
    ensures
        res == ball_hit_spec(*center, radius as int, material, with_uv, *r, t_min as int, t_max as int),
        res matches Some(rec) ==> t_min < rec.t <= t_max,
{
    let oc = r.orig.sub(center);
    let a = r.dir.length_squared();
    let half_b = oc.dot(&r.dir);
    let c = fixed::sub(oc.length_squared(), fixed::mul(radius, radius));
    let disc = fixed::sub(fixed::mul(half_b, half_b), fixed::mul(a, c));
    if disc <= 0 || a == 0 {
        return None;
    }
    let root = fixed::sqrt(disc);
    let neg_b = fixed::clamp_wide(-(half_b as i128));
    let near = fixed::div(fixed::sub(neg_b, root), a);
    let far = fixed::div(fixed::add(neg_b, root), a);
    let t = if t_min < near && near <= t_max {
        near
    } else if t_min < far && far <= t_max {
        far
    } else {
        return None;
    };
    let p = r.at(t);
    let offset = p.sub(center);
    let outward = if radius != 0 { offset.div(radius) } else { offset };
    let (u, v) = if with_uv && radius != 0 {
        get_sphere_uv(&outward)
    } else {
        (0, 0)
    };
    Some(HitRecord::new(r, t, p, &outward, u, v, material))
}

impl Sphere {
    /// A sphere from its centre, radius and material index.
    pub fn new(center: Point3, radius: Fx, material: usize) -> (r: Self)
        ensures
            r == (Sphere { center, radius, material }),
    {
        Sphere { center, radius, material }
    }

    /// The nearest hit of `r` on the sphere with parameter in `(t_min, t_max]`.
    pub fn hit(&self, r: &Ray, t_min: Fx, t_max: Fx) -> (res: Option<HitRecord>)
        ensures
            res == ball_hit_spec(self.center, self.radius as int, self.material, true, *r, t_min as int, t_max as int),
            res matches Some(rec) ==> t_min < rec.t <= t_max,
    {
        hit_ball(&self.center, self.radius, self.material, true, r, t_min, t_max)
    }

    /// The box of the sphere.
    pub fn bounding_box(&self) -> (r: Aabb)
        ensures
            r == sphere_box(self.center, self.radius as int),
    {
        let rv = Vec3::new_with(self.radius);
        Aabb::new(&self.center.sub(&rv), &self.center.add(&rv))
    }
}

/// The centre of a moving sphere at `time`; the start centre when the motion
/// takes no time.
pub open spec fn moving_center_spec(s: MovingSphere, time: int) -> Point3 {
    let span = sub_spec(s.time1 as int, s.time0 as int);
    if span == 0 {
        s.center0
    } else {
        vadd(s.center0, vscale(vsub(s.center1, s.center0), div_spec(sub_spec(time, s.time0 as int), span)))
    }
}

impl MovingSphere {
    /// A moving sphere.
    pub fn new(center0: Point3, center1: Point3, time0: Fx, time1: Fx, radius: Fx, material: usize) -> (r: Self)
        ensures
            r == (MovingSphere { center0, center1, time0, time1, radius, material }),
    {
        MovingSphere { center0, center1, time0, time1, radius, material }
    }

    /// The centre at `time`.
    pub fn center(&self, time: Fx) -> (r: Point3)
        ensures
            r == moving_center_spec(*self, time as int),
    {
        let span = fixed::sub(self.time1, self.time0);
        if span == 0 {
            self.center0
        } else {
            let f = fixed::div(fixed::sub(time, self.time0), span);
            self.center0.add(&self.center1.sub(&self.center0).scale(f))
        }
    }

    /// The nearest hit of `r`, against the sphere where it stands at the
    /// ray's time.
    pub fn hit(&self, r: &Ray, t_min: Fx, t_max: Fx) -> (res: Option<HitRecord>)
        ensures
            res == ball_hit_spec(moving_center_spec(*self, r.time as int), self.radius as int, self.material, false, *r, t_min as int, t_max as int),
            res matches Some(rec) ==> t_min < rec.t <= t_max,
    {
        let c = self.center(r.time);
        hit_ball(&c, self.radius, self.material, false, r, t_min, t_max)
    }

    /// The box holding the sphere at both `t0` and `t1`.
    pub fn bounding_box(&self, t0: Fx, t1: Fx) -> (r: Aabb)
        ensures
            r == crate::aabb::surrounding_spec(
                sphere_box(moving_center_spec(*self, t0 as int), self.radius as int),
                sphere_box(moving_center_spec(*self, t1 as int), self.radius as int),
            ),
    {
        let rv = Vec3::new_with(self.radius);
        let c0 = self.center(t0);
        let c1 = self.center(t1);
        let box0 = Aabb::new(&c0.sub(&rv), &c0.add(&rv));
        let box1 = Aabb::new(&c1.sub(&rv), &c1.add(&rv));
        Aabb::surrounding_box(&box0, &box1)
    }
}

} // verus!
