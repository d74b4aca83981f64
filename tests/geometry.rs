use rtiow::aabb::Aabb;
use rtiow::aarect::{AaRect, Plane};
use rtiow::fixed::{self, ONE};
use rtiow::ray::Ray;
use rtiow::sphere::{get_sphere_uv, MovingSphere, Sphere};
use rtiow::vec3::Vec3;

fn v(x: i64, y: i64, z: i64) -> Vec3 {
    Vec3::new(x * ONE, y * ONE, z * ONE)
}

#[test]
fn fixed_point_arithmetic() {
    assert_eq!(fixed::mul(3 * ONE, ONE / 2), 3 * ONE / 2);
    assert_eq!(fixed::mul(-ONE, ONE / 2), -ONE / 2);
    assert_eq!(fixed::div(ONE, 4 * ONE), ONE / 4);
    assert_eq!(fixed::div(-3, 2 * ONE), -2);
    assert_eq!(fixed::sqrt(4 * ONE), 2 * ONE);
    assert_eq!(fixed::sqrt(-ONE), 0);
    assert_eq!(fixed::add(fixed::LIMIT, ONE), fixed::LIMIT);
    assert_eq!(fixed::sub(-fixed::LIMIT, ONE), -fixed::LIMIT);
}

#[test]
fn vector_algebra() {
    let a = v(1, 2, 3);
    let b = v(4, 5, 6);
    assert_eq!(a.add(&b), v(5, 7, 9));
    assert_eq!(b.sub(&a), v(3, 3, 3));
    assert_eq!(a.dot(&b), 32 * ONE);
    assert_eq!(a.cross(&b), v(-3, 6, -3));
    assert_eq!(v(3, 4, 0).length(), 5 * ONE);
    assert_eq!(v(0, 0, 7).unit_vector(), v(0, 0, 1));
    assert_eq!(v(0, 0, 0).unit_vector(), v(0, 0, 0));
    assert_eq!(a.neg(), v(-1, -2, -3));
    assert_eq!(Vec3::reflect(&v(1, -1, 0), &v(0, 1, 0)), v(1, 1, 0));
}

#[test]
fn refract_straight_through() {
    let r = Vec3::refract(&v(0, 0, -1), &v(0, 0, 1), ONE);
    assert_eq!(r, v(0, 0, -1));
}

#[test]
fn ray_at() {
    let r = Ray::new(v(1, 0, 0), v(0, 2, 0), 0);
    assert_eq!(r.at(3 * ONE), v(1, 6, 0));
    assert_eq!(r.origin(), v(1, 0, 0));
    assert_eq!(r.direction(), v(0, 2, 0));
}

#[test]
fn surrounding_box_is_tightest() {
    let a = Aabb::new(&v(0, 0, 0), &v(1, 2, 3));
    let b = Aabb::new(&v(-1, 1, 1), &v(2, 1, 4));
    let s = Aabb::surrounding_box(&a, &b);
    assert_eq!(s.min(), v(-1, 0, 0));
    assert_eq!(s.max(), v(2, 2, 4));
}

#[test]
fn box_slab_test() {
    let b = Aabb::new(&v(-1, -1, -6), &v(1, 1, -4));
    let through = Ray::new(v(0, 0, 0), v(0, 0, -1), 0);
    assert!(b.hit(&through, 0, 100 * ONE));
    assert!(!b.hit(&through, 0, 3 * ONE));
    let beside = Ray::new(v(3, 0, 0), v(0, 0, -1), 0);
    assert!(!b.hit(&beside, 0, 100 * ONE));
    let backwards = Ray::new(v(0, 0, 0), v(0, 0, 1), 0);
    assert!(!b.hit(&backwards, 0, 100 * ONE));
}

#[test]
fn sphere_hits_symmetric_about_center() {
    let s = Sphere::new(v(0, 0, -5), ONE, 0);
    let r = Ray::new(v(0, 0, 0), v(0, 0, -1), 0);
    let near = s.hit(&r, 0, 100 * ONE).unwrap();
    let far = s.hit(&r, near.t + 1, 100 * ONE).unwrap();
    assert_eq!(near.t, 4 * ONE);
    assert_eq!(far.t, 6 * ONE);
    assert_eq!(near.t + far.t, 2 * 5 * ONE);
    assert!(near.front_face);
    assert_eq!(near.normal, v(0, 0, 1));
    assert!(!far.front_face);
    assert_eq!(far.normal, v(0, 0, 1));
}

#[test]
fn sphere_missed_outside_its_box() {
    let s = Sphere::new(v(0, 0, -5), ONE, 0);
    let r = Ray::new(v(3, 0, 0), v(0, 0, -1), 0);
    assert!(!s.bounding_box().hit(&r, 0, 100 * ONE));
    assert!(s.hit(&r, 0, 100 * ONE).is_none());
    let glancing = Ray::new(v(0, 2, 0), v(0, 0, -1), 0);
    assert!(s.hit(&glancing, 0, 100 * ONE).is_none());
}

#[test]
fn sphere_box() {
    let s = Sphere::new(v(1, 2, 3), 2 * ONE, 0);
    let b = s.bounding_box();
    assert_eq!(b.min(), v(-1, 0, 1));
    assert_eq!(b.max(), v(3, 4, 5));
}

#[test]
fn moving_sphere_center_and_box() {
    let s = MovingSphere::new(v(0, 0, 0), v(2, 0, 0), 0, ONE, ONE, 0);
    assert_eq!(s.center(ONE / 2), v(1, 0, 0));
    let b = s.bounding_box(0, ONE);
    assert_eq!(b.min(), v(-1, -1, -1));
    assert_eq!(b.max(), v(3, 1, 1));
    let r = Ray::new(v(2, 0, 5), v(0, 0, -1), ONE);
    assert_eq!(s.hit(&r, 0, 100 * ONE).unwrap().t, 4 * ONE);
}

#[test]
fn sphere_uv_ranges() {
    let (u, w) = get_sphere_uv(&v(0, 1, 0));
    assert!((0..=ONE).contains(&u));
    assert!((w - ONE).abs() < ONE / 50);
    let (_, w) = get_sphere_uv(&v(0, -1, 0));
    assert!(w.abs() < ONE / 50);
    let (u, w) = get_sphere_uv(&v(1, 0, 0));
    assert!((u - ONE / 2).abs() < ONE / 50);
    assert!((w - ONE / 2).abs() < ONE / 50);
}

#[test]
fn rect_hit_and_box() {
    let rect = AaRect::new(-ONE, ONE, -ONE, ONE, -2 * ONE, 3, Plane::Xy);
    let r = Ray::new(v(0, 0, 0), Vec3::new(ONE / 4, 0, -ONE), 0);
    let rec = rect.hit(&r, 0, 100 * ONE).unwrap();
    assert_eq!(rec.t, 2 * ONE);
    assert_eq!(rec.p, Vec3::new(ONE / 2, 0, -2 * ONE));
    assert_eq!(rec.u, 3 * ONE / 4);
    assert_eq!(rec.v, ONE / 2);
    assert_eq!(rec.material, 3);
    assert!(rect.bounding_box().min().2 < rec.p.2 && rec.p.2 < rect.bounding_box().max().2);
    let miss = Ray::new(v(0, 0, 0), Vec3::new(2 * ONE, 0, -ONE), 0);
    assert!(rect.hit(&miss, 0, 100 * ONE).is_none());
    let parallel = Ray::new(v(0, 0, 0), v(1, 0, 0), 0);
    assert!(rect.hit(&parallel, 0, 100 * ONE).is_none());
}

#[test]
fn rect_planes() {
    let xz = AaRect::new(0, ONE, 0, ONE, 2 * ONE, 0, Plane::Xz);
    let r = Ray::new(Vec3::new(ONE / 2, 0, ONE / 2), v(0, 1, 0), 0);
    let rec = xz.hit(&r, 0, 100 * ONE).unwrap();
    assert_eq!(rec.p, Vec3::new(ONE / 2, 2 * ONE, ONE / 2));
    assert!(!rec.front_face);
    let yz = AaRect::new(0, ONE, 0, ONE, 3 * ONE, 0, Plane::Yz);
    let r = Ray::new(Vec3::new(0, ONE / 4, ONE / 2), v(1, 0, 0), 0);
    let rec = yz.hit(&r, 0, 100 * ONE).unwrap();
    assert_eq!(rec.t, 3 * ONE);
    assert_eq!(rec.u, ONE / 4);
    assert_eq!(rec.v, ONE / 2);
    let b = yz.bounding_box();
    assert_eq!(b.min(), Vec3::new(3 * ONE - 7, 0, 0));
    assert_eq!(b.max(), Vec3::new(3 * ONE + 7, ONE, ONE));
}
