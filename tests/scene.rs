use rand::SeedableRng;
use rand_chacha::ChaCha8Rng;
use rtiow::aabb::Aabb;
use rtiow::aarect::{AaRect, Plane};
use rtiow::box_prim::BoxPrim;
use rtiow::bvh::BvhNode;
use rtiow::constant_medium::{medium_span, medium_t, neg_ln, ConstantMedium};
use rtiow::fixed::ONE;
use rtiow::flip_face::FlipFace;
use rtiow::hittable::{Hittable, Scene};
use rtiow::list::HittableList;
use rtiow::material::{Isotropic, Lambert, Material};
use rtiow::ray::Ray;
use rtiow::sphere::Sphere;
use rtiow::texture::{SolidColor, Texture};
use rtiow::translate::{RotateY, Translate};
use rtiow::vec3::Vec3;

fn v(x: i64, y: i64, z: i64) -> Vec3 {
    Vec3::new(x * ONE, y * ONE, z * ONE)
}

fn gray() -> Material {
    Material::Lambertian(Lambert::new(Texture::Solid(SolidColor::new_with(ONE / 2))))
}

fn three_spheres(scene: &mut Scene) -> Vec<usize> {
    let m = scene.add_material(gray());
    let a = scene.add(Hittable::Sphere(Sphere::new(v(0, 0, -5), ONE, m)));
    let b = scene.add(Hittable::Sphere(Sphere::new(v(3, 1, -8), 2 * ONE, m)));
    let c = scene.add(Hittable::Sphere(Sphere::new(v(-4, -2, -6), ONE / 2, m)));
    let d = scene.add(Hittable::Rect(AaRect::new(-ONE, ONE, -ONE, ONE, -12 * ONE, m, Plane::Xy)));
    vec![a, b, c, d]
}

#[test]
fn list_reports_nearest_hit() {
    let mut scene = Scene::new();
    let m = scene.add_material(gray());
    let far = scene.add(Hittable::Sphere(Sphere::new(v(0, 0, -10), ONE, m)));
    let near = scene.add(Hittable::Sphere(Sphere::new(v(0, 0, -4), ONE, m)));
    let mut list = HittableList::new();
    list.add(far);
    list.add(near);
    let root = scene.add(Hittable::List(list));
    let mut rng = ChaCha8Rng::seed_from_u64(1);
    let r = Ray::new(v(0, 0, 0), v(0, 0, -1), 0);
    let rec = scene.hit(root, &r, 0, 100 * ONE, &mut rng).unwrap();
    assert_eq!(rec.t, 3 * ONE);
    let bb = scene.bounding_box(root, 0, ONE).unwrap();
    assert_eq!(bb.min(), v(-1, -1, -11));
    assert_eq!(bb.max(), v(1, 1, -3));
}

#[test]
fn empty_list_has_no_box() {
    let mut scene = Scene::new();
    let root = scene.add(Hittable::List(HittableList::with_capacity(4)));
    assert!(scene.bounding_box(root, 0, ONE).is_none());
}

#[test]
fn bvh_box_is_union_of_boxes() {
    let mut scene = Scene::new();
    let objs = three_spheres(&mut scene);
    let mut union = scene.bounding_box(objs[0], 0, ONE).unwrap();
    for &o in &objs[1..] {
        union = Aabb::surrounding_box(&union, &scene.bounding_box(o, 0, ONE).unwrap());
    }
    let mut list = HittableList::new();
    for &o in &objs {
        list.add(o);
    }
    let mut rng = ChaCha8Rng::seed_from_u64(3);
    let node = BvhNode::bvh_node(&mut rng, &mut scene, &mut list, 0, ONE);
    assert_eq!(node.bbox, union);
    assert!(node.left.is_some() && node.right.is_some());
}

#[test]
fn bvh_hit_matches_linear_scan() {
    let mut scene = Scene::new();
    let objs = three_spheres(&mut scene);
    let mut list = HittableList::new();
    for &o in &objs {
        list.add(o);
    }
    let flat = scene.add(Hittable::List(list.clone()));
    let mut rng = ChaCha8Rng::seed_from_u64(4);
    let node = BvhNode::bvh_node(&mut rng, &mut scene, &mut list, 0, ONE);
    let tree = scene.add(Hittable::Bvh(node));
    let dirs = [v(0, 0, -1), v(3, 1, -8), v(-4, -2, -6), v(0, 0, -12), v(1, 1, 1), Vec3::new(ONE / 3, ONE / 7, -ONE)];
    for d in dirs.iter() {
        let r = Ray::new(v(0, 0, 0), *d, 0);
        let a = scene.hit(flat, &r, 66, 1000 * ONE, &mut rng);
        let b = scene.hit(tree, &r, 66, 1000 * ONE, &mut rng);
        assert_eq!(a, b);
    }
}

#[test]
fn bvh_of_one_object_repeats_it() {
    let mut scene = Scene::new();
    let m = scene.add_material(gray());
    let s = scene.add(Hittable::Sphere(Sphere::new(v(0, 0, -5), ONE, m)));
    let mut list = HittableList::new_from(s);
    let mut rng = ChaCha8Rng::seed_from_u64(5);
    let node = BvhNode::bvh_node(&mut rng, &mut scene, &mut list, 0, ONE);
    assert_eq!(node.left, Some(s));
    assert_eq!(node.right, Some(s));
    assert_eq!(node.bbox, Aabb::new(&v(-1, -1, -6), &v(1, 1, -4)));
}

#[test]
fn bvh_of_unbounded_object_is_empty() {
    let mut scene = Scene::new();
    let m = scene.add_material(gray());
    let s = scene.add(Hittable::Sphere(Sphere::new(v(0, 0, -5), ONE, m)));
    let empty = scene.add(Hittable::List(HittableList::new()));
    let mut list = HittableList::new();
    list.add(s);
    list.add(empty);
    let mut rng = ChaCha8Rng::seed_from_u64(6);
    let node = BvhNode::bvh_node(&mut rng, &mut scene, &mut list, 0, ONE);
    assert!(node.left.is_none() && node.right.is_none());
}

#[test]
fn box_primitive_sides() {
    let mut scene = Scene::new();
    let m = scene.add_material(gray());
    let b = BoxPrim::new(&v(0, 0, 0), &v(1, 2, 3), m);
    assert_eq!(b.sides.len(), 6);
    let id = scene.add(Hittable::Boxed(b));
    let mut rng = ChaCha8Rng::seed_from_u64(7);
    let r = Ray::new(Vec3::new(ONE / 2, ONE, 10 * ONE), v(0, 0, -1), 0);
    let rec = scene.hit(id, &r, 0, 100 * ONE, &mut rng).unwrap();
    assert_eq!(rec.t, 7 * ONE);
    assert_eq!(rec.p, Vec3::new(ONE / 2, ONE, 3 * ONE));
    assert!(rec.front_face);
    let bb = scene.bounding_box(id, 0, ONE).unwrap();
    assert_eq!(bb, Aabb::new(&v(0, 0, 0), &v(1, 2, 3)));
}

#[test]
fn flip_face_swaps_side() {
    let mut scene = Scene::new();
    let m = scene.add_material(gray());
    let rect = scene.add(Hittable::Rect(AaRect::new(-ONE, ONE, -ONE, ONE, -2 * ONE, m, Plane::Xy)));
    let flipped = scene.add(Hittable::Flip(FlipFace::new(rect)));
    let mut rng = ChaCha8Rng::seed_from_u64(8);
    let r = Ray::new(v(0, 0, 0), v(0, 0, -1), 0);
    assert!(scene.hit(rect, &r, 0, 10 * ONE, &mut rng).unwrap().front_face);
    assert!(!scene.hit(flipped, &r, 0, 10 * ONE, &mut rng).unwrap().front_face);
}

#[test]
fn translate_moves_object() {
    let mut scene = Scene::new();
    let m = scene.add_material(gray());
    let s = scene.add(Hittable::Sphere(Sphere::new(v(0, 0, 0), ONE, m)));
    let moved = scene.add(Hittable::Translate(Translate::new(s, v(0, 0, -5))));
    let mut rng = ChaCha8Rng::seed_from_u64(9);
    let r = Ray::new(v(0, 0, 0), v(0, 0, -1), 0);
    let rec = scene.hit(moved, &r, 0, 100 * ONE, &mut rng).unwrap();
    assert_eq!(rec.t, 4 * ONE);
    assert_eq!(rec.p, v(0, 0, -4));
    assert_eq!(scene.bounding_box(moved, 0, ONE).unwrap(), Aabb::new(&v(-1, -1, -6), &v(1, 1, -4)));
}

#[test]
fn rotate_quarter_turn() {
    let mut scene = Scene::new();
    let m = scene.add_material(gray());
    let b = scene.add(Hittable::Boxed(BoxPrim::new(&v(0, 0, 0), &v(2, 1, 1), m)));
    let rot = RotateY::new(&scene, b, ONE, 0, 0, ONE);
    assert!(rot.has_box);
    assert_eq!(rot.bbox, Aabb::new(&v(0, 0, -2), &v(1, 1, 0)));
    let id = scene.add(Hittable::RotateY(rot));
    let mut rng = ChaCha8Rng::seed_from_u64(10);
    let r = Ray::new(Vec3::new(ONE / 2, ONE / 2, 5 * ONE), v(0, 0, -1), 0);
    let rec = scene.hit(id, &r, 0, 100 * ONE, &mut rng).unwrap();
    assert_eq!(rec.t, 5 * ONE);
}

#[test]
fn medium_scatters_inside_boundary() {
    let mut scene = Scene::new();
    let m = scene.add_material(gray());
    let fog = scene.add_material(Material::Iso(Isotropic::new(Texture::Solid(SolidColor::new_with(ONE)))));
    let ball = scene.add(Hittable::Sphere(Sphere::new(v(0, 0, -5), ONE, m)));
    let medium = scene.add(Hittable::Medium(ConstantMedium::new(ball, fog, 100 * ONE)));
    let mut rng = ChaCha8Rng::seed_from_u64(11);
    let r = Ray::new(v(0, 0, 0), v(0, 0, -1), 0);
    let mut hits = 0;
    for _ in 0..50 {
        if let Some(rec) = scene.hit(medium, &r, 66, 100 * ONE, &mut rng) {
            assert!(rec.t >= 4 * ONE && rec.t <= 6 * ONE);
            assert_eq!(rec.material, fog);
            hits += 1;
        }
    }
    assert!(hits > 40);
    let thin = scene.add(Hittable::Medium(ConstantMedium::new(ball, fog, ONE / 10000)));
    let mut through = 0;
    for _ in 0..50 {
        if scene.hit(thin, &r, 66, 100 * ONE, &mut rng).is_none() {
            through += 1;
        }
    }
    assert!(through > 40);
}

#[test]
fn negative_log() {
    assert_eq!(neg_ln(ONE), 0);
    let half = neg_ln(ONE / 2) as f64 / ONE as f64;
    assert!((half - std::f64::consts::LN_2).abs() < 0.001);
    let tenth = neg_ln(ONE / 10) as f64 / ONE as f64;
    assert!((tenth - 10f64.ln()).abs() < 0.001);
}

#[test]
fn hit_interval_open_below_closed_above() {
    let rect = AaRect::new(-ONE, ONE, -ONE, ONE, -2 * ONE, 0, Plane::Xy);
    let r = Ray::new(v(0, 0, 0), v(0, 0, -1), 0);
    assert!(rect.hit(&r, 2 * ONE, 10 * ONE).is_none());
    assert!(rect.hit(&r, 0, 2 * ONE).is_some());
    let s = Sphere::new(v(0, 0, -5), ONE, 0);
    assert_eq!(s.hit(&r, 0, 4 * ONE).unwrap().t, 4 * ONE);
    assert_eq!(s.hit(&r, 4 * ONE, 10 * ONE).unwrap().t, 6 * ONE);
}

#[test]
fn medium_depth_for_draw() {
    assert_eq!(medium_span(4 * ONE, 6 * ONE, 66, 100 * ONE, ONE), Some((4 * ONE, 6 * ONE)));
    assert_eq!(medium_span(4 * ONE, 6 * ONE, 7 * ONE, 100 * ONE, ONE), None);
    assert_eq!(medium_span(4 * ONE, 6 * ONE, 66, 100 * ONE, 0), None);
    assert_eq!(medium_span(-ONE, 6 * ONE, -2 * ONE, 100 * ONE, ONE), Some((0, 6 * ONE)));
    // density 1: a draw of 1/2 travels ln 2
    let t = medium_t(4 * ONE, 6 * ONE, 66, 100 * ONE, ONE, -ONE, ONE / 2).unwrap();
    assert!((t - 4 * ONE - 45426).abs() < 100);
    assert_eq!(medium_t(4 * ONE, 6 * ONE, 66, 100 * ONE, ONE, -ONE, ONE / 100), None);
}
