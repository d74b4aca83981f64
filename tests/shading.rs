use rand::SeedableRng;
use rand_chacha::ChaCha8Rng;
use rtiow::aarect::{AaRect, Plane};
use rtiow::camera::Camera;
use rtiow::conversion::{to_u8, IntoU8};
use rtiow::fixed::ONE;
use rtiow::hittable::{HitRecord, Hittable, Scene};
use rtiow::list::HittableList;
use rtiow::material::{dielectric_dir, schlick, Diel, DiffuseLight, Lambert, Material, Metal};
use rtiow::onb::Onb;
use rtiow::pdf::{mean, CosPdf, HittablePdf, MixturePdf, Pdf};
use rtiow::ray::{ray_color, Ray};
use rtiow::render::render_pixel;
use rtiow::sphere::Sphere;
use rtiow::texture::{Checker, ImageTexture, SolidColor, Texture};
use rtiow::vec3::{ColorU8, Vec3};

fn v(x: i64, y: i64, z: i64) -> Vec3 {
    Vec3::new(x * ONE, y * ONE, z * ONE)
}

fn to_f(x: i64) -> f64 {
    x as f64 / ONE as f64
}

#[test]
fn schlick_values() {
    assert_eq!(schlick(ONE, ONE), 0);
    let head_on = to_f(schlick(ONE, 3 * ONE / 2));
    assert!((head_on - 0.04).abs() < 0.001);
    assert_eq!(schlick(0, 3 * ONE / 2), ONE);
    for c in [0, ONE / 5, ONE / 2, 9 * ONE / 10, ONE] {
        for n in [1, ONE / 3, ONE, 3 * ONE / 2, 5 * ONE] {
            let r = schlick(c, n);
            assert!((0..=ONE).contains(&r));
        }
    }
}

#[test]
fn dielectric_head_on_refracts() {
    let glass = Diel::new(3 * ONE / 2);
    let eta = glass.eta_ratio(true);
    assert!((to_f(eta) - 1.0 / 1.5).abs() < 0.0001);
    assert!(!Diel::total_reflection(eta, ONE));
    assert!(Diel::total_reflection(3 * ONE / 2, 0));
    let r = Vec3::refract(&v(0, 0, -1), &v(0, 0, 1), eta);
    assert_eq!(r, v(0, 0, -1));
}

#[test]
fn metal_fuzz_capped() {
    assert_eq!(Metal::new(v(1, 1, 1), 2 * ONE).fuzz, ONE);
    assert_eq!(Metal::new(v(1, 1, 1), ONE / 4).fuzz, ONE / 4);
}

#[test]
fn onb_around_z() {
    let b = Onb::build_from_w(&v(0, 0, 3));
    assert_eq!(b.w(), v(0, 0, 1));
    assert_eq!(b.u().dot(&b.w()), 0);
    assert_eq!(b.v().dot(&b.w()), 0);
    assert_eq!(b.local(&v(0, 0, 1)), v(0, 0, 1));
    assert_eq!(b.local_from(ONE, 0, 0), b.u());
}

#[test]
fn cosine_pdf_integrates_to_one() {
    let p = CosPdf::new(&v(0, 1, 0));
    let mut rng = ChaCha8Rng::seed_from_u64(21);
    let n = 40000;
    let mut sum = 0.0;
    let mut k = 0;
    while k < n {
        let d = Vec3::random_in_unit_sphere(&mut rng);
        if d.length_squared() < ONE / 100 {
            continue;
        }
        sum += to_f(p.value(&d));
        k += 1;
    }
    let integral = 4.0 * std::f64::consts::PI * sum / n as f64;
    assert!((integral - 1.0).abs() < 0.03, "{}", integral);
}

#[test]
fn cosine_pdf_values() {
    let p = CosPdf::new(&v(0, 0, 1));
    let up = to_f(p.value(&v(0, 0, 5)));
    assert!((up - 1.0 / std::f64::consts::PI).abs() < 0.001);
    assert_eq!(p.value(&v(0, 0, -1)), 0);
    assert_eq!(p.value(&v(1, 0, 0)), 0);
}

fn light_scene() -> (Scene, usize) {
    let mut scene = Scene::new();
    let m = scene.add_material(Material::DiffLight(DiffuseLight::new(Texture::Solid(SolidColor::new_with(4 * ONE)))));
    let light = scene.add(Hittable::Rect(AaRect::new(-ONE, ONE, -ONE, ONE, -2 * ONE, m, Plane::Xy)));
    (scene, light)
}

#[test]
fn mixture_value_is_mean() {
    let (scene, light) = light_scene();
    let o = v(0, 0, 0);
    for d in [v(0, 0, -1), Vec3::new(ONE / 4, ONE / 3, -ONE), v(1, 0, -1), v(0, 0, 1)] {
        let c = Pdf::Cosine(CosPdf::new(&v(0, 0, -1)));
        let h = Pdf::Hittable(HittablePdf::new(&o, light));
        let a = c.value(&scene, &d);
        let b = h.value(&scene, &d);
        let mix = MixturePdf::new(Pdf::Cosine(CosPdf::new(&v(0, 0, -1))), Pdf::Hittable(HittablePdf::new(&o, light)));
        assert_eq!(mix.value(&scene, &d), mean(a, b));
        let boxed = Pdf::Mixture(mix);
        assert_eq!(boxed.value(&scene, &d), (a + b).div_euclid(2));
    }
}

#[test]
fn rect_light_density() {
    let (scene, light) = light_scene();
    let o = v(0, 0, 0);
    let straight = to_f(scene.pdf_value(light, &o, &v(0, 0, -1)));
    assert!((straight - 1.0).abs() < 0.001, "{}", straight);
    assert_eq!(scene.pdf_value(light, &o, &v(0, 0, 1)), 0);
    let s = Sphere::new(v(0, 0, -4), ONE, 0);
    let mut sc = Scene::new();
    sc.add_material(Material::Lambertian(Lambert::new(Texture::Solid(SolidColor::new_with(ONE)))));
    let id = sc.add(Hittable::Sphere(s));
    let expected = 1.0 / (2.0 * std::f64::consts::PI * (1.0 - (1.0f64 - 1.0 / 16.0).sqrt()));
    let got = to_f(sc.pdf_value(id, &o, &v(0, 0, -1)));
    assert!((got - expected).abs() / expected < 0.01, "{} {}", got, expected);
}

#[test]
fn mixture_samples_follow_density() {
    let (scene, light) = light_scene();
    let o = v(0, 0, 0);
    let mix = Pdf::Mixture(MixturePdf::new(Pdf::Cosine(CosPdf::new(&v(0, 0, -1))), Pdf::Hittable(HittablePdf::new(&o, light))));
    let mut rng = ChaCha8Rng::seed_from_u64(22);
    let n = 4000;
    let mut towards = 0;
    let mut rng2 = ChaCha8Rng::seed_from_u64(23);
    for _ in 0..n {
        let d = mix.generate(&scene, &mut rng);
        if scene.hit(light, &Ray::new(o, d, 0), 66, 1000 * ONE, &mut rng2).is_some() {
            towards += 1;
        }
    }
    // half the samples aim at the light, and the cosine lobe adds its share
    // of the light's solid angle (about 0.2 of the hemisphere's weight).
    let frac = towards as f64 / n as f64;
    assert!(frac > 0.55 && frac < 0.65, "{}", frac);
}

#[test]
fn diffuse_sphere_under_sky() {
    let mut scene = Scene::new();
    let m = scene.add_material(Material::Lambertian(Lambert::new(Texture::Solid(SolidColor::new_with(ONE / 2)))));
    let light_m = scene.add_material(Material::DiffLight(DiffuseLight::new(Texture::Solid(SolidColor::new_with(ONE)))));
    let ball = scene.add(Hittable::Sphere(Sphere::new(v(0, 0, -3), ONE, m)));
    let lights = scene.add(Hittable::Rect(AaRect::new(-ONE, ONE, -ONE, ONE, 10 * ONE, light_m, Plane::Xz)));
    let world = scene.add(Hittable::List(HittableList::new_from(ball)));
    let background = Vec3::new(7 * ONE / 10, 8 * ONE / 10, ONE);
    let mut rng = ChaCha8Rng::seed_from_u64(31);
    let r = Ray::new(v(0, 0, 0), v(0, 0, -1), 0);
    let n = 2000;
    let mut sum = [0f64; 3];
    for _ in 0..n {
        let c = ray_color(&mut rng, &r, &background, &scene, world, lights, 8);
        sum[0] += to_f(c.0);
        sum[1] += to_f(c.1);
        sum[2] += to_f(c.2);
    }
    let bg = [0.7, 0.8, 1.0];
    for ch in 0..3 {
        let mean = sum[ch] / n as f64;
        assert!(mean > 0.0 && mean < bg[ch], "{} {}", ch, mean);
        assert!((mean - 0.5 * bg[ch]).abs() < 0.1 * bg[ch], "{} {}", ch, mean);
    }
    let miss = Ray::new(v(0, 0, 0), v(0, 0, 1), 0);
    assert_eq!(ray_color(&mut rng, &miss, &background, &scene, world, lights, 8), background);
    assert_eq!(ray_color(&mut rng, &r, &background, &scene, world, lights, 0), v(0, 0, 0));
}

#[test]
fn mirror_sphere_returns_background() {
    let mut scene = Scene::new();
    let m = scene.add_material(Material::Metallic(Metal::new(v(1, 1, 1), 0)));
    let ball = scene.add(Hittable::Sphere(Sphere::new(v(0, 0, -3), ONE, m)));
    let background = Vec3::new(ONE / 5, 2 * ONE / 5, 3 * ONE / 5);
    let mut rng = ChaCha8Rng::seed_from_u64(32);
    for d in [v(0, 0, -1), Vec3::new(ONE / 4, ONE / 5, -ONE), Vec3::new(-ONE / 6, 0, -ONE)] {
        let r = Ray::new(v(0, 0, 0), d, 0);
        assert_eq!(ray_color(&mut rng, &r, &background, &scene, ball, ball, 5), background);
    }
}

#[test]
fn mirror_reflection_is_deterministic() {
    let metal = Material::Metallic(Metal::new(v(1, 1, 1), 0));
    let mut rng = ChaCha8Rng::seed_from_u64(33);
    let r = Ray::new(v(0, 0, 0), v(1, -1, 0), 0);
    let rec = HitRecord::new(&r, ONE, v(1, -1, 0), &v(0, 1, 0), 0, 0, 0);
    let s = metal.scatter(&mut rng, &r, &rec).unwrap();
    let out = s.specular_ray.unwrap();
    let expected = Vec3::reflect(&v(1, -1, 0).unit_vector(), &v(0, 1, 0));
    assert_eq!(out.direction(), expected);
    assert!(s.pdf_ptr.is_none());
}

#[test]
fn glass_head_on_goes_through() {
    let glass = Material::Dielectric(Diel::new(3 * ONE / 2));
    let mut rng = ChaCha8Rng::seed_from_u64(34);
    let r = Ray::new(v(0, 0, 0), v(0, 0, -1), 0);
    let rec = HitRecord::new(&r, 2 * ONE, v(0, 0, -2), &v(0, 0, 1), 0, 0, 0);
    let mut through = 0;
    for _ in 0..200 {
        let s = glass.scatter(&mut rng, &r, &rec).unwrap();
        let d = s.specular_ray.unwrap().direction();
        assert!(d == v(0, 0, -1) || d == v(0, 0, 1));
        if d == v(0, 0, -1) {
            through += 1;
        }
        assert_eq!(s.attenuation, v(1, 1, 1));
    }
    assert!(through > 180);
}

#[test]
fn emissive_rect_seen_directly() {
    let (scene, light) = light_scene();
    let black = v(0, 0, 0);
    let mut rng = ChaCha8Rng::seed_from_u64(35);
    let hit = Ray::new(v(0, 0, 0), Vec3::new(ONE / 4, -ONE / 4, -ONE), 0);
    assert_eq!(ray_color(&mut rng, &hit, &black, &scene, light, light, 10), v(4, 4, 4));
    let miss = Ray::new(v(0, 0, 0), v(0, 0, 1), 0);
    assert_eq!(ray_color(&mut rng, &miss, &black, &scene, light, light, 10), black);
    let back = Ray::new(v(0, 0, -5), v(0, 0, 1), 0);
    assert_eq!(ray_color(&mut rng, &back, &black, &scene, light, light, 10), black);
}

#[test]
fn lambert_scattering_density() {
    let mat = Material::Lambertian(Lambert::new(Texture::Solid(SolidColor::new_with(ONE))));
    let r = Ray::new(v(0, 0, 0), v(0, 0, -1), 0);
    let rec = HitRecord::new(&r, ONE, v(0, 0, -1), &v(0, 0, 1), 0, 0, 0);
    let up = Ray::new(v(0, 0, -1), v(0, 0, 1), 0);
    assert!((to_f(mat.scattering_pdf(&rec, &up)) - 1.0 / std::f64::consts::PI).abs() < 0.001);
    let down = Ray::new(v(0, 0, -1), v(0, 0, -1), 0);
    assert_eq!(mat.scattering_pdf(&rec, &down), 0);
    assert_eq!(mat.emitted(&rec), v(0, 0, 0));
}

#[test]
fn textures() {
    let solid = Texture::Solid(SolidColor::from_color(v(1, 2, 3)));
    assert_eq!(solid.value(0, 0, &v(0, 0, 0)), v(1, 2, 3));
    let checker = Texture::Checker(Checker::new(
        Texture::Solid(SolidColor::new(ONE, 0, 0)),
        Texture::Solid(SolidColor::new(0, 0, ONE)),
    ));
    let p = Vec3::new(ONE / 20, ONE / 20, ONE / 20);
    assert_eq!(checker.value(0, 0, &p), v(0, 0, 1));
    let q = Vec3::new(-ONE / 20, ONE / 20, ONE / 20);
    assert_eq!(checker.value(0, 0, &q), v(1, 0, 0));
    let img = ImageTexture::from_raw(vec![255, 0, 0, 0, 255, 0, 0, 0, 255, 255, 255, 255], 2, 2).unwrap();
    assert_eq!(img.value(0, ONE), v(1, 0, 0));
    assert_eq!(img.value(ONE, ONE), v(0, 1, 0));
    assert_eq!(img.value(0, 0), v(0, 0, 1));
    assert_eq!(img.value(ONE, 0), v(1, 1, 1));
    assert!(ImageTexture::from_raw(vec![1, 2, 3], 2, 2).is_none());
    let empty = ImageTexture::from_raw(Vec::new(), 0, 0).unwrap();
    assert_eq!(empty.value(0, 0), v(1, 0, 1));
}

#[test]
fn byte_conversion() {
    assert_eq!(to_u8(ONE), 255);
    assert_eq!(to_u8(2 * ONE), 255);
    assert_eq!(to_u8(-ONE), 0);
    assert_eq!(to_u8(ONE / 2), 128);
    assert_eq!((ONE / 4).into_u8(), 64);
    let c = Vec3::new(4 * ONE, ONE, 0);
    assert_eq!(c.into_u8_color(4), ColorU8(255, 128, 0));
}

#[test]
fn camera_rays() {
    let cam = Camera::new_with(200, 100);
    let mut rng = ChaCha8Rng::seed_from_u64(41);
    let r = cam.get_ray(&mut rng, ONE / 2, ONE / 2);
    assert_eq!(r.origin(), v(0, 0, 0));
    assert_eq!(r.direction(), v(0, 0, -1));
    let corner = cam.get_ray(&mut rng, 0, 0);
    assert_eq!(corner.direction(), v(-2, -1, -1));
    assert!(r.time() >= 0 && r.time() < ONE);
}

#[test]
fn pixel_of_light_filled_view() {
    let (scene, light) = light_scene();
    let cam = Camera::new_with(3, 3);
    let mut rng = ChaCha8Rng::seed_from_u64(42);
    let c = render_pixel(&mut rng, &cam, &scene, light, light, &v(0, 0, 0), 1, 1, 3, 3, 4, 5);
    assert_eq!(c, ColorU8(255, 255, 255));
}

#[test]
fn sphere_light_samples_hit_it() {
    let mut scene = Scene::new();
    let m = scene.add_material(Material::DiffLight(DiffuseLight::new(Texture::Solid(SolidColor::new_with(ONE)))));
    let ball = scene.add(Hittable::Sphere(Sphere::new(v(0, 0, -10), 2 * ONE, m)));
    let o = v(0, 0, 0);
    let towards = Pdf::Hittable(HittablePdf::new(&o, ball));
    let mut rng = ChaCha8Rng::seed_from_u64(51);
    let mut hits = 0;
    for _ in 0..500 {
        let d = towards.generate(&scene, &mut rng);
        assert!(towards.value(&scene, &d) >= 0);
        if scene.hit(ball, &Ray::new(o, d, 0), 66, 1000 * ONE, &mut rng).is_some() {
            hits += 1;
        }
    }
    assert!(hits > 480, "{}", hits);
}

#[test]
fn rect_light_samples_hit_it() {
    let (scene, light) = light_scene();
    let o = v(0, 0, 0);
    let mut rng = ChaCha8Rng::seed_from_u64(52);
    for _ in 0..200 {
        let d = scene.random(light, &o, &mut rng);
        assert!(scene.hit(light, &Ray::new(o, d, 0), 66, 1000 * ONE, &mut rng).is_some());
    }
}

#[test]
fn dielectric_direction_by_draw() {
    let unit = v(0, 0, -1);
    let n = v(0, 0, 1);
    let eta = Diel::new(3 * ONE / 2).eta_ratio(true);
    let r0 = schlick(ONE, eta);
    assert_eq!(dielectric_dir(&unit, &n, eta, r0), v(0, 0, -1));
    assert_eq!(dielectric_dir(&unit, &n, eta, ONE - 1), v(0, 0, -1));
    assert_eq!(dielectric_dir(&unit, &n, eta, r0 - 1), v(0, 0, 1));
    assert_eq!(dielectric_dir(&unit, &n, eta, 0), v(0, 0, 1));
    // grazing exit from glass: total internal reflection whatever the draw
    let slant = Vec3::new(ONE * 9 / 10, 0, -ONE * 43589 / 100000).unit_vector();
    let inside = Vec3::reflect(&slant, &n);
    assert_eq!(dielectric_dir(&slant, &n, 3 * ONE / 2, ONE - 1), inside);
}

#[test]
fn scattered_ray_keeps_time() {
    let glass = Material::Dielectric(Diel::new(3 * ONE / 2));
    let mut rng = ChaCha8Rng::seed_from_u64(36);
    let r = Ray::new(v(0, 0, 0), v(0, 0, -1), ONE / 3);
    let rec = HitRecord::new(&r, 2 * ONE, v(0, 0, -2), &v(0, 0, 1), 0, 0, 0);
    let s = glass.scatter(&mut rng, &r, &rec).unwrap();
    assert_eq!(s.specular_ray.unwrap().time(), ONE / 3);
}

#[test]
fn fuzzy_metal_scatters_near_mirror() {
    let metal = Material::Metallic(Metal::new(v(1, 1, 1), ONE / 10));
    let mut rng = ChaCha8Rng::seed_from_u64(37);
    let r = Ray::new(v(0, 0, 0), v(0, 0, -1), 0);
    let rec = HitRecord::new(&r, ONE, v(0, 0, -1), &v(0, 0, 1), 0, 0, 0);
    for _ in 0..50 {
        let s = metal.scatter(&mut rng, &r, &rec).unwrap();
        let d = s.specular_ray.unwrap().direction();
        assert!(d.2 > ONE * 8 / 10 && d.0.abs() <= ONE / 10 && d.1.abs() <= ONE / 10);
    }
}

#[test]
fn random_directions() {
    let mut rng = ChaCha8Rng::seed_from_u64(38);
    for _ in 0..50 {
        let u = Vec3::random_unit_vector(&mut rng);
        let l = to_f(u.length());
        assert!(u == v(0, 0, 0) || (l - 1.0).abs() < 0.001);
        let h = Vec3::random_in_hemisphere(&mut rng, &v(0, 1, 0));
        assert!(h.1 >= 0);
        let c = CosPdf::random_cosine_direction(&mut rng);
        assert!(c.2 >= 0 && (to_f(c.length()) - 1.0).abs() < 0.01);
    }
}
