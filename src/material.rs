//! Materials: how a surface scatters, absorbs or emits light.

use vstd::prelude::*;
use crate::fixed::{self, Fx, ONE, LIMIT, add_spec, sub_spec, mul_spec, div_spec, sqrt_spec, min_spec};
use crate::hittable::HitRecord;
use crate::onb::onb_spec;
use crate::pdf::{CosPdf, Pdf};
use crate::ray::Ray;
use crate::rng;
use crate::texture::{Texture, texture_value_spec};
use crate::vec3::{Color, Vec3, vadd, vscale, dot_spec, unit_spec, neg_spec, reflect_spec, refract_spec};

verus! {

/// One over pi, in fixed point.
pub const FRAC_1_PI: Fx = 20861;

/// A diffuse surface.
pub struct Lambert {
    /// The base color.
    pub albedo: Texture,
}

/// A metal: a mirror blurred by `fuzz`.
#[derive(Clone, Copy, Debug, PartialEq, Eq, Structural)]
pub struct Metal {
    /// The base color.
    pub albedo: Color,
    /// How far the reflected direction is perturbed, at most 1.
    pub fuzz: Fx,
}

/// A clear material such as glass or water.
#[derive(Clone, Copy, Debug, PartialEq, Eq, Structural)]
pub struct Diel {
    /// The refraction index: about 1 for air, 1.3 to 1.7 for glass, 2.4 for
    /// diamond.
    pub refraction_index: Fx,
}

/// A surface that emits light.
pub struct DiffuseLight {
    /// The emitted color.
    pub emit: Texture,
}

/// A medium that scatters uniformly in every direction.
pub struct Isotropic {
    /// The base color.
    pub albedo: Texture,
}

/// The closed set of materials.
pub enum Material {
    /// Diffuse.
    Lambertian(Lambert),
    /// Metallic.
    Metallic(Metal),
    /// Dielectric.
    Dielectric(Diel),
    /// Emissive.
    DiffLight(DiffuseLight),
    /// Isotropic, for participating media.
    Iso(Isotropic),
}

/// What a scattering event yields: either a specular ray, followed as it is,
/// or a density to sample the outgoing direction from.
pub struct ScatterRecord {
    /// The outgoing ray of a deterministic scatter.
    pub specular_ray: Option<Ray>,
    /// The color the scattered light is multiplied by.
    pub attenuation: Color,
    /// The density of a probabilistic scatter.
    pub pdf_ptr: Option<Pdf>,
}

/// Schlick's approximation of the reflectance at a dielectric surface:
/// `R0 + (1 - R0) (1 - cos)^5` with `R0 = ((1 - n) / (1 + n))^2`; full
/// reflectance when `1 + n` is zero.
pub open spec fn schlick_spec(cos: int, ref_idx: int) -> int {
    let den = add_spec(ONE as int, ref_idx);
    if den == 0 {
        ONE as int
    } else {
        let r0 = div_spec(sub_spec(ONE as int, ref_idx), den);
        let r0 = mul_spec(r0, r0);
        let x = sub_spec(ONE as int, cos);
        let x5 = mul_spec(mul_spec(mul_spec(mul_spec(x, x), x), x), x);
        add_spec(r0, mul_spec(sub_spec(ONE as int, r0), x5))
    }
}

/// `R0` lies in `[-1, 1]` for a positive refraction index.
proof fn lemma_r0_unit(n: int)
    requires
        0 < n <= i64::MAX,
    ensures
        -ONE <= div_spec(sub_spec(ONE as int, n), add_spec(ONE as int, n)) <= ONE,
        add_spec(ONE as int, n) > 0,
{
    let one = ONE as int;
    let s = sub_spec(one, n);
    let d = add_spec(one, n);
    assert(d > 0);
    assert(-d <= s <= d);
    vstd::arithmetic::div_mod::lemma_fundamental_div_mod(s * one, d);
    let q = (s * one) / d;
    let m = (s * one) % d;
    assert(-one <= q <= one) by (nonlinear_arith)
        requires
            d * q + m == s * one,
            0 <= m < d,
            -d <= s <= d,
            one == 65536,
    ;
}

/// Schlick's approximation of the reflectance.
pub fn schlick(cos: Fx, ref_idx: Fx) -> (r: Fx)
    ensures
        r == schlick_spec(cos as int, ref_idx as int),
        0 <= cos <= ONE && ref_idx > 0 ==> 0 <= r <= ONE,
{
    let den = fixed::add(ONE, ref_idx);
    if den == 0 {
        return ONE;
    }
    let r0 = fixed::div(fixed::sub(ONE, ref_idx), den);
    let r0 = fixed::mul(r0, r0);
    let x = fixed::sub(ONE, cos);
    let x2 = fixed::mul(x, x);
    let x3 = fixed::mul(x2, x);
    let x4 = fixed::mul(x3, x);
    let x5 = fixed::mul(x4, x);
    let rest = fixed::mul(fixed::sub(ONE, r0), x5);
    proof {
        if 0 <= cos <= ONE && ref_idx > 0 {
            let q0 = div_spec(sub_spec(ONE as int, ref_idx as int), add_spec(ONE as int, ref_idx as int));
            lemma_r0_unit(ref_idx as int);
            let one = ONE as int;
            assert(0 <= q0 * q0 <= one * one) by (nonlinear_arith)
                requires
                    -one <= q0 <= one,
            ;
            vstd::arithmetic::div_mod::lemma_fundamental_div_mod(q0 * q0, one);
            assert(0 <= (q0 * q0) / one <= one) by (nonlinear_arith)
                requires
                    one * ((q0 * q0) / one) + (q0 * q0) % one == q0 * q0,
                    0 <= (q0 * q0) % one < one,
                    0 <= q0 * q0 <= one * one,
                    one > 0,
            ;
            fixed::lemma_mul_fraction(x as int, x as int);
            fixed::lemma_mul_fraction(x2 as int, x as int);
            fixed::lemma_mul_fraction(x3 as int, x as int);
            fixed::lemma_mul_fraction(x4 as int, x as int);
            fixed::lemma_mul_fraction(x5 as int, sub_spec(one, r0 as int));
            fixed::lemma_mul_fraction(sub_spec(one, r0 as int), x5 as int);
        }
    }
    fixed::add(r0, rest)
}

/// The ratio of refraction indices and the cosine of the angle of incidence
/// leave no refracted ray: `ratio * sin > 1`, with `sin = sqrt(1 - cos^2)`.
pub open spec fn total_reflection_spec(etai_over_etat: int, cos_theta: int) -> bool {
    let sin_theta = sqrt_spec(sub_spec(ONE as int, mul_spec(cos_theta, cos_theta)));
    mul_spec(etai_over_etat, sin_theta) > ONE
}

/// The ratio of refraction indices a ray meets: `1 / n` entering the
/// surface, `n` leaving it.
pub open spec fn eta_ratio_spec(refraction_index: int, front_face: bool) -> int {
    if front_face {
        if refraction_index == 0 {
            LIMIT as int
        } else {
            div_spec(ONE as int, refraction_index)
        }
    } else {
        refraction_index
    }
}

/// The cosine of the angle between a reversed unit incoming direction and
/// the normal, at most 1.
pub open spec fn incidence_cos_spec(dir: Vec3, normal: Vec3) -> int {
    min_spec(dot_spec(neg_spec(unit_spec(dir)), normal), ONE as int)
}

impl Diel {
    /// A dielectric of the given refraction index.
    pub fn new(refraction_index: Fx) -> (r: Self)
        ensures
            r.refraction_index == refraction_index,
    {
        Diel { refraction_index }
    }

    /// Whether a ray meeting the surface at the given ratio of refraction
    /// indices and cosine of incidence is totally reflected.
    pub fn total_reflection(etai_over_etat: Fx, cos_theta: Fx) -> (r: bool)
        ensures
            r == total_reflection_spec(etai_over_etat as int, cos_theta as int),
    {
        let sin_theta = fixed::sqrt(fixed::sub(ONE, fixed::mul(cos_theta, cos_theta)));
        fixed::mul(etai_over_etat, sin_theta) > ONE
    }

    /// The ratio of refraction indices a ray meets.
    pub fn eta_ratio(&self, front_face: bool) -> (r: Fx)
        ensures
            r == eta_ratio_spec(self.refraction_index as int, front_face),
    {
        if front_face {
            if self.refraction_index == 0 {
                LIMIT
            } else {
                fixed::div(ONE, self.refraction_index)
            }
        } else {
            self.refraction_index
        }
    }
}

impl Metal {
    /// A metal; a fuzz above 1 is taken as 1.
    pub fn new(albedo: Color, fuzz: Fx) -> (r: Self)
        ensures
            r.albedo == albedo,
            r.fuzz == min_spec(fuzz as int, ONE as int),
    {
        Metal { albedo, fuzz: if fuzz < ONE { fuzz } else { ONE } }
    }
}

impl Lambert {
    /// A diffuse material.
    pub fn new(albedo: Texture) -> (r: Self)
        ensures
            r.albedo == albedo,
    {
        Lambert { albedo }
    }
}

impl DiffuseLight {
    /// A light of the given emission.
    pub fn new(emit: Texture) -> (r: Self)
        ensures
            r.emit == emit,
    {
        DiffuseLight { emit }
    }
}

impl Isotropic {
    /// An isotropic medium.
    pub fn new(albedo: Texture) -> (r: Self)
        ensures
            r.albedo == albedo,
    {
        Isotropic { albedo }
    }
}

/// The direction a metal scatters to: the mirror direction `refl`,
/// perturbed by `fuzz` times a point `p` of the unit ball unless the fuzz is
/// zero.
pub open spec fn metal_dir_spec(refl: Vec3, p: Vec3, fuzz: int) -> Vec3 {
    if fuzz == 0 {
        refl
    } else {
        vadd(refl, vscale(p, fuzz))
    }
}

/// A metal scatters along `dir` exactly when it points away from the
/// surface, and absorbs the ray otherwise.
pub open spec fn metal_ok(res: Option<ScatterRecord>, dir: Vec3, rec: HitRecord, r_in: Ray, att: Color) -> bool {
    &&& res is Some <==> dot_spec(dir, rec.normal) > 0
    &&& res is Some ==> specular_ok(res, dir, rec, r_in, att)
}

/// The scatter is the deterministic ray from the hit point along `dir`, at
/// the incoming ray's time, with attenuation `att`.
pub open spec fn specular_ok(res: Option<ScatterRecord>, dir: Vec3, rec: HitRecord, r_in: Ray, att: Color) -> bool {
    match res {
        Some(s) => {
            &&& s.specular_ray == Some(Ray { orig: rec.p, dir, time: r_in.time })
            &&& s.attenuation == att
            &&& s.pdf_ptr is None
        },
        None => false,
    }
}

/// The direction a dielectric sends the unit direction `unit_dir` to, for
/// the ratio of indices `eta` and the uniform draw `u` in `[0, 1)`: the
/// mirror direction under total internal reflection or when `u` falls below
/// Schlick's reflectance, the refracted direction otherwise.
pub open spec fn dielectric_dir_spec(unit_dir: Vec3, normal: Vec3, eta: int, u: int) -> Vec3 {
    let cos_theta = min_spec(dot_spec(neg_spec(unit_dir), normal), ONE as int);
    if total_reflection_spec(eta, cos_theta) || u < schlick_spec(cos_theta, eta) {
        reflect_spec(unit_dir, normal)
    } else {
        refract_spec(unit_dir, normal, eta)
    }
}

/// The direction a dielectric sends a unit direction to, for the draw `u`.
pub fn dielectric_dir(unit_dir: &Vec3, normal: &Vec3, eta: Fx, u: Fx) -> (r: Vec3)
    ensures
        r == dielectric_dir_spec(*unit_dir, *normal, eta as int, u as int),
{
    let cos_theta = fixed::min(unit_dir.neg().dot(normal), ONE);
    if Diel::total_reflection(eta, cos_theta) || u < schlick(cos_theta, eta) {
        Vec3::reflect(unit_dir, normal)
    } else {
        Vec3::refract(unit_dir, normal, eta)
    }
}

/// What `Material::scatter` may return for material `m` struck by `r_in` at
/// `rec`: only a diffuse surface samples by density, with the cosine
/// density around the normal; a light never scatters; a metal scatters along
/// the mirror direction perturbed by its fuzz times a point of the unit ball,
/// exactly when that points away from the surface; a dielectric along
/// `dielectric_dir_spec` for some uniform draw; a medium towards a point of
/// the unit ball; every scattered ray starts at the hit point at the
/// incoming ray's time.
#[verifier::opaque]
pub open spec fn scatter_ok(m: Material, r_in: Ray, rec: HitRecord, res: Option<ScatterRecord>) -> bool {
    &&& res matches Some(s) ==> (s.pdf_ptr is Some <==> m is Lambertian) && (s.specular_ray is Some <==> !(m is Lambertian))
    &&& match m {
        Material::Lambertian(l) => match res {
            Some(s) => {
                &&& s.specular_ray is None
                &&& s.attenuation == texture_value_spec(l.albedo, rec.u as int, rec.v as int, rec.p)
                &&& s.pdf_ptr == Some(Pdf::Cosine(CosPdf { uvw: onb_spec(rec.normal) }))
            },
            None => false,
        },
        Material::Metallic(mm) => {
            let refl = reflect_spec(unit_spec(r_in.dir), rec.normal);
            &&& exists|p: Vec3| dot_spec(p, p) < ONE && metal_ok(res, #[trigger] metal_dir_spec(refl, p, mm.fuzz as int), rec, r_in, mm.albedo)
            &&& mm.fuzz == 0 ==> (res is Some <==> dot_spec(refl, rec.normal) > 0)
                && (res is Some ==> specular_ok(res, refl, rec, r_in, mm.albedo))
        },
        Material::Dielectric(d) => {
            let eta = eta_ratio_spec(d.refraction_index as int, rec.front_face);
            &&& exists|u: int| 0 <= u < ONE && specular_ok(res, #[trigger] dielectric_dir_spec(unit_spec(r_in.dir), rec.normal, eta, u), rec, r_in, Vec3(ONE, ONE, ONE))
            &&& total_reflection_spec(eta, incidence_cos_spec(r_in.dir, rec.normal))
                ==> specular_ok(res, reflect_spec(unit_spec(r_in.dir), rec.normal), rec, r_in, Vec3(ONE, ONE, ONE))
        },
        Material::DiffLight(_) => res is None,
        Material::Iso(i) => exists|p: Vec3| #[trigger] dot_spec(p, p) < ONE
            && specular_ok(res, p, rec, r_in, texture_value_spec(i.albedo, rec.u as int, rec.v as int, rec.p)),
    }
}

/// The light a material emits at a hit: the emission texture for a light
/// struck on its front face, black otherwise.
pub open spec fn emitted_spec(m: Material, rec: HitRecord) -> Color {
    match m {
        Material::DiffLight(d) => if rec.front_face {
            texture_value_spec(d.emit, rec.u as int, rec.v as int, rec.p)
        } else {
            Vec3(0, 0, 0)
        },
        _ => Vec3(0, 0, 0),
    }
}

/// The density with which a diffuse surface scatters towards `dir`:
/// `cos / pi` for the cosine with the normal, zero below the surface.
pub open spec fn lambert_pdf_spec(normal: Vec3, dir: Vec3) -> int {
    let cosine = dot_spec(normal, unit_spec(dir));
    if cosine < 0 {
        0
    } else {
        mul_spec(cosine, FRAC_1_PI as int)
    }
}

impl Material {
    /// How the material scatters the ray `r_in` that struck it at `rec`;
    /// `None` when it absorbs the ray or only emits.
    pub fn scatter(&self, rng: &mut rand_chacha::ChaCha8Rng, r_in: &Ray, rec: &HitRecord) -> (res: Option<ScatterRecord>)
        ensures
            scatter_ok(*self, *r_in, *rec, res),
            res matches Some(s) ==> (s.pdf_ptr is Some <==> *self is Lambertian) && (s.specular_ray is Some <==> !(*self is Lambertian)),
            *self is DiffLight ==> res is None,
    {
        reveal(scatter_ok);
        match self {
            Material::Lambertian(l) => {
                let attenuation = l.albedo.value(rec.u, rec.v, &rec.p);
                Some(ScatterRecord { specular_ray: None, attenuation, pdf_ptr: Some(Pdf::Cosine(CosPdf::new(&rec.normal))) })
            },
            Material::Metallic(m) => {
                let reflected = Vec3::reflect(&r_in.dir.unit_vector(), &rec.normal);
                let p = if m.fuzz == 0 { Vec3(0, 0, 0) } else { Vec3::random_in_unit_sphere(rng) };
                let dir = if m.fuzz == 0 {
                    reflected
                } else {
                    reflected.add(&p.scale(m.fuzz))
                };
                proof {
                    if m.fuzz == 0 {
                        assert(0int * 0int == 0 && 0int / 65536int == 0) by (nonlinear_arith);
                        assert(fixed::floor_div(0int * 0int, ONE as int) == 0);
                        assert(fixed::mul_spec(0, 0) == 0);
                    }
                    assert(dot_spec(p, p) < ONE);
                    assert(metal_dir_spec(reflect_spec(unit_spec(r_in.dir), rec.normal), p, m.fuzz as int) == dir);
                }
                if dir.dot(&rec.normal) > 0 {
                    Some(ScatterRecord { specular_ray: Some(Ray::new(rec.p, dir, r_in.time)), attenuation: m.albedo, pdf_ptr: None })
                } else {
                    None
                }
            },
            Material::Dielectric(d) => {
                let eta = d.eta_ratio(rec.front_face);
                let unit_dir = r_in.dir.unit_vector();
                let u = rng::random_fraction(rng);
                let dir = dielectric_dir(&unit_dir, &rec.normal, eta, u);
                Some(ScatterRecord { specular_ray: Some(Ray::new(rec.p, dir, r_in.time)), attenuation: Vec3(ONE, ONE, ONE), pdf_ptr: None })
            },
            Material::DiffLight(_) => None,
            Material::Iso(i) => {
                let attenuation = i.albedo.value(rec.u, rec.v, &rec.p);
                let dir = Vec3::random_in_unit_sphere(rng);
                Some(ScatterRecord { specular_ray: Some(Ray::new(rec.p, dir, r_in.time)), attenuation, pdf_ptr: None })
            },
        }
    }

    /// The density with which the material scatters towards the direction of
    /// `scattered`; only diffuse materials sample by density.
    pub fn scattering_pdf(&self, rec: &HitRecord, scattered: &Ray) -> (r: Fx)
        requires
            self is Lambertian,
        ensures
            r == lambert_pdf_spec(rec.normal, scattered.dir),
    {
        let cosine = rec.normal.dot(&scattered.dir.unit_vector());
        if cosine < 0 {
            0
        } else {
            fixed::mul(cosine, FRAC_1_PI)
        }
    }

    /// The light the material emits at `rec`.
    pub fn emitted(&self, rec: &HitRecord) -> (r: Color)
        ensures
            r == emitted_spec(*self, *rec),
    {
        match self {
            Material::DiffLight(d) => {
                if rec.front_face {
                    d.emit.value(rec.u, rec.v, &rec.p)
                } else {
                    Vec3(0, 0, 0)
                }
            },
            _ => Vec3(0, 0, 0),
        }
    }
}

} // verus!
