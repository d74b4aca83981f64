//! Rays: an origin, a direction and the time at which the ray exists.

use vstd::prelude::*;
use crate::fixed::{Fx, ONE, LIMIT};
use crate::hittable::{Hittable, HitRecord, Scene, hit_ok};
use crate::material::{Material, ScatterRecord, emitted_spec, lambert_pdf_spec, scatter_ok};
use crate::onb::onb_spec;
use crate::texture::texture_value_spec;
use crate::pdf::{HittablePdf, MixturePdf, Pdf, T_EPSILON, shape_pdf_spec, density_spec, shape_outcome, generate_ok};
use crate::vec3::{Color, Point3, Vec3, vadd, vscale, vmul, vdiv};

verus! {

/// A ray, immutable once made.
#[derive(Clone, Copy, Debug, PartialEq, Eq, Structural)]
pub struct Ray {
    /// The origin.
    pub orig: Point3,
    /// The direction.
    pub dir: Vec3,
    /// The time at which the ray exists.
    pub time: Fx,
}

/// The point at parameter `t` along a ray.
pub open spec fn at_spec(r: Ray, t: int) -> Point3 {
    vadd(r.orig, vscale(r.dir, t))
}

impl Ray {
    /// A ray from its origin, direction and time.
    pub fn new(orig: Point3, dir: Vec3, time: Fx) -> (r: Self)
        ensures
            r == (Ray { orig, dir, time }),
    {
        Ray { orig, dir, time }
    }

    /// The origin.
    pub fn origin(&self) -> (r: Point3)
        ensures
            r == self.orig,
    {
        self.orig
    }

    /// The direction.
    pub fn direction(&self) -> (r: Vec3)
        ensures
            r == self.dir,
    {
        self.dir
    }

    /// The time.
    pub fn time(&self) -> (r: Fx)
        ensures
            r == self.time,
    {
        self.time
    }

    /// The point at parameter `t`: `origin + t * direction`.
    pub fn at(&self, t: Fx) -> (r: Point3)
        ensures
            r == at_spec(*self, t as int),
    {
        self.orig.add(&self.dir.scale(t))
    }
}

/// Densities at or below this are taken as zero: the sample contributes no
/// reflected light rather than a division by almost nothing.
pub const PDF_EPSILON: Fx = 1;

/// The light leaving a surface that scatters deterministically: what it
/// emits plus the incoming light times the attenuation.
pub open spec fn specular_shade_spec(emitted: Color, attenuation: Color, incoming: Color) -> Color {
    vadd(emitted, vmul(attenuation, incoming))
}

/// The light leaving a surface that scatters by density, for one sampled
/// direction: what it emits plus the incoming light times the attenuation,
/// weighted by the scattering density over the sampling density.
pub open spec fn sampled_shade_spec(emitted: Color, attenuation: Color, scattering_pdf: int, incoming: Color, pdf_val: int) -> Color {
    vadd(emitted, vdiv(vscale(vmul(attenuation, incoming), scattering_pdf), pdf_val))
}

/// The light leaving a surface that scatters deterministically.
pub fn specular_shade(emitted: &Color, attenuation: &Color, incoming: &Color) -> (r: Color)
    ensures
        r == specular_shade_spec(*emitted, *attenuation, *incoming),
{
    emitted.add(&attenuation.mul(incoming))
}

/// The light leaving a surface that scatters by density, for one sampled
/// direction whose sampling density is `pdf_val`.
pub fn sampled_shade(emitted: &Color, attenuation: &Color, scattering_pdf: Fx, incoming: &Color, pdf_val: Fx) -> (r: Color)
    requires
        pdf_val != 0,
    ensures
        r == sampled_shade_spec(*emitted, *attenuation, scattering_pdf as int, *incoming, pdf_val as int),
{
    emitted.add(&attenuation.mul(incoming).scale(scattering_pdf).div(pdf_val))
}

/// The direction `dir` is one the mixture of sampling towards object
/// `lights` from the hit point and sampling from `p` may give.
pub open spec fn sample_ok(objs: Seq<Hittable>, lights: usize, rec: HitRecord, p: Pdf, dir: Vec3) -> bool {
    shape_outcome(objs, lights as int, rec.p, dir) || generate_ok(p, objs, dir)
}

/// The density of the equal mixture of sampling towards object `lights` from
/// the hit point and sampling from `p`, at `dir`.
pub open spec fn mixture_density_spec(objs: Seq<Hittable>, lights: usize, rec: HitRecord, p: Pdf, dir: Vec3) -> int {
    (shape_pdf_spec(objs, lights as int, rec.p, dir) + density_spec(p, objs, dir)) / 2
}

/// One bounce of a trace along `r`, for the hit result `res`, the scatter
/// result `s`, the next ray `next` and the color `inc` arriving along it:
/// the background on a miss; on a hit, for a scatter `Material::scatter`
/// may give, the emission when the material does not scatter; the emission
/// plus the attenuation times `inc` for a deterministic scatter along
/// `next`; for a sampled one, `next` leaves the hit point at the ray's time
/// along a direction the mixture of the lights and the surface's density may
/// give, and the color is the emission when the mixture density there is at
/// most `PDF_EPSILON`, else the emission plus the attenuation times `inc`
/// weighted by the surface's density over the mixture density.
pub open spec fn step_ok(
    objs: Seq<Hittable>,
    mats: Seq<Material>,
    lights: usize,
    bg: Color,
    r: Ray,
    res: Option<HitRecord>,
    s: Option<ScatterRecord>,
    next: Ray,
    inc: Color,
    c: Color,
) -> bool {
    match res {
        None => c == bg,
        Some(rec) => {
            let m = mats[rec.material as int];
            let em = emitted_spec(m, rec);
            &&& scatter_ok(m, r, rec, s)
            &&& match s {
                None => c == em,
                Some(sr) => match sr.specular_ray {
                    Some(out) => next == out && c == specular_shade_spec(em, sr.attenuation, inc),
                    None => match sr.pdf_ptr {
                        None => c == em,
                        Some(p) => {
                            let pv = mixture_density_spec(objs, lights, rec, p, next.dir);
                            &&& next == (Ray { orig: rec.p, dir: next.dir, time: r.time })
                            &&& sample_ok(objs, lights, rec, p, next.dir)
                            &&& if pv <= PDF_EPSILON {
                                c == em
                            } else {
                                c == sampled_shade_spec(em, sr.attenuation, lambert_pdf_spec(rec.normal, next.dir), inc, pv)
                            }
                        },
                    },
                },
            }
        },
    }
}

/// The bounce's color depends on the light `inc` arriving along `next`.
pub open spec fn step_traces(objs: Seq<Hittable>, lights: usize, res: Option<HitRecord>, s: Option<ScatterRecord>, next: Ray) -> bool {
    match (res, s) {
        (Some(rec), Some(sr)) => match sr.specular_ray {
            Some(_) => true,
            None => match sr.pdf_ptr {
                Some(p) => mixture_density_spec(objs, lights, rec, p, next.dir) > PDF_EPSILON,
                None => false,
            },
        },
        _ => false,
    }
}

/// `c` is a color that tracing `r` through object `world` for `depth`
/// bounces may give, for some outcome of every random step: black at depth
/// 0; else a bounce (`step_ok`) for a result `Scene::hit` may give, whose
/// incoming light, when it is used, is itself such a color of the next ray
/// at one bounce less.
pub open spec fn color_ok(objs: Seq<Hittable>, mats: Seq<Material>, world: usize, lights: usize, bg: Color, r: Ray, depth: nat, c: Color) -> bool
    decreases depth,
{
    if depth == 0 {
        c == Vec3(0, 0, 0)
    } else {
        exists|res: Option<HitRecord>, s: Option<ScatterRecord>, next: Ray, inc: Color|
            #[trigger] step_ok(objs, mats, lights, bg, r, res, s, next, inc, c)
            && hit_ok(objs, mats.len() as int, world as int, r, T_EPSILON as int, LIMIT as int, res)
            && (step_traces(objs, lights, res, s, next) ==> color_ok(objs, mats, world, lights, bg, next, (depth - 1) as nat, inc))
    }
}

/// The light arriving along `r` from object `world` of the scene, followed
/// through at most `max_depth` bounces; diffuse bounces sample an equal
/// mixture of directions towards object `lights` and of the surface's own
/// density. A ray that misses everything brings the background color.
#[verifier::spinoff_prover]
#[verifier::rlimit(80)]
pub fn ray_color(
    rng: &mut rand_chacha::ChaCha8Rng,
    r: &Ray,
    background: &Color,
    scene: &Scene,
    world: usize,
    lights: usize,
    max_depth: u32,
) -> (c: Color)
    requires
        scene.wf(),
        world < scene.objects@.len(),
    ensures
        color_ok(scene.objects@, scene.materials@, world, lights, *background, *r, max_depth as nat, c),
        max_depth == 0 ==> c == Vec3(0, 0, 0),
    decreases max_depth,
{
    if max_depth == 0 {
        return Vec3(0, 0, 0);
    }
    let hit = scene.hit(world, r, T_EPSILON, LIMIT, rng);
    let ghost objs = scene.objects@;
    let ghost mats = scene.materials@;
    let ghost d1 = (max_depth - 1) as nat;
    let rec = match hit {
        Some(rec) => rec,
        None => {
            proof {
                assert(step_ok(objs, mats, lights, *background, *r, hit, None, *r, *background, *background));
            }
            return *background;
        },
    };
    let material = &scene.materials[rec.material];
    let emitted = material.emitted(&rec);
    let scat = material.scatter(rng, r, &rec);
    let srec = match scat {
        Some(s) => s,
        None => {
            proof {
                assert(step_ok(objs, mats, lights, *background, *r, hit, scat, *r, emitted, emitted));
            }
            return emitted;
        },
    };
    match srec.specular_ray {
        Some(out) => {
            let incoming = ray_color(rng, &out, background, scene, world, lights, max_depth - 1);
            let c = specular_shade(&emitted, &srec.attenuation, &incoming);
            proof {
                assert(step_ok(objs, mats, lights, *background, *r, hit, scat, out, incoming, c));
                assert(step_traces(objs, lights, hit, scat, out) ==> color_ok(objs, mats, world, lights, *background, out, d1, incoming));
            }
            c
        },
        None => {
            let own = match srec.pdf_ptr {
                Some(p) => p,
                None => {
                    proof {
                        assert(step_ok(objs, mats, lights, *background, *r, hit, scat, *r, emitted, emitted));
                    }
                    return emitted;
                },
            };
            let mixture = Pdf::Mixture(MixturePdf::new(Pdf::Hittable(HittablePdf::new(&rec.p, lights)), own));
            let dir = mixture.generate(scene, rng);
            proof {
                reveal_with_fuel(crate::pdf::generate_ok, 2);
            }
            let scattered = Ray::new(rec.p, dir, r.time);
            let pdf_val = mixture.value(scene, &dir);
            proof {
                reveal_with_fuel(crate::pdf::density_spec, 3);
                assert(pdf_val == mixture_density_spec(objs, lights, rec, own, dir));
                assert(sample_ok(objs, lights, rec, own, dir));
            }
            if pdf_val <= PDF_EPSILON {
                proof {
                    assert(step_ok(objs, mats, lights, *background, *r, hit, scat, scattered, emitted, emitted));
                }
                return emitted;
            }
            let s_pdf = material.scattering_pdf(&rec, &scattered);
            let incoming = ray_color(rng, &scattered, background, scene, world, lights, max_depth - 1);
            let c = sampled_shade(&emitted, &srec.attenuation, s_pdf, &incoming, pdf_val);
            proof {
                assert(step_ok(objs, mats, lights, *background, *r, hit, scat, scattered, incoming, c));
                assert(color_ok(objs, mats, world, lights, *background, scattered, d1, incoming));
            }
            c
        },
    }
}

} // verus!
