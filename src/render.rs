//! The color of one pixel: the average of many ray samples.

use vstd::prelude::*;
use crate::camera::Camera;
use crate::fixed::{self, ONE};
use crate::hittable::Scene;
use crate::hittable::Hittable;
use crate::material::Material;
use crate::ray::{Ray, color_ok, ray_color};
use crate::rng;
use crate::vec3::{Color, ColorU8, Vec3, vadd};
use crate::conversion::{color_u8_spec, gamma_u8_spec};

verus! {

/// The sum of a sequence of colors.
pub open spec fn sum_colors(cs: Seq<Color>) -> Color
    decreases cs.len(),
{
    if cs.len() == 0 {
        Vec3(0, 0, 0)
    } else {
        vadd(sum_colors(cs.drop_last()), cs.last())
    }
}

/// `c` is a color that tracing some ray through object `world` for `depth`
/// bounces may give.
pub open spec fn traced_color(objs: Seq<Hittable>, mats: Seq<Material>, world: usize, lights: usize, bg: Color, depth: nat, c: Color) -> bool {
    exists|r: Ray| #[trigger] color_ok(objs, mats, world, lights, bg, r, depth, c)
}

/// The 8-bit color of pixel `(i, j)`, counted from the lower left, of an
/// image `img_w` by `img_h`: the gamma-corrected mean of `samples` rays
/// through random points of the pixel, each followed for at most
/// `max_depth` bounces: the byte color of the sum of `samples` colors, each
/// one that tracing a ray may give.
pub fn render_pixel(
    rng: &mut rand_chacha::ChaCha8Rng,
    cam: &Camera,
    scene: &Scene,
    world: usize,
    lights: usize,
    background: &Color,
    i: u32,
    j: u32,
    img_w: u32,
    img_h: u32,
    samples: u32,
    max_depth: u32,
) -> (res: ColorU8)
    requires
        scene.wf(),
        world < scene.objects@.len(),
        img_w > 1,
        img_h > 1,
        samples > 0,
    ensures
        exists|cs: Seq<Color>| {
            &&& cs.len() == samples
            &&& forall|k: int| 0 <= k < cs.len() ==> traced_color(scene.objects@, scene.materials@, world, lights, *background, max_depth as nat, #[trigger] cs[k])
            &&& #[trigger] color_u8_spec(sum_colors(cs), samples as int) == res
        },
        max_depth == 0 ==> res == ColorU8(0, 0, 0),
{
    let mut sum = Vec3(0, 0, 0);
    let mut k: u32 = 0;
    let ghost mut cs: Seq<Color> = Seq::empty();
    while k < samples
        invariant
            scene.wf(),
            world < scene.objects@.len(),
            img_w > 1,
            img_h > 1,
            max_depth == 0 ==> sum == Vec3(0, 0, 0),
            k <= samples,
            cs.len() == k,
            sum == sum_colors(cs),
            forall|q: int| 0 <= q < cs.len() ==> traced_color(scene.objects@, scene.materials@, world, lights, *background, max_depth as nat, #[trigger] cs[q]),
        decreases samples - k,
    {
        let du = rng::random_fraction(rng);
        let dv = rng::random_fraction(rng);
        let u = fixed::div(i as i64 * ONE + du, (img_w as i64 - 1) * ONE);
        let v = fixed::div(j as i64 * ONE + dv, (img_h as i64 - 1) * ONE);
        let r = cam.get_ray(rng, u, v);
        let c = ray_color(rng, &r, background, scene, world, lights, max_depth);
        proof {
            assert(traced_color(scene.objects@, scene.materials@, world, lights, *background, max_depth as nat, c));
            let old_cs = cs;
            cs = cs.push(c);
            assert(cs.drop_last() =~= old_cs);
        }
        sum = sum.add(&c);
        k = k + 1;
    }
    let res = sum.into_u8_color(samples);
    proof {
        assert(color_u8_spec(sum_colors(cs), samples as int) == res);
        if max_depth == 0 {
            assert(0int / (samples as int) == 0) by (nonlinear_arith)
                requires
                    samples > 0,
            ;
            assert(gamma_u8_spec(0, samples as int) == 0);
        }
    }
    res
}

} // verus!
