//! The camera, which makes the ray for each sample of each pixel.

use vstd::prelude::*;
use crate::fixed::{self, Fx, ONE};
use crate::ray::Ray;
use crate::rng;
use crate::vec3::{Point3, Vec3};

verus! {

/// A thin-lens camera that is open from `time0` to `time1`.
#[derive(Clone, Copy, Debug)]
pub struct Camera {
    orig: Point3,
    lower_left_corner: Point3,
    horizontal: Vec3,
    vertical: Vec3,
    u: Vec3,
    v: Vec3,
    w: Vec3,
    lens_radius: Fx,
    time0: Fx,
    time1: Fx,
}

impl Camera {
    /// The origin of every ray of a pinhole camera.
    pub closed spec fn origin_spec(self) -> Point3 {
        self.orig
    }

    /// When the exposure opens.
    pub closed spec fn time0_spec(self) -> Fx {
        self.time0
    }

    /// When the exposure closes.
    pub closed spec fn time1_spec(self) -> Fx {
        self.time1
    }

    /// The radius of the lens.
    pub closed spec fn lens_radius_spec(self) -> Fx {
        self.lens_radius
    }

    /// A camera at `lookfrom` looking at `lookat` with `vup` upwards, whose
    /// viewport at distance 1 is `viewport_height` high (that is
    /// `2 tan(vfov / 2)` for the vertical field of view) and `aspect_ratio`
    /// times as wide, with the given aperture and focus distance.
    pub fn new(
        lookfrom: Point3,
        lookat: Point3,
        vup: Vec3,
        viewport_height: Fx,
        aspect_ratio: Fx,
        aperture: Fx,
        focus_dist: Fx,
        time0: Fx,
        time1: Fx,
    ) -> (r: Self)
        ensures
            r.origin_spec() == lookfrom,
            r.lens_radius_spec() == fixed::mul_spec(aperture as int, (ONE / 2) as int),
    {
        let viewport_width = fixed::mul(aspect_ratio, viewport_height);
        let w = lookfrom.sub(&lookat).unit_vector();
        let u = vup.cross(&w).unit_vector();
        let v = w.cross(&u);
        let horizontal = u.scale(fixed::mul(focus_dist, viewport_width));
        let vertical = v.scale(fixed::mul(focus_dist, viewport_height));
        let lower_left_corner = lookfrom.sub(&horizontal.scale(ONE / 2)).sub(&vertical.scale(ONE / 2)).sub(&w.scale(focus_dist));
        Camera {
            orig: lookfrom,
            lower_left_corner,
            horizontal,
            vertical,
            u,
            v,
            w,
            lens_radius: fixed::mul(aperture, ONE / 2),
            time0,
            time1,
        }
    }

    /// The camera at the origin looking down the negative z axis with a
    /// 90 degree vertical field of view, for an image of the given size.
    pub fn new_with(img_w: u32, img_h: u32) -> (r: Self)
        requires
            img_h > 0,
        ensures
            r.origin_spec() == Vec3(0, 0, 0),
            r.lens_radius_spec() == 0,
    {
        let aspect = fixed::div(img_w as i64 * ONE, img_h as i64 * ONE);
        Camera::new(Vec3(0, 0, 0), Vec3(0, 0, -ONE), Vec3(0, ONE, 0), 2 * ONE, aspect, 0, ONE, 0, ONE)
    }

    /// The ray through the viewport at fractions `s` across and `t` up,
    /// from a random point of the lens, at a random time of the exposure.
    pub fn get_ray(&self, rng: &mut rand_chacha::ChaCha8Rng, s: Fx, t: Fx) -> (r: Ray)
        ensures
            self.lens_radius_spec() == 0 ==> r.orig == self.origin_spec(),
            self.time0_spec() < self.time1_spec() ==> self.time0_spec() <= r.time < self.time1_spec(),
            self.time0_spec() >= self.time1_spec() ==> r.time == self.time0_spec(),
    {
        let offset = if self.lens_radius == 0 {
            Vec3(0, 0, 0)
        } else {
            let rd = Vec3::random_in_unit_circle(rng).scale(self.lens_radius);
            self.u.scale(rd.0).add(&self.v.scale(rd.1))
        };
        let target = self.lower_left_corner.add(&self.horizontal.scale(s)).add(&self.vertical.scale(t));
        let time = if self.time0 < self.time1 {
            rng::random_range(rng, self.time0, self.time1)
        } else {
            self.time0
        };
        let orig = if self.lens_radius == 0 { self.orig } else { self.orig.add(&offset) };
        Ray::new(orig, target.sub(&self.orig).sub(&offset), time)
    }
}

} // verus!
