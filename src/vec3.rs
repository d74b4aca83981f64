//! Three-component fixed-point vectors, used as points, directions and colors.

use vstd::prelude::*;
use crate::fixed::{self, Fx, ONE, add_spec, sub_spec, mul_spec, div_spec, sqrt_spec, clamp};
use crate::rng;

verus! {

/// A vector of three fixed-point components.
#[derive(Clone, Copy, Debug, PartialEq, Eq, Structural)]
pub struct Vec3(pub Fx, pub Fx, pub Fx);

/// An 8-bit color, as written to an image.
#[derive(Clone, Copy, Debug, PartialEq, Eq, Structural)]
pub struct ColorU8(pub u8, pub u8, pub u8);

/// A color (red, green, blue).
pub type Color = Vec3;

/// A point (x, y, z).
pub type Point3 = Vec3;

/// Component-wise sum.
pub open spec fn vadd(a: Vec3, b: Vec3) -> Vec3 {
    Vec3(add_spec(a.0 as int, b.0 as int) as i64, add_spec(a.1 as int, b.1 as int) as i64, add_spec(a.2 as int, b.2 as int) as i64)
}

/// Component-wise difference.
pub open spec fn vsub(a: Vec3, b: Vec3) -> Vec3 {
    Vec3(sub_spec(a.0 as int, b.0 as int) as i64, sub_spec(a.1 as int, b.1 as int) as i64, sub_spec(a.2 as int, b.2 as int) as i64)
}

/// Component-wise product.
pub open spec fn vmul(a: Vec3, b: Vec3) -> Vec3 {
    Vec3(mul_spec(a.0 as int, b.0 as int) as i64, mul_spec(a.1 as int, b.1 as int) as i64, mul_spec(a.2 as int, b.2 as int) as i64)
}

/// Every component multiplied by `s`.
pub open spec fn vscale(a: Vec3, s: int) -> Vec3 {
    Vec3(mul_spec(a.0 as int, s) as i64, mul_spec(a.1 as int, s) as i64, mul_spec(a.2 as int, s) as i64)
}

/// Every component divided by a non-zero `s`.
pub open spec fn vdiv(a: Vec3, s: int) -> Vec3 {
    Vec3(div_spec(a.0 as int, s) as i64, div_spec(a.1 as int, s) as i64, div_spec(a.2 as int, s) as i64)
}

/// The dot product.
pub open spec fn dot_spec(a: Vec3, b: Vec3) -> int {
    clamp(mul_spec(a.0 as int, b.0 as int) + mul_spec(a.1 as int, b.1 as int) + mul_spec(a.2 as int, b.2 as int))
}

/// The cross product.
pub open spec fn cross_spec(a: Vec3, b: Vec3) -> Vec3 {
    Vec3(
        sub_spec(mul_spec(a.1 as int, b.2 as int), mul_spec(a.2 as int, b.1 as int)) as i64,
        sub_spec(mul_spec(a.2 as int, b.0 as int), mul_spec(a.0 as int, b.2 as int)) as i64,
        sub_spec(mul_spec(a.0 as int, b.1 as int), mul_spec(a.1 as int, b.0 as int)) as i64,
    )
}

/// The length of a vector.
pub open spec fn length_spec(a: Vec3) -> int {
    sqrt_spec(dot_spec(a, a))
}

/// The vector scaled to unit length; the zero-length vector is kept as it is.
pub open spec fn unit_spec(a: Vec3) -> Vec3 {
    if length_spec(a) == 0 {
        a
    } else {
        vdiv(a, length_spec(a))
    }
}

/// The mirror image of `v` about the normal `n`.
pub open spec fn reflect_spec(v: Vec3, n: Vec3) -> Vec3 {
    vsub(v, vscale(n, add_spec(dot_spec(v, n), dot_spec(v, n))))
}

/// The vector with every component negated.
pub open spec fn neg_spec(a: Vec3) -> Vec3 {
    Vec3(clamp(-a.0) as i64, clamp(-a.1) as i64, clamp(-a.2) as i64)
}

/// The refraction of the unit vector `uv` through a surface with normal `n`
/// for the ratio of indices `eta`: the part along the surface,
/// `eta (uv + cos n)` with `cos = -uv . n`, plus `-sqrt(1 - |that|^2) n`.
pub open spec fn refract_spec(uv: Vec3, n: Vec3, eta: int) -> Vec3 {
    let cos_theta = dot_spec(neg_spec(uv), n);
    let par = vscale(vadd(uv, vscale(n, cos_theta)), eta);
    let perp = vscale(n, clamp(-sqrt_spec(sub_spec(ONE as int, dot_spec(par, par)))));
    vadd(par, perp)
}

/// `p` when it lies on the side of `normal`, else `p` reversed.
pub open spec fn hemisphere_of(p: Vec3, normal: Vec3) -> Vec3 {
    if dot_spec(p, normal) > 0 {
        p
    } else {
        neg_spec(p)
    }
}

impl Vec3 {
    /// A vector from its three components.
    pub fn new(a: Fx, b: Fx, c: Fx) -> (r: Self)
        ensures
            r == Vec3(a, b, c),
    {
        Vec3(a, b, c)
    }

    /// A vector with the same value in every component.
    pub fn new_with(a: Fx) -> (r: Self)
        ensures
            r == Vec3(a, a, a),
    {
        Vec3(a, a, a)
    }

    /// The first component.
    pub fn x(&self) -> (r: Fx)
        ensures
            r == self.0,
    {
        self.0
    }

    /// The second component.
    pub fn y(&self) -> (r: Fx)
        ensures
            r == self.1,
    {
        self.1
    }

    /// The third component.
    pub fn z(&self) -> (r: Fx)
        ensures
            r == self.2,
    {
        self.2
    }

    /// Component-wise sum.
    pub fn add(&self, o: &Self) -> (r: Self)
        ensures
            r == vadd(*self, *o),
    {
        Vec3(fixed::add(self.0, o.0), fixed::add(self.1, o.1), fixed::add(self.2, o.2))
    }

    /// Component-wise difference.
    pub fn sub(&self, o: &Self) -> (r: Self)
        ensures
            r == vsub(*self, *o),
    {
        Vec3(fixed::sub(self.0, o.0), fixed::sub(self.1, o.1), fixed::sub(self.2, o.2))
    }

    /// Component-wise product, as for colors.
    pub fn mul(&self, o: &Self) -> (r: Self)
        ensures
            r == vmul(*self, *o),
    {
        Vec3(fixed::mul(self.0, o.0), fixed::mul(self.1, o.1), fixed::mul(self.2, o.2))
    }

    /// Every component multiplied by `s`.
    pub fn scale(&self, s: Fx) -> (r: Self)
        ensures
            r == vscale(*self, s as int),
    {
        Vec3(fixed::mul(self.0, s), fixed::mul(self.1, s), fixed::mul(self.2, s))
    }

    /// Every component divided by `s`.
    pub fn div(&self, s: Fx) -> (r: Self)
        requires
            s != 0,
        ensures
            r == vdiv(*self, s as int),
    {
        Vec3(fixed::div(self.0, s), fixed::div(self.1, s), fixed::div(self.2, s))
    }

    /// The vector with every component negated.
    pub fn neg(&self) -> (r: Self)
        ensures
            r == neg_spec(*self),
    {
        Vec3(fixed::clamp_wide(-(self.0 as i128)), fixed::clamp_wide(-(self.1 as i128)), fixed::clamp_wide(-(self.2 as i128)))
    }

    /// The dot product.
    pub fn dot(&self, v: &Self) -> (r: Fx)
        ensures
            r == dot_spec(*self, *v),
    {
        let a = fixed::mul(self.0, v.0);
        let b = fixed::mul(self.1, v.1);
        let c = fixed::mul(self.2, v.2);
        fixed::clamp_wide(a as i128 + b as i128 + c as i128)
    }

    /// The squared length.
    pub fn length_squared(&self) -> (r: Fx)
        ensures
            r == dot_spec(*self, *self),
    {
        self.dot(self)
    }

    /// The length.
    pub fn length(&self) -> (r: Fx)
        ensures
            r == length_spec(*self),
            r >= 0,
    {
        fixed::sqrt(self.length_squared())
    }

    /// The cross product.
    pub fn cross(&self, v: &Self) -> (r: Self)
        ensures
            r == cross_spec(*self, *v),
    {
        Vec3(
            fixed::sub(fixed::mul(self.1, v.2), fixed::mul(self.2, v.1)),
            fixed::sub(fixed::mul(self.2, v.0), fixed::mul(self.0, v.2)),
            fixed::sub(fixed::mul(self.0, v.1), fixed::mul(self.1, v.0)),
        )
    }

    /// The vector scaled to unit length; a zero-length vector is returned as
    /// it is rather than divided by zero.
    pub fn unit_vector(&self) -> (r: Self)
        ensures
            r == unit_spec(*self),
    {
        let len = self.length();
        if len == 0 {
            *self
        } else {
            self.div(len)
        }
    }

    /// The mirror image of `v` about the normal `n`.
    pub fn reflect(v: &Self, n: &Self) -> (r: Self)
        ensures
            r == reflect_spec(*v, *n),
    {
        let d = v.dot(n);
        v.sub(&n.scale(fixed::add(d, d)))
    }

    /// The refraction of the unit vector `uv` through a surface with normal
    /// `n`, for the ratio of refraction indices `etai_over_etat`.
    pub fn refract(uv: &Self, n: &Self, etai_over_etat: Fx) -> (r: Self)
        ensures
            r == refract_spec(*uv, *n, etai_over_etat as int),
    {
        let cos_theta = uv.neg().dot(n);
        let par = uv.add(&n.scale(cos_theta)).scale(etai_over_etat);
        let root = fixed::sqrt(fixed::sub(ONE, par.length_squared()));
        let perp = n.scale(fixed::clamp_wide(-(root as i128)));
        par.add(&perp)
    }

    /// A vector with every component drawn from `[0, 1)`.
    pub fn random(rng: &mut rand_chacha::ChaCha8Rng) -> (r: Self)
        ensures
            0 <= r.0 < ONE,
            0 <= r.1 < ONE,
            0 <= r.2 < ONE,
    {
        let a = rng::random_fraction(rng);
        let b = rng::random_fraction(rng);
        let c = rng::random_fraction(rng);
        Vec3(a, b, c)
    }

    /// A vector with every component drawn from `[min, max)`.
    pub fn random_range(rng: &mut rand_chacha::ChaCha8Rng, min: Fx, max: Fx) -> (r: Self)
        requires
            min < max,
        ensures
            min <= r.0 < max,
            min <= r.1 < max,
            min <= r.2 < max,
    {
        let a = rng::random_range(rng, min, max);
        let b = rng::random_range(rng, min, max);
        let c = rng::random_range(rng, min, max);
        Vec3(a, b, c)
    }

    /// A point inside the unit sphere, by rejection; after a bounded number
    /// of rejected draws the centre is returned.
    pub fn random_in_unit_sphere(rng: &mut rand_chacha::ChaCha8Rng) -> (r: Self)
        ensures
            dot_spec(r, r) < ONE,
            -ONE < r.0 < ONE,
            -ONE < r.1 < ONE,
            -ONE < r.2 < ONE,
    {
        let mut tries: u32 = 0;
        while tries < 64
            decreases 64 - tries,
        {
            let p = Self::random_range(rng, -ONE + 1, ONE);
            if p.length_squared() < ONE {
                return p;
            }
            tries = tries + 1;
        }
        Vec3(0, 0, 0)
    }

    /// A direction of unit length: a point drawn inside the unit sphere,
    /// scaled to unit length (the zero vector stays as it is).
    pub fn random_unit_vector(rng: &mut rand_chacha::ChaCha8Rng) -> (r: Self)
        ensures
            exists|p: Vec3| dot_spec(p, p) < ONE && #[trigger] unit_spec(p) == r,
    {
        let p = Self::random_in_unit_sphere(rng);
        let r = p.unit_vector();
        assert(unit_spec(p) == r);
        r
    }

    /// A point inside the unit disk of the `z = 0` plane, by rejection; after
    /// a bounded number of rejected draws the centre is returned.
    pub fn random_in_unit_circle(rng: &mut rand_chacha::ChaCha8Rng) -> (r: Self)
        ensures
            r.2 == 0,
            dot_spec(r, r) < ONE,
            -ONE < r.0 < ONE,
            -ONE < r.1 < ONE,
    {
        let mut tries: u32 = 0;
        while tries < 64
            decreases 64 - tries,
        {
            let a = rng::random_range(rng, -ONE + 1, ONE);
            let b = rng::random_range(rng, -ONE + 1, ONE);
            let p = Vec3(a, b, 0);
            if p.length_squared() < ONE {
                return p;
            }
            tries = tries + 1;
        }
        Vec3(0, 0, 0)
    }

    /// A point inside the unit sphere on the same side as `normal`: a drawn
    /// point, reversed when it lies on the other side.
    pub fn random_in_hemisphere(rng: &mut rand_chacha::ChaCha8Rng, normal: &Self) -> (r: Self)
        ensures
            exists|p: Vec3| dot_spec(p, p) < ONE && #[trigger] hemisphere_of(p, *normal) == r,
            -ONE < r.0 < ONE,
            -ONE < r.1 < ONE,
            -ONE < r.2 < ONE,
    {
        let p = Self::random_in_unit_sphere(rng);
        let r = if p.dot(normal) > 0 {
            p
        } else {
            p.neg()
        };
        assert(hemisphere_of(p, *normal) == r);
        r
    }
}

} // verus!
