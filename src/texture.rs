//! Textures: maps from surface coordinates and a point to a color.

use vstd::prelude::*;
use crate::fixed::{self, Fx, ONE, mul_spec};
use crate::sphere::PI;
use crate::vec3::{Color, Point3, Vec3};

verus! {

/// A texture of one color.
#[derive(Clone, Copy, Debug, PartialEq, Eq, Structural)]
pub struct SolidColor {
    color: Color,
}

/// A checkerboard in space: `odd` where `sin(10x) sin(10y) sin(10z) < 0`,
/// `even` elsewhere.
pub struct Checker {
    /// The texture of the odd cells.
    pub odd: Box<Texture>,
    /// The texture of the even cells.
    pub even: Box<Texture>,
}

/// A texture that looks colors up in an RGB image of 8-bit channels, stored
/// row by row.
#[derive(Debug)]
pub struct ImageTexture {
    data: Vec<u8>,
    width: u32,
    height: u32,
    bytes_per_pixel: u32,
    bytes_per_scanline: u32,
}

/// The closed set of textures.
pub enum Texture {
    /// One color.
    Solid(SolidColor),
    /// A checkerboard of two textures.
    Checker(Checker),
    /// An image.
    Image(ImageTexture),
}

impl SolidColor {
    /// The color of the texture.
    pub closed spec fn color_spec(self) -> Color {
        self.color
    }

    /// A texture of the color `(a, b, c)`.
    pub fn new(a: Fx, b: Fx, c: Fx) -> (r: Self)
        ensures
            r.color_spec() == Vec3(a, b, c),
    {
        SolidColor { color: Vec3(a, b, c) }
    }

    /// A gray texture with `a` in every channel.
    pub fn new_with(a: Fx) -> (r: Self)
        ensures
            r.color_spec() == Vec3(a, a, a),
    {
        SolidColor { color: Vec3(a, a, a) }
    }

    /// A texture of the given color.
    pub fn from_color(color: Color) -> (r: Self)
        ensures
            r.color_spec() == color,
    {
        SolidColor { color }
    }

    /// The color, wherever it is asked for.
    pub fn value(&self) -> (r: Color)
        ensures
            r == self.color_spec(),
    {
        self.color
    }
}

/// The sign of `sin(theta)`: `0` on the multiples of pi, `1` where the
/// number of half turns below `theta` is even, `-1` where it is odd.
pub open spec fn sin_sign_spec(theta: int) -> int {
    let q = theta / (PI as int);
    if theta % (PI as int) == 0 {
        0
    } else if q % 2 == 0 {
        1
    } else {
        -1
    }
}

/// Whether the odd cell of the checkerboard holds `p`: no factor of the sine
/// product is zero and an odd number of them are negative.
pub open spec fn checker_odd_spec(p: Point3) -> bool {
    let sx = sin_sign_spec(mul_spec(10 * ONE as int, p.0 as int));
    let sy = sin_sign_spec(mul_spec(10 * ONE as int, p.1 as int));
    let sz = sin_sign_spec(mul_spec(10 * ONE as int, p.2 as int));
    sx != 0 && sy != 0 && sz != 0 && ((sx < 0) != (sy < 0)) != (sz < 0)
}

/// The sign of `sin(theta)`.
fn sin_sign(theta: Fx) -> (r: i8)
    ensures
        r == sin_sign_spec(theta as int),
{
    let q = if theta >= 0 { theta / PI } else { -((-(theta as i128) + PI as i128 - 1) / PI as i128) as i64 };
    let m = theta as i128 - q as i128 * PI as i128;
    proof {
        let ti = theta as int;
        let pi = PI as int;
        vstd::arithmetic::div_mod::lemma_fundamental_div_mod(ti, pi);
        if theta >= 0 {
            assert(q == ti / pi);
        } else {
            let qq = (-ti + pi - 1) / pi;
            vstd::arithmetic::div_mod::lemma_fundamental_div_mod(-ti + pi - 1, pi);
            let mm = (-ti + pi - 1) % pi;
            assert(ti == (-qq) * pi + (pi - 1 - mm)) by (nonlinear_arith)
                requires
                    pi * qq + mm == -ti + pi - 1,
            ;
            vstd::arithmetic::div_mod::lemma_fundamental_div_mod_converse(ti, pi, -qq, pi - 1 - mm);
        }
        assert(m == ti % pi);
    }
    if m == 0 {
        0
    } else if q % 2 == 0 {
        1
    } else {
        -1
    }
}

impl ImageTexture {
    /// The buffer holds three bytes for each of `width * height` pixels.
    #[verifier::type_invariant]
    spec fn inv(self) -> bool {
        &&& self.bytes_per_pixel == 3
        &&& self.bytes_per_scanline == 3 * self.width
        &&& self.data@.len() == 3 * self.width * self.height
    }

    /// The pixel bytes.
    pub closed spec fn data_spec(self) -> Seq<u8> {
        self.data@
    }

    /// The width in pixels.
    pub closed spec fn width_spec(self) -> nat {
        self.width as nat
    }

    /// The height in pixels.
    pub closed spec fn height_spec(self) -> nat {
        self.height as nat
    }

    /// A texture over an RGB image of `width * height` pixels, given row by
    /// row; `None` unless `data` holds three bytes for each pixel and a row's
    /// length in bytes fits in `u32`.
    pub fn from_raw(data: Vec<u8>, width: u32, height: u32) -> (r: Option<Self>)
        ensures
            r is Some <==> (data@.len() == 3 * width * height && 3 * width <= u32::MAX),
            r matches Some(t) ==> t.data_spec() == data@ && t.width_spec() == width && t.height_spec() == height,
    {
        if width > 0x5555_5555 {
            return None;
        }
        assert((width as int) * (height as int) <= 0xffff_ffff_ffff_ffff) by (nonlinear_arith)
            requires
                width <= 0xffff_ffff,
                height <= 0xffff_ffff,
        ;
        assert(3 * ((width as int) * (height as int)) == 3 * (width as int) * (height as int)) by (nonlinear_arith);
        let pixels = width as u128 * height as u128;
        if data.len() as u128 != 3 * pixels {
            return None;
        }
        Some(ImageTexture { data, width, height, bytes_per_pixel: 3, bytes_per_scanline: 3 * width })
    }
}

/// A channel byte as a fraction of 255.
pub open spec fn channel_spec(b: u8) -> int {
    (b as int) * (ONE as int) / 255
}

/// `x` kept within `[0, 1]`.
pub open spec fn unit_clamp(x: int) -> int {
    if x < 0 {
        0
    } else if x > ONE {
        ONE as int
    } else {
        x
    }
}

/// The pixel column (or row) that a fraction `f` of `n` pixels falls in.
pub open spec fn pixel_of(f: int, n: int) -> int {
    let i = f * n / (ONE as int);
    if i >= n {
        n - 1
    } else {
        i
    }
}

/// The color an image gives at surface coordinates `(u, v)`: the pixel at
/// column `u * width` and row `(1 - v) * height`, each clamped to the image,
/// or magenta when the image is empty.
pub open spec fn image_value_spec(data: Seq<u8>, width: int, height: int, u: int, v: int) -> Color {
    if data.len() == 0 {
        Vec3(ONE, 0, ONE)
    } else {
        let i = pixel_of(unit_clamp(u), width);
        let j = pixel_of(ONE - unit_clamp(v), height);
        let k = j * 3 * width + i * 3;
        Vec3(channel_spec(data[k]) as i64, channel_spec(data[k + 1]) as i64, channel_spec(data[k + 2]) as i64)
    }
}

/// A channel byte as a fraction of 255.
fn channel(b: u8) -> (r: Fx)
    ensures
        r == channel_spec(b),
{
    (b as i64 * ONE) / 255
}

/// The pixel that a fraction `f` in `[0, 1]` of `n > 0` pixels falls in.
fn pixel(f: Fx, n: u32) -> (r: u64)
    requires
        0 <= f <= ONE,
        n > 0,
    ensures
        r == pixel_of(f as int, n as int),
        r < n,
{
    assert(0 <= (f as int) * (n as int) <= 65536 * 0xffff_ffff) by (nonlinear_arith)
        requires
            0 <= f <= 65536,
            0 <= n <= 0xffff_ffff,
    ;
    let i = (f as u64 * n as u64) / ONE as u64;
    if i >= n as u64 {
        n as u64 - 1
    } else {
        i
    }
}

impl ImageTexture {
    /// The color at surface coordinates `(u, v)`.
    pub fn value(&self, u: Fx, v: Fx) -> (r: Color)
        ensures
            r == image_value_spec(self.data_spec(), self.width_spec() as int, self.height_spec() as int, u as int, v as int),
    {
        proof {
            use_type_invariant(self);
        }
        if self.data.len() == 0 {
            return Vec3(ONE, 0, ONE);
        }
        assert(self.width > 0 && self.height > 0) by {
            if self.width == 0 || self.height == 0 {
                assert(3 * self.width * self.height == 0) by (nonlinear_arith)
                    requires
                        self.width == 0 || self.height == 0,
                ;
            }
        }
        let uc = if u < 0 { 0 } else if u > ONE { ONE } else { u };
        let vc = if v < 0 { 0 } else if v > ONE { ONE } else { v };
        let i = pixel(uc, self.width);
        let j = pixel(ONE - vc, self.height);
        let w = self.width as u64;
        let h = self.height as u64;
        assert(j * 3 * w + i * 3 + 2 < 3 * w * h && j * (3 * w) <= 3 * w * h) by (nonlinear_arith)
            requires
                i < w,
                j < h,
        ;
        assert(j * 3 * w + i * 3 + 2 <= 3 * 0xffff_ffff * 0xffff_ffff) by (nonlinear_arith)
            requires
                i < w,
                j < h,
                w <= 0xffff_ffff,
                h <= 0xffff_ffff,
        ;
        assert(j * (3 * w) + i * 3 == j * 3 * w + i * 3) by (nonlinear_arith);
        let k = (j * self.bytes_per_scanline as u64 + i * self.bytes_per_pixel as u64) as usize;
        Vec3(channel(self.data[k]), channel(self.data[k + 1]), channel(self.data[k + 2]))
    }
}

impl Checker {
    /// A checkerboard of two textures.
    pub fn new(odd: Texture, even: Texture) -> (r: Self)
        ensures
            *r.odd == odd,
            *r.even == even,
    {
        Checker { odd: Box::new(odd), even: Box::new(even) }
    }
}

/// The color a texture gives at surface coordinates `(u, v)` and point `p`.
pub open spec fn texture_value_spec(t: Texture, u: int, v: int, p: Point3) -> Color
    decreases t,
{
    match t {
        Texture::Solid(s) => s.color_spec(),
        Texture::Checker(c) => if checker_odd_spec(p) {
            texture_value_spec(*c.odd, u, v, p)
        } else {
            texture_value_spec(*c.even, u, v, p)
        },
        Texture::Image(img) => image_value_spec(img.data_spec(), img.width_spec() as int, img.height_spec() as int, u, v),
    }
}

impl Texture {
    /// The color at surface coordinates `(u, v)` and point `p`.
    pub fn value(&self, u: Fx, v: Fx, p: &Point3) -> (r: Color)
        ensures
            r == texture_value_spec(*self, u as int, v as int, *p),
        decreases self,
    {
        match self {
            Texture::Solid(s) => s.value(),
            Texture::Checker(c) => {
                let sx = sin_sign(fixed::mul(10 * ONE, p.0));
                let sy = sin_sign(fixed::mul(10 * ONE, p.1));
                let sz = sin_sign(fixed::mul(10 * ONE, p.2));
                if sx != 0 && sy != 0 && sz != 0 && ((sx < 0) != (sy < 0)) != (sz < 0) {
                    c.odd.value(u, v, p)
                } else {
                    c.even.value(u, v, p)
                }
            },
            Texture::Image(img) => img.value(u, v),
        }
    }
}

} // verus!
