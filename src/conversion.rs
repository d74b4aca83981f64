//! Conversion of linear colors to 8-bit channels.

use vstd::prelude::*;
use crate::fixed::{self, Fx, ONE, sqrt_spec};
use crate::vec3::{Color, ColorU8};

verus! {

/// A channel in `[0, 1]` as a byte: `255 x` rounded to the nearest integer,
/// zero below zero and 255 above one.
pub open spec fn to_u8_spec(x: int) -> int {
    if x <= 0 {
        0
    } else if (x * 255 + ONE / 2) / (ONE as int) > 255 {
        255
    } else {
        (x * 255 + ONE / 2) / (ONE as int)
    }
}

/// A gamma-corrected channel of a sum of `samples` samples: the square root
/// of their mean, as a byte.
pub open spec fn gamma_u8_spec(sum: int, samples: int) -> int {
    to_u8_spec(sqrt_spec(sum / samples))
}

/// The sum of `samples` samples as an 8-bit color.
pub open spec fn color_u8_spec(c: Color, samples: int) -> ColorU8 {
    ColorU8(gamma_u8_spec(c.0 as int, samples) as u8, gamma_u8_spec(c.1 as int, samples) as u8, gamma_u8_spec(c.2 as int, samples) as u8)
}

/// Conversion of a channel to a byte.
pub trait IntoU8 {
    /// The channel as a byte, clamped.
    fn into_u8(self) -> u8;
}

/// A channel as a byte.
pub fn to_u8(x: Fx) -> (r: u8)
    ensures
        r == to_u8_spec(x as int),
{
    if x <= 0 {
        return 0;
    }
    let q = (x as i128 * 255 + (ONE / 2) as i128) / ONE as i128;
    if q > 255 {
        255
    } else {
        q as u8
    }
}

impl IntoU8 for i64 {
    fn into_u8(self) -> u8 {
        to_u8(self)
    }
}

/// A gamma-corrected channel of a sum of `samples` samples.
pub fn gamma_u8(sum: Fx, samples: u32) -> (r: u8)
    requires
        samples > 0,
    ensures
        r == gamma_u8_spec(sum as int, samples as int),
{
    let mean = fixed::div_floor_wide(sum as i128, samples as i128);
    proof {
        let n = samples as int;
        let q = sum as int / n;
        vstd::arithmetic::div_mod::lemma_fundamental_div_mod(sum as int, n);
        assert(-0x8000_0000_0000_0000 <= q < 0x8000_0000_0000_0000) by (nonlinear_arith)
            requires
                n >= 1,
                n * q + (sum as int) % n == sum,
                0 <= (sum as int) % n < n,
                -0x8000_0000_0000_0000 <= sum < 0x8000_0000_0000_0000,
        ;
    }
    to_u8(fixed::sqrt(mean as i64))
}

impl Color {
    /// The sum of `samples` samples as an 8-bit color: the square root
    /// (gamma 2) of the mean of each channel, as a byte.
    pub fn into_u8_color(&self, samples: u32) -> (r: ColorU8)
        requires
            samples > 0,
        ensures
            r == ColorU8(
                gamma_u8_spec(self.0 as int, samples as int) as u8,
                gamma_u8_spec(self.1 as int, samples as int) as u8,
                gamma_u8_spec(self.2 as int, samples as int) as u8,
            ),
    {
        ColorU8(gamma_u8(self.0, samples), gamma_u8(self.1, samples), gamma_u8(self.2, samples))
    }
}

} // verus!
