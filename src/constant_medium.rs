//! A volume of constant density, such as fog or smoke.

use vstd::prelude::*;
use crate::fixed::{self, Fx, ONE, clamp, add_spec, sub_spec, mul_spec, div_spec};

verus! {

/// ln 2 in fixed point.
pub const LN_2: Fx = 45426;

/// The volume inside object `boundary`, which scatters a ray after a random
/// free flight of mean length `1 / density`.
#[derive(Clone, Copy, Debug, PartialEq, Eq, Structural)]
pub struct ConstantMedium {
    /// The index of the boundary object.
    pub boundary: usize,
    /// The index of the medium's (isotropic) material.
    pub phase_function: usize,
    /// `-1 / density`.
    pub neg_inv_density: Fx,
}

impl ConstantMedium {
    /// The medium of the given density inside object `boundary`, scattering
    /// with material `phase_function`.
    pub fn new(boundary: usize, phase_function: usize, density: Fx) -> (r: Self)
        requires
            density != 0,
        ensures
            r.boundary == boundary,
            r.phase_function == phase_function,
            r.neg_inv_density == fixed::div_spec(-ONE as int, density as int),
    {
        ConstantMedium { boundary, phase_function, neg_inv_density: fixed::div(-ONE, density) }
    }
}

/// `x` doubled while it is below one half, at most 20 times, with the
/// number of doublings added to `k`.
pub open spec fn halve_spec(x: int, k: int) -> (int, int)
    decreases 20 - k,
{
    if x < ONE / 2 && k < 20 {
        halve_spec(2 * x, k + 1)
    } else {
        (x, k)
    }
}

/// `-ln(u)` for `u` in `(0, 1]`: `u` is doubled `k` times into `[1/2, 1]`,
/// and `-ln(x)` there is `2 (y + y^3/3 + y^5/5 + y^7/7)` with
/// `y = (1 - x) / (1 + x)`, to which `k ln 2` is added.
pub open spec fn neg_ln_spec(u: int) -> int {
    let (x, k) = halve_spec(u, 0);
    let y = div_spec(ONE - x, ONE + x);
    let y2 = mul_spec(y, y);
    let y3 = mul_spec(y2, y);
    let y5 = mul_spec(y3, y2);
    let y7 = mul_spec(y5, y2);
    k * LN_2 + 2 * (y + y3 / 3 + y5 / 5 + y7 / 7)
}

/// `-ln(u)` for `u` in `(0, 1]`, which is non-negative and zero at 1.
pub fn neg_ln(u: Fx) -> (r: Fx)
    requires
        0 < u <= ONE,
    ensures
        r == neg_ln_spec(u as int),
        r >= 0,
        u == ONE ==> r == 0,
{
    let mut x = u;
    let mut k: i64 = 0;
    while x < ONE / 2 && k < 20
        invariant
            0 < x <= ONE,
            0 <= k <= 20,
            halve_spec(x as int, k as int) == halve_spec(u as int, 0),
            u == ONE ==> x == ONE && k == 0,
        decreases 20 - k,
    {
        x = x * 2;
        k = k + 1;
    }
    let y = fixed::div(ONE - x, ONE + x);
    let y2 = fixed::mul(y, y);
    let y3 = fixed::mul(y2, y);
    let y5 = fixed::mul(y3, y2);
    let y7 = fixed::mul(y5, y2);
    proof {
        fixed::lemma_div_fraction((ONE - x) as int, (ONE + x) as int);
        fixed::lemma_mul_fraction(y as int, y as int);
        fixed::lemma_mul_fraction(y2 as int, y as int);
        fixed::lemma_mul_fraction(y3 as int, y2 as int);
        fixed::lemma_mul_fraction(y5 as int, y2 as int);
    }
    let series = y + y3 / 3 + y5 / 5 + y7 / 7;
    k * LN_2 + 2 * series
}

/// The part of `(tmin, tmax]` inside a medium that a ray enters at
/// `t_enter` and leaves at `t_exit`, starting no earlier than 0; `None`
/// when it is empty or the ray has no length.
pub open spec fn medium_span_spec(t_enter: int, t_exit: int, tmin: int, tmax: int, len: int) -> Option<(int, int)> {
    let t1 = if t_enter < tmin { tmin } else { t_enter };
    let t2 = if t_exit > tmax { tmax } else { t_exit };
    if t1 >= t2 || len == 0 {
        None
    } else {
        Some((if t1 < 0 { 0 } else { t1 }, t2))
    }
}

/// Where a ray of length `len` that crosses the medium over `[t1, t2]`
/// scatters, for the uniform draw `u`: after the free flight
/// `-ln(u) / density`, unless that takes it past `t2` or out of
/// `(tmin, tmax]`.
pub open spec fn medium_t_spec(t1: int, t2: int, tmin: int, tmax: int, len: int, neg_inv_density: int, u: int) -> Option<int> {
    let inside = mul_spec(sub_spec(t2, t1), len);
    let dist = mul_spec(clamp(-neg_inv_density), neg_ln_spec(u));
    if dist > inside {
        None
    } else {
        let t = add_spec(t1, div_spec(dist, len));
        if t <= tmin || t > tmax {
            None
        } else {
            Some(t)
        }
    }
}

/// The part of the interval inside the medium.
pub fn medium_span(t_enter: Fx, t_exit: Fx, t_min: Fx, t_max: Fx, len: Fx) -> (r: Option<(Fx, Fx)>)
    ensures
        match r {
            None => medium_span_spec(t_enter as int, t_exit as int, t_min as int, t_max as int, len as int) is None,
            Some((a, b)) => medium_span_spec(t_enter as int, t_exit as int, t_min as int, t_max as int, len as int) == Some((a as int, b as int)),
        },
{
    let t1 = if t_enter < t_min { t_min } else { t_enter };
    let t2 = if t_exit > t_max { t_max } else { t_exit };
    if t1 >= t2 || len == 0 {
        None
    } else {
        Some((if t1 < 0 { 0 } else { t1 }, t2))
    }
}

/// Where the ray scatters inside the medium for the draw `u`.
pub fn medium_t(t1: Fx, t2: Fx, t_min: Fx, t_max: Fx, len: Fx, neg_inv_density: Fx, u: Fx) -> (r: Option<Fx>)
    requires
        len != 0,
        0 < u <= ONE,
    ensures
        match r {
            None => medium_t_spec(t1 as int, t2 as int, t_min as int, t_max as int, len as int, neg_inv_density as int, u as int) is None,
            Some(t) => medium_t_spec(t1 as int, t2 as int, t_min as int, t_max as int, len as int, neg_inv_density as int, u as int) == Some(t as int)
                && t_min < t <= t_max,
        },
{
    let inside = fixed::mul(fixed::sub(t2, t1), len);
    let dist = fixed::mul(fixed::clamp_wide(-(neg_inv_density as i128)), neg_ln(u));
    if dist > inside {
        return None;
    }
    let t = fixed::add(t1, fixed::div(dist, len));
    if t <= t_min || t > t_max {
        None
    } else {
        Some(t)
    }
}

} // verus!
