//! Fixed-point scalars.
//!
//! A scalar is an `i64` that stands for `x / ONE`. Every operation saturates
//! its result to `[-LIMIT, LIMIT]`, so that no chain of operations overflows.

use vstd::prelude::*;

verus! {

/// The raw value that stands for 1.
pub const ONE: i64 = 65536;

/// The largest magnitude a scalar result takes.
pub const LIMIT: i64 = 4611686018427387904;

/// A fixed-point scalar.
pub type Fx = i64;

/// `x` saturated to `[-LIMIT, LIMIT]`.
pub open spec fn clamp(x: int) -> int {
    if x > LIMIT {
        LIMIT as int
    } else if x < -LIMIT {
        -LIMIT
    } else {
        x
    }
}

/// Floor of `a / b` for a positive `b`.
pub open spec fn floor_div(a: int, b: int) -> int {
    a / b
}

/// The fixed-point sum.
pub open spec fn add_spec(a: int, b: int) -> int {
    clamp(a + b)
}

/// The fixed-point difference.
pub open spec fn sub_spec(a: int, b: int) -> int {
    clamp(a - b)
}

/// The fixed-point product, rounded down.
pub open spec fn mul_spec(a: int, b: int) -> int {
    clamp(floor_div(a * b, ONE as int))
}

/// The fixed-point quotient, rounded down; `b` must not be zero.
pub open spec fn div_spec(a: int, b: int) -> int {
    if b > 0 {
        clamp(floor_div(a * ONE, b))
    } else {
        clamp(floor_div(-a * ONE, -b))
    }
}

/// `r` is the integer square root of `n`.
pub open spec fn is_isqrt(r: int, n: int) -> bool {
    0 <= r && r * r <= n < (r + 1) * (r + 1)
}

/// The integer square root of a non-negative `n`.
pub open spec fn isqrt(n: int) -> int {
    choose|r: int| is_isqrt(r, n)
}

/// The fixed-point square root, rounded down; zero below zero.
pub open spec fn sqrt_spec(a: int) -> int {
    if a <= 0 {
        0
    } else {
        isqrt(a * ONE)
    }
}

/// The smaller of two scalars.
pub open spec fn min_spec(a: int, b: int) -> int {
    if a <= b {
        a
    } else {
        b
    }
}

/// The larger of two scalars.
pub open spec fn max_spec(a: int, b: int) -> int {
    if a >= b {
        a
    } else {
        b
    }
}

/// The integer square root is unique.
pub proof fn lemma_isqrt_unique(r: int, n: int)
    requires
        is_isqrt(r, n),
    ensures
        isqrt(n) == r,
{
    assert(exists|q: int| is_isqrt(q, n));
    let q = isqrt(n);
    assert(is_isqrt(q, n));
    if q < r {
        assert((q + 1) * (q + 1) <= r * r) by (nonlinear_arith)
            requires
                0 <= q,
                q + 1 <= r,
        ;
    } else if r < q {
        assert((r + 1) * (r + 1) <= q * q) by (nonlinear_arith)
            requires
                0 <= r,
                r + 1 <= q,
        ;
    }
}

/// Saturates a wide value into a scalar.
pub fn clamp_wide(x: i128) -> (r: Fx)
    ensures
        r == clamp(x as int),
{
    if x > LIMIT as i128 {
        LIMIT
    } else if x < -(LIMIT as i128) {
        -LIMIT
    } else {
        x as i64
    }
}

/// Floor division of a wide value by a positive divisor.
pub fn div_floor_wide(a: i128, b: i128) -> (r: i128)
    requires
        b > 0,
        -0x4000_0000_0000_0000_0000_0000_0000_0000 <= a <= 0x4000_0000_0000_0000_0000_0000_0000_0000,
        b <= 0x1_0000_0000_0000_0000_0000,
    ensures
        r == floor_div(a as int, b as int),
{
    if a >= 0 {
        a / b
    } else {
        let n = -a;
        let q = (n + b - 1) / b;
        proof {
            let ai = a as int;
            let bi = b as int;
            let qi = q as int;
            assert(qi == (-ai + bi - 1) / bi);
            lemma_neg_floor(ai, bi);
        }
        -q
    }
}

proof fn lemma_neg_floor(a: int, b: int)
    requires
        b > 0,
        a < 0,
    ensures
        -((-a + b - 1) / b) == a / b,
{
    let q = (-a + b - 1) / b;
    let m = (-a + b - 1) % b;
    vstd::arithmetic::div_mod::lemma_fundamental_div_mod(-a + b - 1, b);
    vstd::arithmetic::div_mod::lemma_fundamental_div_mod(a, b);
    let q2 = a / b;
    let m2 = a % b;
    assert(b * q + m == -a + b - 1);
    assert(b * q2 + m2 == a);
    assert(0 <= m < b);
    assert(0 <= m2 < b);
    // a == b * (-q) + (b - 1 - m), with 0 <= b - 1 - m < b
    assert(a == b * (-q) + (b - 1 - m)) by (nonlinear_arith)
        requires
            b * q + m == -a + b - 1,
    ;
    assert(a == (-q) * b + (b - 1 - m)) by (nonlinear_arith)
        requires
            a == b * (-q) + (b - 1 - m),
    ;
    vstd::arithmetic::div_mod::lemma_fundamental_div_mod_converse(a, b, -q, b - 1 - m);
}

/// A product of two `i64` values fits in 127 bits.
proof fn lemma_wide_product(a: int, b: int)
    requires
        -0x8000_0000_0000_0000 <= a < 0x8000_0000_0000_0000,
        -0x8000_0000_0000_0000 <= b < 0x8000_0000_0000_0000,
    ensures
        -0x4000_0000_0000_0000_0000_0000_0000_0000 <= a * b <= 0x4000_0000_0000_0000_0000_0000_0000_0000,
{
    let m: int = 0x8000_0000_0000_0000;
    let aa = if a < 0 { -a } else { a };
    let bb = if b < 0 { -b } else { b };
    assert(aa * bb <= m * m) by (nonlinear_arith)
        requires
            0 <= aa <= m,
            0 <= bb <= m,
    ;
    assert(a * b == aa * bb || a * b == -(aa * bb)) by (nonlinear_arith)
        requires
            aa == a || aa == -a,
            bb == b || bb == -b,
    ;
    assert(m * m == 0x4000_0000_0000_0000_0000_0000_0000_0000);
}

/// The fixed-point sum.
pub fn add(a: Fx, b: Fx) -> (r: Fx)
    ensures
        r == add_spec(a as int, b as int),
{
    clamp_wide(a as i128 + b as i128)
}

/// The fixed-point difference.
pub fn sub(a: Fx, b: Fx) -> (r: Fx)
    ensures
        r == sub_spec(a as int, b as int),
{
    clamp_wide(a as i128 - b as i128)
}

/// The fixed-point product, rounded down.
pub fn mul(a: Fx, b: Fx) -> (r: Fx)
    ensures
        r == mul_spec(a as int, b as int),
{
    proof {
        lemma_wide_product(a as int, b as int);
    }
    let p = a as i128 * b as i128;
    clamp_wide(div_floor_wide(p, ONE as i128))
}

/// The fixed-point quotient, rounded down.
pub fn div(a: Fx, b: Fx) -> (r: Fx)
    requires
        b != 0,
    ensures
        r == div_spec(a as int, b as int),
{
    proof {
        lemma_wide_product(a as int, ONE as int);
    }
    let n = a as i128 * ONE as i128;
    if b > 0 {
        clamp_wide(div_floor_wide(n, b as i128))
    } else {
        assert((-(a as int)) * (ONE as int) == -((a as int) * (ONE as int))) by (nonlinear_arith);
        clamp_wide(div_floor_wide(-n, -(b as i128)))
    }
}

/// The integer square root of a non-negative value below `2^80`.
pub fn isqrt_wide(n: i128) -> (r: i128)
    requires
        0 <= n < 0x1_0000_0000_0000_0000_0000,
    ensures
        is_isqrt(r as int, n as int),
        r == isqrt(n as int),
        r <= 0x100_0000_0000,
{
    let mut lo: i128 = 0;
    let mut hi: i128 = 0x100_0000_0000;
    assert(hi * hi == 0x1_0000_0000_0000_0000_0000);
    while hi - lo > 1
        invariant
            0 <= lo < hi <= 0x100_0000_0000,
            lo * lo <= n,
            n < hi * hi,
        decreases hi - lo,
    {
        let mid = lo + (hi - lo) / 2;
        assert(0 <= mid * mid <= 0x1_0000_0000_0000_0000_0000) by (nonlinear_arith)
            requires
                0 <= mid <= 0x100_0000_0000,
        ;
        if mid * mid <= n {
            lo = mid;
        } else {
            hi = mid;
        }
    }
    assert(hi == lo + 1);
    proof {
        lemma_isqrt_unique(lo as int, n as int);
    }
    lo
}

/// The fixed-point square root, rounded down; zero for a non-positive input.
pub fn sqrt(a: Fx) -> (r: Fx)
    ensures
        r == sqrt_spec(a as int),
        0 <= r,
{
    if a <= 0 {
        0
    } else {
        assert(0 < (a as int) * 65536 < 0x1_0000_0000_0000_0000_0000) by (nonlinear_arith)
            requires
                0 < a < 0x8000_0000_0000_0000,
        ;
        let n = a as i128 * ONE as i128;
        let r = isqrt_wide(n);
        r as i64
    }
}

/// The smaller of two scalars.
pub fn min(a: Fx, b: Fx) -> (r: Fx)
    ensures
        r == min_spec(a as int, b as int),
{
    if a <= b {
        a
    } else {
        b
    }
}

/// The larger of two scalars.
pub fn max(a: Fx, b: Fx) -> (r: Fx)
    ensures
        r == max_spec(a as int, b as int),
{
    if a >= b {
        a
    } else {
        b
    }
}

/// A product of a non-negative value and a fraction in `[0, 1]` lies between
/// zero and the value.
pub proof fn lemma_mul_fraction(a: int, b: int)
    requires
        0 <= a <= LIMIT,
        0 <= b <= ONE,
    ensures
        0 <= mul_spec(a, b) <= a,
{
    let one = ONE as int;
    vstd::arithmetic::div_mod::lemma_fundamental_div_mod(a * b, one);
    let q = (a * b) / one;
    let m = (a * b) % one;
    assert(0 <= a * b <= a * one) by (nonlinear_arith)
        requires
            0 <= a,
            0 <= b <= one,
    ;
    assert(0 <= q <= a) by (nonlinear_arith)
        requires
            one * q + m == a * b,
            0 <= m < one,
            0 <= a * b <= a * one,
            one > 0,
    ;
}

/// A quotient of a value by a larger positive one lies in `[0, 1]`.
pub proof fn lemma_div_fraction(a: int, b: int)
    requires
        0 <= a <= b,
        0 < b,
    ensures
        0 <= div_spec(a, b) <= ONE,
{
    let one = ONE as int;
    vstd::arithmetic::div_mod::lemma_fundamental_div_mod(a * one, b);
    let q = (a * one) / b;
    let m = (a * one) % b;
    assert(0 <= q <= one) by (nonlinear_arith)
        requires
            b * q + m == a * one,
            0 <= m < b,
            0 <= a <= b,
            one > 0,
    ;
}

/// Every non-negative integer has an integer square root.
pub proof fn lemma_isqrt_exists(n: int)
    requires
        n >= 0,
    ensures
        is_isqrt(isqrt(n), n),
    decreases n,
{
    if n == 0 {
        assert(is_isqrt(0, 0));
    } else {
        lemma_isqrt_exists(n - 1);
        let q = isqrt(n - 1);
        if (q + 1) * (q + 1) <= n {
            assert((q + 2) * (q + 2) > n) by (nonlinear_arith)
                requires
                    n - 1 < (q + 1) * (q + 1),
                    q >= 0,
            ;
            assert(is_isqrt(q + 1, n));
        } else {
            assert(is_isqrt(q, n));
        }
    }
}

/// The fixed-point square root is never negative.
pub proof fn lemma_sqrt_nonneg(a: int)
    ensures
        sqrt_spec(a) >= 0,
{
    if a > 0 {
        assert(a * ONE >= 0) by (nonlinear_arith)
            requires
                a > 0,
        ;
        lemma_isqrt_exists(a * ONE);
    }
}

} // verus!
