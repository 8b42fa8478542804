//! Signed 16.16 fixed-point arithmetic.
//!
//! Every scalar of the painting core (coordinates in pixels, pressure, flow,
//! colour channels, curve exponents) is an `i32` that counts units of
//! `1 / 65536`. Intermediate results are widened so that no operation
//! overflows, and every rounding is toward zero, which keeps the arithmetic
//! symmetric under reflection of the canvas.
use vstd::prelude::*;

verus! {

/// The fixed-point representation of `1.0`.
pub const ONE: i32 = 65536;

/// Absolute value of a mathematical integer.
pub open spec fn magnitude(x: int) -> int {
    if x < 0 {
        -x
    } else {
        x
    }
}

/// `x` limited to the closed interval `[lo, hi]`.
pub open spec fn clamp(x: int, lo: int, hi: int) -> int {
    if x < lo {
        lo
    } else if x > hi {
        hi
    } else {
        x
    }
}

/// The product of two fixed-point numbers, rounded toward zero.
pub open spec fn product(a: int, b: int) -> int {
    if (a < 0) == (b < 0) {
        (magnitude(a) * magnitude(b)) / (ONE as int)
    } else {
        -((magnitude(a) * magnitude(b)) / (ONE as int))
    }
}

/// The fraction `num / den` of `x`, rounded toward zero.
pub open spec fn proportion(x: int, num: int, den: int) -> int {
    if x < 0 {
        -((magnitude(x) * num) / den)
    } else {
        (x * num) / den
    }
}

/// The fraction `num / den` of `x`, rounded to the nearest unit, halves
/// away from zero.
pub open spec fn nearest_proportion(x: int, num: int, den: int) -> int {
    if x < 0 {
        -((2 * (magnitude(x) * num) + den) / (2 * den))
    } else {
        (2 * (x * num) + den) / (2 * den)
    }
}

/// The point that lies `num / den` of the way from `a` to `b`.
pub open spec fn interpolate(a: int, b: int, num: int, den: int) -> int {
    a + proportion(b - a, num, den)
}

/// `r` is the integer square root of `n`, rounded down.
pub open spec fn is_sqrt_floor(n: int, r: int) -> bool {
    0 <= r && r * r <= n && n < (r + 1) * (r + 1)
}

/// The integer square root of `n`, rounded down.
pub open spec fn sqrt_floor(n: int) -> int {
    choose|r: int| is_sqrt_floor(n, r)
}

/// A number has at most one rounded-down square root, so any witness of
/// `is_sqrt_floor` is the value of `sqrt_floor`.
pub proof fn lemma_sqrt_floor_is(n: int, r: int)
    requires
        is_sqrt_floor(n, r),
    ensures
        sqrt_floor(n) == r,
{
    let s = sqrt_floor(n);
    assert(is_sqrt_floor(n, s));
    assert(s == r) by (nonlinear_arith)
        requires
            0 <= r,
            r * r <= n,
            n < (r + 1) * (r + 1),
            0 <= s,
            s * s <= n,
            n < (s + 1) * (s + 1),
    ;
}

/// Every number that is not negative has a rounded-down square root.
pub proof fn lemma_sqrt_floor_exists(n: int)
    requires
        0 <= n,
    ensures
        is_sqrt_floor(n, sqrt_floor(n)),
    decreases n,
{
    if n == 0 {
        assert(is_sqrt_floor(0, 0));
    } else {
        lemma_sqrt_floor_exists(n - 1);
        let r = sqrt_floor(n - 1);
        if (r + 1) * (r + 1) <= n {
            assert((r + 1) * (r + 1) == n);
            assert(n < (r + 2) * (r + 2)) by (nonlinear_arith)
                requires
                    (r + 1) * (r + 1) == n,
                    0 <= r,
            ;
            assert(is_sqrt_floor(n, r + 1));
        } else {
            assert(is_sqrt_floor(n, r));
        }
    }
}

/// A proportion with `0 <= num <= den` never exceeds the whole and keeps
/// its sign.
pub proof fn lemma_proportion_bounds(x: int, num: int, den: int)
    requires
        0 <= num <= den,
        0 < den,
    ensures
        magnitude(proportion(x, num, den)) <= magnitude(x),
        x >= 0 ==> proportion(x, num, den) >= 0,
        x <= 0 ==> proportion(x, num, den) <= 0,
{
    let m = magnitude(x);
    let q = (m * num) / den;
    assert(0 <= q <= m) by (nonlinear_arith)
        requires
            0 <= m,
            0 <= num <= den,
            0 < den,
            q == (m * num) / den,
    ;
}

/// Integer square root, rounded down.
pub fn isqrt(n: u128) -> (r: u64)
    ensures
        is_sqrt_floor(n as int, r as int),
        r == sqrt_floor(n as int),
{
    let mut lo: u128 = 0;
    let mut hi: u128 = 0x1_0000_0000_0000_0000;
    assert(n < hi * hi) by (nonlinear_arith)
        requires
            hi == 0x1_0000_0000_0000_0000,
            n <= u128::MAX,
    ;
    while hi - lo > 1
        invariant
            lo < hi <= 0x1_0000_0000_0000_0000,
            lo * lo <= n,
            n < hi * hi,
        decreases hi - lo,
    {
        let mid: u128 = lo + (hi - lo) / 2;
        assert(mid * mid <= u128::MAX) by (nonlinear_arith)
            requires
                mid <= 0xffff_ffff_ffff_ffff,
        ;
        if mid * mid <= n {
            lo = mid;
        } else {
            hi = mid;
        }
    }
    proof {
        assert(hi == lo + 1);
        lemma_sqrt_floor_is(n as int, lo as int);
    }
    lo as u64
}

/// The magnitude of a signed 64-bit number, which always fits in `u64`.
pub fn unsigned_magnitude(x: i64) -> (m: u64)
    ensures
        m == magnitude(x as int),
{
    if x >= 0 {
        x as u64
    } else if x == i64::MIN {
        0x8000_0000_0000_0000
    } else {
        (-x) as u64
    }
}

/// The fraction `num / den` of `x`, rounded toward zero.
pub fn scale(x: i64, num: u64, den: u64) -> (r: i64)
    requires
        num <= den,
        den > 0,
    ensures
        r == proportion(x as int, num as int, den as int),
        magnitude(r as int) <= magnitude(x as int),
{
    let m: u64 = unsigned_magnitude(x);
    proof {
        lemma_proportion_bounds(x as int, num as int, den as int);
        assert((m as int) * (num as int) <= 0xffff_ffff_ffff_ffff * 0xffff_ffff_ffff_ffff)
            by (nonlinear_arith)
            requires
                0 <= m <= 0xffff_ffff_ffff_ffff,
                0 <= num <= 0xffff_ffff_ffff_ffff,
        ;
    }
    let q: u128 = (m as u128) * (num as u128) / (den as u128);
    if x >= 0 {
        q as i64
    } else {
        let neg: i128 = -(q as i128);
        neg as i64
    }
}

/// A proportion rounded to the nearest unit differs from the exact
/// fraction by at most half a unit, and never exceeds the whole.
pub proof fn lemma_nearest_proportion(x: int, num: int, den: int)
    requires
        0 <= num <= den,
        0 < den,
    ensures
        magnitude(nearest_proportion(x, num, den)) <= magnitude(x),
        2 * magnitude(nearest_proportion(x, num, den)) * den <= 2 * (magnitude(x) * num) + den,
        2 * (magnitude(x) * num) < 2 * magnitude(nearest_proportion(x, num, den)) * den + den,
        x >= 0 ==> nearest_proportion(x, num, den) >= 0,
        x <= 0 ==> nearest_proportion(x, num, den) <= 0,
{
    let m = magnitude(x);
    let top = 2 * (m * num) + den;
    let q = top / (2 * den);
    assert(0 <= m * num <= m * den) by (nonlinear_arith)
        requires
            0 <= m,
            0 <= num <= den,
    ;
    assert(q * (2 * den) <= top < (q + 1) * (2 * den) && 0 <= q) by (nonlinear_arith)
        requires
            q == top / (2 * den),
            0 <= top,
            0 < den,
    ;
    assert(q <= m) by (nonlinear_arith)
        requires
            q * (2 * den) <= top,
            top <= 2 * (m * den) + den,
            0 < den,
            0 <= m,
    ;
    assert(2 * q * den == q * (2 * den)) by (nonlinear_arith);
    assert((q + 1) * (2 * den) == 2 * q * den + 2 * den) by (nonlinear_arith);
}

/// The fraction `num / den` of `x`, rounded to the nearest unit.
pub fn scale_nearest(x: i32, num: u64, den: u64) -> (r: i32)
    requires
        num <= den,
        den > 0,
    ensures
        r == nearest_proportion(x as int, num as int, den as int),
{
    let m: u64 = unsigned_magnitude(x as i64);
    proof {
        lemma_nearest_proportion(x as int, num as int, den as int);
        assert((m as int) * (num as int) <= 0x8000_0000 * 0xffff_ffff_ffff_ffff)
            by (nonlinear_arith)
            requires
                0 <= m <= 0x8000_0000,
                0 <= num <= 0xffff_ffff_ffff_ffff,
        ;
    }
    let q: u128 = (2 * ((m as u128) * (num as u128)) + den as u128) / (2 * (den as u128));
    if x >= 0 {
        q as i32
    } else {
        (-(q as i64)) as i32
    }
}

/// The point that lies `num / den` of the way from `a` to `b`. The result
/// never leaves the interval between `a` and `b`.
pub fn lerp(a: i32, b: i32, num: u64, den: u64) -> (r: i32)
    requires
        num <= den,
        den > 0,
    ensures
        r == interpolate(a as int, b as int, num as int, den as int),
        a <= b ==> a <= r <= b,
        b <= a ==> b <= r <= a,
{
    let delta: i64 = b as i64 - a as i64;
    proof {
        lemma_proportion_bounds(delta as int, num as int, den as int);
    }
    let step: i64 = scale(delta, num, den);
    (a as i64 + step) as i32
}

/// The product of two fixed-point numbers, rounded toward zero.
pub fn mul_fixed(a: i64, b: i64) -> (r: i128)
    ensures
        r == product(a as int, b as int),
{
    let ma: u64 = unsigned_magnitude(a);
    let mb: u64 = unsigned_magnitude(b);
    assert(ma * mb <= 0x8000_0000_0000_0000 * 0x8000_0000_0000_0000) by (nonlinear_arith)
        requires
            0 <= ma <= 0x8000_0000_0000_0000,
            0 <= mb <= 0x8000_0000_0000_0000,
    ;
    let q: u128 = (ma as u128) * (mb as u128) / 65536;
    if (a < 0) == (b < 0) {
        q as i128
    } else {
        -(q as i128)
    }
}

/// The magnitude of a product is bounded by the product of the bounds of
/// its factors.
pub proof fn lemma_product_bound(a: int, b: int, bound_a: int, bound_b: int)
    requires
        magnitude(a) <= bound_a,
        magnitude(b) <= bound_b,
    ensures
        magnitude(product(a, b)) <= (bound_a * bound_b) / 65536,
{
    let ma = magnitude(a);
    let mb = magnitude(b);
    assert((ma * mb) / 65536 <= (bound_a * bound_b) / 65536) by (nonlinear_arith)
        requires
            0 <= ma <= bound_a,
            0 <= mb <= bound_b,
    ;
}

/// A product whose second factor lies in `[0, ONE]` is no larger than the
/// first factor.
pub proof fn lemma_product_unit(a: int, u: int)
    requires
        0 <= u <= ONE,
    ensures
        magnitude(product(a, u)) <= magnitude(a),
        product(a, ONE as int) == a,
        product(a, 0) == 0,
{
    let m = magnitude(a);
    assert((m * u) / 65536 <= m) by (nonlinear_arith)
        requires
            0 <= m,
            0 <= u <= 65536,
    ;
    assert((m * 65536) / 65536 == m) by (nonlinear_arith);
    assert((m * 0) / 65536 == 0) by (nonlinear_arith);
}

/// Limits a wide intermediate result to the unit interval `[0, ONE]`.
pub fn clamp_unit(x: i64) -> (r: i32)
    ensures
        r == clamp(x as int, 0, ONE as int),
{
    if x < 0 {
        0
    } else if x > 65536 {
        65536
    } else {
        x as i32
    }
}

} // verus!
