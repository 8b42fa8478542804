//! Conversion of colour channels from the sRGB transfer curve to linear
//! light, in 16.16 fixed point.
//!
//! A channel at or below the knee of the curve is divided by `12.92` and
//! rounded to the nearest unit; above it the channel is offset, rescaled
//! and raised to the power `2.4`. The power is computed exactly, for every
//! base: the result is the largest fixed-point number whose fifth power
//! does not exceed the twelfth power of the base. Only a result that the
//! format cannot hold is limited to the largest number of the format.
//! Alpha is linear already and passes through unchanged.
use crate::fixed::{lemma_nearest_proportion, nearest_proportion, scale_nearest, ONE};
use crate::natural::{at_most, lemma_power_monotone, power, raise, times, value};
use vstd::prelude::*;

verus! {

/// The knee of the sRGB curve (`0.04045`): channels up to this value lie on
/// the linear segment.
pub const SRGB_KNEE: i32 = 2650;

/// Two to the power 56.
pub const TWO_56: u64 = 0x100_0000_0000_0000;

/// Two to the power 112: the factor between the twelfth power of a 16.16
/// number and the fifth power of a 16.16 number.
pub open spec fn two_112() -> int {
    0x1_0000_0000_0000_0000_0000_0000_0000int
}

/// The fifth power of `r`.
pub open spec fn pow5(r: int) -> int {
    r * r * r * r * r
}

/// The twelfth power of `u`.
pub open spec fn pow12(u: int) -> int {
    power(u as nat, 12) as int
}

/// `r` is the fifth root of `n` in units of two to the power 112, rounded
/// down.
pub open spec fn is_fifth_root(n: int, r: int) -> bool {
    &&& 0 <= r
    &&& pow5(r) * two_112() <= n
    &&& n < pow5(r + 1) * two_112()
}

/// `r` is `u` raised to the power `2.4` in 16.16 fixed point, rounded
/// down: `(r / 2^16)^5 <= (u / 2^16)^12 < ((r + 1) / 2^16)^5`.
pub open spec fn is_power_12_5(u: int, r: int) -> bool {
    is_fifth_root(pow12(u), r)
}

/// `u` raised to the power `2.4` in 16.16 fixed point, rounded down.
pub open spec fn power_12_5(u: int) -> int {
    choose|r: int| is_power_12_5(u, r)
}

/// The base of the power segment for a channel `c`:
/// `(c + 0.055) / 1.055`, rounded down.
pub open spec fn srgb_power_base(c: int) -> int {
    (200 * c + 720896) / 211
}

/// The linear-light value of an sRGB channel: up to the knee the channel
/// divided by `12.92`, rounded to the nearest unit; above it the power of
/// the base, limited to the largest number of the format.
pub open spec fn srgb_to_linear_value(c: int) -> int {
    if c <= SRGB_KNEE {
        nearest_proportion(c, 25, 323)
    } else if power_12_5(srgb_power_base(c)) > i32::MAX {
        i32::MAX as int
    } else {
        power_12_5(srgb_power_base(c))
    }
}

/// An 8-bit channel as a fixed-point fraction of 255.
pub open spec fn channel_from_byte(v: int) -> int {
    (v * 65536) / 255
}

/// Fifth powers grow with their base.
pub proof fn lemma_pow5_monotone(a: int, b: int)
    requires
        0 <= a <= b,
    ensures
        0 <= pow5(a) <= pow5(b),
{
    let a2 = a * a;
    let b2 = b * b;
    assert(0 <= a2 <= b2) by (nonlinear_arith)
        requires
            0 <= a <= b,
            a2 == a * a,
            b2 == b * b,
    ;
    let a4 = a2 * a2;
    let b4 = b2 * b2;
    assert(0 <= a4 <= b4) by (nonlinear_arith)
        requires
            0 <= a2 <= b2,
            a4 == a2 * a2,
            b4 == b2 * b2,
    ;
    assert(0 <= a4 * a <= b4 * b) by (nonlinear_arith)
        requires
            0 <= a4 <= b4,
            0 <= a <= b,
    ;
    assert(pow5(a) == a4 * a) by (nonlinear_arith)
        requires
            a2 == a * a,
            a4 == a2 * a2,
    ;
    assert(pow5(b) == b4 * b) by (nonlinear_arith)
        requires
            b2 == b * b,
            b4 == b2 * b2,
    ;
}

/// A base has at most one rounded-down power, so any witness of
/// `is_power_12_5` is the value of `power_12_5`.
pub proof fn lemma_power_12_5_is(u: int, r: int)
    requires
        is_power_12_5(u, r),
    ensures
        power_12_5(u) == r,
{
    let s = power_12_5(u);
    assert(is_power_12_5(u, s));
    if s < r {
        lemma_pow5_monotone(s + 1, r);
        assert(pow5(s + 1) * two_112() <= pow5(r) * two_112()) by (nonlinear_arith)
            requires
                pow5(s + 1) <= pow5(r),
                two_112() > 0,
        ;
    } else if r < s {
        lemma_pow5_monotone(r + 1, s);
        assert(pow5(r + 1) * two_112() <= pow5(s) * two_112()) by (nonlinear_arith)
            requires
                pow5(r + 1) <= pow5(s),
                two_112() > 0,
        ;
    }
}

/// Fifth powers grow strictly with their base.
pub proof fn lemma_pow5_strict(a: int)
    requires
        0 <= a,
    ensures
        pow5(a) < pow5(a + 1),
{
    let a2 = a * a;
    let a4 = a2 * a2;
    assert(0 <= a2 && 0 <= a4) by (nonlinear_arith)
        requires
            a2 == a * a,
            a4 == a2 * a2,
    ;
    assert(pow5(a) == a4 * a) by (nonlinear_arith)
        requires
            a2 == a * a,
            a4 == a2 * a2,
    ;
    assert(pow5(a + 1) == a4 * a + 5 * a4 + 10 * (a2 * a) + 10 * a2 + 5 * a + 1)
        by (nonlinear_arith)
        requires
            a2 == a * a,
            a4 == a2 * a2,
    ;
    assert(0 <= a2 * a) by (nonlinear_arith)
        requires
            0 <= a2,
            0 <= a,
    ;
}

/// Every number has a fifth root in units of two to the power 112,
/// rounded down.
proof fn lemma_fifth_root_exists(n: nat)
    ensures
        exists|r: int| is_fifth_root(n as int, r),
    decreases n,
{
    assert(pow5(0) == 0 && pow5(1) == 1) by (nonlinear_arith);
    if n == 0 {
        assert(is_fifth_root(n as int, 0));
    } else {
        let before: int = n - 1;
        lemma_fifth_root_exists(before as nat);
        let r = choose|r: int| is_fifth_root(before, r);
        if pow5(r + 1) * two_112() <= n {
            lemma_pow5_strict(r + 1);
            assert(pow5(r + 1) * two_112() < pow5(r + 2) * two_112()) by (nonlinear_arith)
                requires
                    pow5(r + 1) < pow5(r + 2),
                    two_112() > 0,
            ;
            assert(is_fifth_root(n as int, r + 1));
        } else {
            assert(is_fifth_root(n as int, r));
        }
    }
}

/// Every base that is not negative has a power `2.4`.
pub proof fn lemma_power_12_5_exists(u: int)
    requires
        0 <= u,
    ensures
        is_power_12_5(u, power_12_5(u)),
{
    lemma_fifth_root_exists(power(u as nat, 12));
    let r = choose|r: int| is_fifth_root(pow12(u), r);
    assert(is_power_12_5(u, r));
}

/// The power `2.4` does not fall when its base grows.
pub proof fn lemma_power_12_5_monotone(smaller: int, larger: int)
    requires
        0 <= smaller <= larger,
    ensures
        0 <= power_12_5(smaller) <= power_12_5(larger),
{
    lemma_power_12_5_exists(smaller);
    lemma_power_12_5_exists(larger);
    lemma_power_monotone(smaller as nat, larger as nat, 12);
    let low = power_12_5(smaller);
    let high = power_12_5(larger);
    if low > high {
        lemma_pow5_monotone(high + 1, low);
        assert(pow5(high + 1) * two_112() <= pow5(low) * two_112()) by (nonlinear_arith)
            requires
                pow5(high + 1) <= pow5(low),
                two_112() > 0,
        ;
    }
}

/// The transfer curve never falls: a brighter channel is never darker in
/// linear light.
pub proof fn theorem_srgb_monotone(darker: int, brighter: int)
    requires
        darker <= brighter,
    ensures
        srgb_to_linear_value(darker) <= srgb_to_linear_value(brighter),
{
    if brighter <= SRGB_KNEE {
        assert(nearest_proportion(darker, 25, 323) <= nearest_proportion(brighter, 25, 323));
    } else {
        // just above the knee the power segment has reached the end of the
        // linear segment
        reveal_with_fuel(power, 13);
        assert(pow5(205) * two_112() <= power(5929, 12)) by {
            assert(pow5(205) == 362050628125) by (nonlinear_arith);
            assert(power(5929, 12)
                == 1887023914800623499934622000276222741687622241int);
        }
        assert(srgb_power_base(2651) == 5929);
        lemma_power_12_5_exists(5929);
        if power_12_5(5929) < 205 {
            lemma_pow5_monotone(power_12_5(5929) + 1, 205);
            assert(pow5(power_12_5(5929) + 1) * two_112() <= pow5(205) * two_112())
                by (nonlinear_arith)
                requires
                    pow5(power_12_5(5929) + 1) <= pow5(205),
                    two_112() > 0,
            ;
        }
        lemma_power_12_5_monotone(5929, srgb_power_base(brighter));
        if darker <= SRGB_KNEE {
            if darker >= 0 {
                assert(2 * (darker * 25) + 323 <= 132823);
                assert((2 * (darker * 25) + 323) / 646int <= 205);
            } else {
                assert(0 <= (2 * ((-darker) * 25) + 323) / 646int);
            }
        } else {
            lemma_power_12_5_monotone(srgb_power_base(darker), srgb_power_base(brighter));
        }
    }
}

/// The twelfth power of a base in `[0, 1]` lies below the fifth power of
/// the first number above one.
pub proof fn lemma_power_12_5_bound(u: int)
    requires
        0 <= u <= ONE,
    ensures
        pow12(u) < pow5(65537) * two_112(),
{
    lemma_power_monotone(u as nat, 65536, 12);
    reveal_with_fuel(power, 13);
    assert(power(65536, 12) == 0x1_0000_0000_0000_0000_0000_0000_0000_0000_0000_0000_0000_0000int);
    assert(pow5(65537) * two_112()
        > 0x1_0000_0000_0000_0000_0000_0000_0000_0000_0000_0000_0000_0000int)
        by (nonlinear_arith);
}

/// The power `2.4` of a base in `[0, 1]` lies in `[0, 1]`, and that of one
/// is one.
pub proof fn lemma_power_12_5_unit(u: int)
    requires
        0 <= u <= ONE,
    ensures
        u == ONE ==> is_power_12_5(u, ONE as int),
        forall|r: int| is_power_12_5(u, r) ==> 0 <= r <= ONE,
{
    lemma_power_monotone(u as nat, 65536, 12);
    reveal_with_fuel(power, 13);
    assert(power(65536, 12) == 0x1_0000_0000_0000_0000_0000_0000_0000_0000_0000_0000_0000_0000int);
    assert(pow5(65536) * two_112()
        == 0x1_0000_0000_0000_0000_0000_0000_0000_0000_0000_0000_0000_0000int)
        by (nonlinear_arith);
    assert(pow5(65537) == 0x1_0005_000a_000a_0005_0001) by (nonlinear_arith);
    assert forall|r: int| is_power_12_5(u, r) implies 0 <= r <= ONE by {
        if r > 65536 {
            lemma_pow5_monotone(65537, r);
            assert(pow5(65537) * two_112() <= pow5(r) * two_112()) by (nonlinear_arith)
                requires
                    pow5(65537) <= pow5(r),
                    two_112() > 0,
            ;
        }
    }
}

/// The fifth power of `r`, times two to the power 112.
fn scaled_fifth_power(r: u64) -> (p: Vec<u64>)
    ensures
        value(p@) == pow5(r as int) * two_112(),
{
    let fifth = raise(r, 5);
    let half = times(&fifth, TWO_56);
    let whole = times(&half, TWO_56);
    proof {
        reveal_with_fuel(power, 6);
        assert(power(r as nat, 5) == pow5(r as int)) by (nonlinear_arith)
            requires
                power(r as nat, 5) == ((((1 * r) * r) * r) * r) * r,
        ;
        assert((pow5(r as int) * 0x100_0000_0000_0000) * 0x100_0000_0000_0000 == pow5(r as int)
            * two_112()) by (nonlinear_arith);
    }
    whole
}

/// `base` raised to the power `2.4`, rounded down. The result is exact for
/// every base.
pub fn power_2_4(base: u32) -> (r: u64)
    ensures
        is_power_12_5(base as int, r as int),
        r == power_12_5(base as int),
        r <= TWO_56,
{
    let twelfth = raise(base as u64, 12);
    let mut lo: u64 = 0;
    let mut hi: u64 = if base <= 65536 {
        65537
    } else {
        TWO_56
    };
    proof {
        if base <= 65536 {
            lemma_power_12_5_bound(base as int);
        }
        assert(pow5(0) == 0) by (nonlinear_arith);
        lemma_power_monotone(base as nat, 0x1_0000_0000, 12);
        reveal_with_fuel(power, 13);
        assert(power(0x1_0000_0000, 12)
            == 0x1_0000_0000_0000_0000_0000_0000_0000_0000_0000_0000_0000_0000_0000_0000_0000_0000_0000_0000_0000_0000_0000_0000_0000_0000int);
        assert(pow5(0x100_0000_0000_0000) * two_112()
            == 0x1_00_0000_0000_0000_0000_0000_0000_0000_0000_0000_0000_0000_0000_0000_0000_0000_0000_0000_0000_0000_0000_0000_0000_0000_0000int)
            by (nonlinear_arith);
    }
    while hi - lo > 1
        invariant
            lo < hi <= TWO_56,
            value(twelfth@) == pow12(base as int),
            pow5(lo as int) * two_112() <= pow12(base as int),
            pow12(base as int) < pow5(hi as int) * two_112(),
        decreases hi - lo,
    {
        let mid: u64 = lo + (hi - lo) / 2;
        let candidate = scaled_fifth_power(mid);
        if at_most(&candidate, &twelfth) {
            lo = mid;
        } else {
            hi = mid;
        }
    }
    proof {
        assert(hi == lo + 1);
        lemma_power_12_5_is(base as int, lo as int);
    }
    lo
}

/// Converts one sRGB channel to linear light.
pub fn srgb_to_linear(srgb: i32) -> (linear: i32)
    ensures
        linear == srgb_to_linear_value(srgb as int),
        srgb <= SRGB_KNEE ==> linear == nearest_proportion(srgb as int, 25, 323),
        srgb > SRGB_KNEE ==> is_power_12_5(srgb_power_base(srgb as int), linear as int) || (
        linear == i32::MAX && power_12_5(srgb_power_base(srgb as int)) > i32::MAX),
        0 <= srgb <= ONE ==> 0 <= linear <= ONE,
        srgb == 0 ==> linear == 0,
        srgb == ONE ==> linear == ONE,
{
    if srgb <= SRGB_KNEE {
        proof {
            lemma_nearest_proportion(srgb as int, 25, 323);
        }
        scale_nearest(srgb, 25, 323)
    } else {
        let base: i64 = (200 * (srgb as i64) + 720896) / 211;
        let raised: u64 = power_2_4(base as u32);
        proof {
            if srgb <= ONE {
                lemma_power_12_5_unit(base as int);
                if srgb == ONE {
                    lemma_power_12_5_is(base as int, ONE as int);
                }
            }
        }
        if raised > i32::MAX as u64 {
            i32::MAX
        } else {
            raised as i32
        }
    }
}

/// Converts an sRGB colour to linear light. Alpha passes through.
pub fn srgb_to_linear_rgba(srgb: [i32; 4]) -> (linear: [i32; 4])
    ensures
        linear[0] == srgb_to_linear_value(srgb[0] as int),
        linear[1] == srgb_to_linear_value(srgb[1] as int),
        linear[2] == srgb_to_linear_value(srgb[2] as int),
        linear[3] == srgb[3],
{
    [srgb_to_linear(srgb[0]), srgb_to_linear(srgb[1]), srgb_to_linear(srgb[2]), srgb[3]]
}

/// Converts an sRGB colour given as 8-bit channels, with a fixed-point
/// alpha, to linear light.
pub fn srgb_u8_to_linear_f32(r: u8, g: u8, b: u8, a: i32) -> (linear: [i32; 4])
    ensures
        linear[0] == srgb_to_linear_value(channel_from_byte(r as int)),
        linear[1] == srgb_to_linear_value(channel_from_byte(g as int)),
        linear[2] == srgb_to_linear_value(channel_from_byte(b as int)),
        linear[3] == a,
{
    srgb_to_linear_rgba(
        [
            (r as i32 * 65536) / 255,
            (g as i32 * 65536) / 255,
            (b as i32 * 65536) / 255,
            a,
        ],
    )
}

} // verus!
