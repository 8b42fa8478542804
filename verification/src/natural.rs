//! Natural numbers of any size.
//!
//! A number is a sequence of 64-bit limbs, least significant first. The
//! module offers just what an exact comparison of large powers needs:
//! multiplication by a single limb, and comparison.
use vstd::prelude::*;

verus! {

/// The weight of the limb at place `k`: two to the power `64 * k`.
pub open spec fn weight(k: nat) -> nat
    decreases k,
{
    if k == 0 {
        1
    } else {
        0x1_0000_0000_0000_0000 * weight((k - 1) as nat)
    }
}

/// The limb at place `i`; places beyond the sequence hold zero.
pub open spec fn limb(s: Seq<u64>, i: int) -> nat {
    if 0 <= i < s.len() {
        s[i] as nat
    } else {
        0
    }
}

/// The number that the first `n` limbs stand for.
pub open spec fn value_upto(s: Seq<u64>, n: nat) -> nat
    decreases n,
{
    if n == 0 {
        0
    } else {
        value_upto(s, (n - 1) as nat) + limb(s, n - 1) * weight((n - 1) as nat)
    }
}

/// The number that a sequence of limbs stands for.
pub open spec fn value(s: Seq<u64>) -> nat {
    value_upto(s, s.len())
}

/// `base` raised to the power `exponent`.
pub open spec fn power(base: nat, exponent: nat) -> nat
    decreases exponent,
{
    if exponent == 0 {
        1
    } else {
        power(base, (exponent - 1) as nat) * base
    }
}

/// Sequences that agree on their first `n` limbs stand for the same number
/// up to there.
pub proof fn lemma_value_prefix(s: Seq<u64>, t: Seq<u64>, n: nat)
    requires
        forall|i: int| 0 <= i < n ==> limb(s, i) == limb(t, i),
    ensures
        value_upto(s, n) == value_upto(t, n),
    decreases n,
{
    if n > 0 {
        lemma_value_prefix(s, t, (n - 1) as nat);
    }
}

/// Places beyond the sequence add nothing.
pub proof fn lemma_value_beyond(s: Seq<u64>, n: nat)
    requires
        s.len() <= n,
    ensures
        value_upto(s, n) == value(s),
    decreases n,
{
    if n > s.len() {
        lemma_value_beyond(s, (n - 1) as nat);
        assert(0 * weight((n - 1) as nat) == 0) by (nonlinear_arith);
    }
}

/// The first `n` limbs stand for a number below the weight of place `n`.
pub proof fn lemma_value_below_weight(s: Seq<u64>, n: nat)
    ensures
        value_upto(s, n) < weight(n),
        0 < weight(n),
    decreases n,
{
    if n > 0 {
        lemma_value_below_weight(s, (n - 1) as nat);
        let w = weight((n - 1) as nat);
        let x = limb(s, n - 1);
        assert(x * w + w <= 0x1_0000_0000_0000_0000 * w) by (nonlinear_arith)
            requires
                0 <= x <= 0xffff_ffff_ffff_ffff,
                0 < w,
        ;
    }
}

/// A power does not fall when its base grows.
pub proof fn lemma_power_monotone(a: nat, b: nat, exponent: nat)
    requires
        a <= b,
    ensures
        power(a, exponent) <= power(b, exponent),
    decreases exponent,
{
    if exponent > 0 {
        lemma_power_monotone(a, b, (exponent - 1) as nat);
        let x = power(a, (exponent - 1) as nat);
        let y = power(b, (exponent - 1) as nat);
        assert(x * a <= y * b) by (nonlinear_arith)
            requires
                0 <= x <= y,
                0 <= a <= b,
        ;
    }
}

/// The number one.
pub fn one() -> (r: Vec<u64>)
    ensures
        value(r@) == 1,
{
    let mut r: Vec<u64> = Vec::new();
    r.push(1);
    proof {
        assert(r@.len() == 1 && r@[0] == 1);
        assert(weight(0) == 1);
        assert(value_upto(r@, 0) == 0);
        assert(limb(r@, 0) == 1);
        assert(value_upto(r@, 1) == value_upto(r@, 0) + limb(r@, 0) * weight(0));
    }
    r
}

/// The product of a number and a single limb.
pub fn times(a: &Vec<u64>, m: u64) -> (r: Vec<u64>)
    ensures
        value(r@) == value(a@) * m,
{
    let mut out: Vec<u64> = Vec::new();
    let mut carry: u128 = 0;
    let mut i: usize = 0;
    assert(0 * weight(0) == 0nat * (m as nat));
    while i < a.len()
        invariant
            i <= a@.len(),
            out@.len() == i,
            carry <= 0xffff_ffff_ffff_ffff,
            value_upto(out@, i as nat) + carry * weight(i as nat) == value_upto(a@, i as nat) * m,
        decreases a@.len() - i,
    {
        let x: u64 = a[i];
        assert(x * m <= 0xffff_ffff_ffff_ffff * 0xffff_ffff_ffff_ffff) by (nonlinear_arith)
            requires
                0 <= x <= 0xffff_ffff_ffff_ffff,
                0 <= m <= 0xffff_ffff_ffff_ffff,
        ;
        let t: u128 = (x as u128) * (m as u128) + carry;
        let low: u64 = (t % 0x1_0000_0000_0000_0000) as u64;
        let high: u128 = t / 0x1_0000_0000_0000_0000;
        let ghost before = out@;
        out.push(low);
        proof {
            let w = weight(i as nat);
            let done = value_upto(before, i as nat);
            let read = value_upto(a@, i as nat);
            lemma_value_prefix(out@, before, i as nat);
            assert(limb(out@, i as int) == low);
            assert(limb(a@, i as int) == x);
            assert(weight((i + 1) as nat) == 0x1_0000_0000_0000_0000 * w);
            assert(done + low * w + high * (0x1_0000_0000_0000_0000 * w) == (read + x * w) * m)
                by (nonlinear_arith)
                requires
                    done + carry * w == read * m,
                    low + high * 0x1_0000_0000_0000_0000 == x * m + carry,
            ;
        }
        carry = high;
        i += 1;
    }
    let ghost before = out@;
    out.push(carry as u64);
    proof {
        let n = a@.len();
        lemma_value_prefix(out@, before, n);
        assert(limb(out@, n as int) == carry);
        assert(value(out@) == value_upto(out@, n) + limb(out@, n as int) * weight(n));
    }
    out
}

/// `base` raised to the power `exponent`.
pub fn raise(base: u64, exponent: u32) -> (r: Vec<u64>)
    ensures
        value(r@) == power(base as nat, exponent as nat),
{
    let mut r = one();
    let mut done: u32 = 0;
    while done < exponent
        invariant
            done <= exponent,
            value(r@) == power(base as nat, done as nat),
        decreases exponent - done,
    {
        r = times(&r, base);
        done += 1;
    }
    r
}

/// Whether the first number is at most the second.
pub fn at_most(a: &Vec<u64>, b: &Vec<u64>) -> (r: bool)
    ensures
        r == (value(a@) <= value(b@)),
{
    let n: usize = if a.len() > b.len() {
        a.len()
    } else {
        b.len()
    };
    let mut less: bool = false;
    let mut equal: bool = true;
    let mut i: usize = 0;
    while i < n
        invariant
            i <= n,
            a@.len() <= n,
            b@.len() <= n,
            equal == (value_upto(a@, i as nat) == value_upto(b@, i as nat)),
            less == (value_upto(a@, i as nat) < value_upto(b@, i as nat)),
        decreases n - i,
    {
        let x: u64 = if i < a.len() {
            a[i]
        } else {
            0
        };
        let y: u64 = if i < b.len() {
            b[i]
        } else {
            0
        };
        proof {
            let w = weight(i as nat);
            let va = value_upto(a@, i as nat);
            let vb = value_upto(b@, i as nat);
            lemma_value_below_weight(a@, i as nat);
            lemma_value_below_weight(b@, i as nat);
            assert(limb(a@, i as int) == x);
            assert(limb(b@, i as int) == y);
            if x < y {
                assert(va + x * w < vb + y * w) by (nonlinear_arith)
                    requires
                        0 <= va < w,
                        0 <= vb,
                        0 <= x < y,
                ;
            } else if x > y {
                assert(vb + y * w < va + x * w) by (nonlinear_arith)
                    requires
                        0 <= vb < w,
                        0 <= va,
                        0 <= y < x,
                ;
            }
        }
        if x < y {
            less = true;
            equal = false;
        } else if x > y {
            less = false;
            equal = false;
        }
        i += 1;
    }
    proof {
        lemma_value_beyond(a@, n as nat);
        lemma_value_beyond(b@, n as nat);
    }
    less || equal
}

} // verus!
