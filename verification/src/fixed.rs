//! Signed fixed-point plane arithmetic with 32 fractional bits.
//!
//! A [`Fx`] holds a raw `i64` and stands for the real number
//! `raw / 2^32`. Every operation is total: where the exact result would
//! leave the raw range, the operation saturates at `i64::MAX` or
//! `-i64::MAX` (the range is kept symmetric so that negation is total too).
//! Products and quotients truncate toward zero, as the spec functions here
//! state exactly.

use vstd::prelude::*;
use vstd::arithmetic::mul::lemma_mul_upper_bound;
use vstd::arithmetic::mul::lemma_mul_inequality;
use vstd::arithmetic::div_mod::lemma_fundamental_div_mod;
use vstd::arithmetic::div_mod::lemma_div_denominator;
use vstd::arithmetic::div_mod::lemma_mod_bound;
use vstd::arithmetic::div_mod::lemma_div_pos_is_pos;
use vstd::arithmetic::power2::pow2;
use vstd::arithmetic::power2::lemma_pow2_pos;
use vstd::arithmetic::power2::lemma_pow2_adds;
use vstd::arithmetic::power2::lemma_pow2_unfold;
use vstd::arithmetic::power2::lemma_pow2_strictly_increases;
use vstd::arithmetic::power2::lemma2_to64;
use vstd::arithmetic::power2::lemma2_to64_rest;

verus! {

/// Raw value of one plane unit: 2^32.
pub const ONE_RAW: i64 = 0x1_0000_0000;

/// A plane quantity in fixed point: the number `raw / 2^32`.
#[derive(Clone, Copy, PartialEq, Eq, Structural, Debug)]
pub struct Fx {
    pub raw: i64,
}

/// Clamp an exact result into the symmetric raw range.
pub open spec fn sat(x: int) -> int {
    if x > i64::MAX as int {
        i64::MAX as int
    } else if x < -(i64::MAX as int) {
        -(i64::MAX as int)
    } else {
        x
    }
}

/// Magnitude of an integer.
pub open spec fn abs1(x: int) -> int {
    if x < 0 {
        -x
    } else {
        x
    }
}

/// Division by 2^32 truncating toward zero.
pub open spec fn tdiv_unit(x: int) -> int {
    if x >= 0 {
        x / 0x1_0000_0000
    } else {
        -((-x) / 0x1_0000_0000)
    }
}

/// What saturating addition returns.
pub open spec fn spec_add(a: int, b: int) -> int {
    sat(a + b)
}

/// What saturating subtraction returns.
pub open spec fn spec_sub(a: int, b: int) -> int {
    sat(a - b)
}

/// What negation returns.
pub open spec fn spec_neg(a: int) -> int {
    sat(-a)
}

/// What the fixed-point product returns: the exact product scaled back by
/// 2^32, truncated toward zero, then clamped.
pub open spec fn spec_mul(a: int, b: int) -> int {
    sat(tdiv_unit(a * b))
}

/// What scaling by a plain integer returns: exact, then clamped.
pub open spec fn spec_mul_int(k: int, a: int) -> int {
    sat(k * a)
}

/// What conversion from an integer returns.
pub open spec fn spec_from_int(n: int) -> int {
    sat(n * 0x1_0000_0000)
}

/// What conversion from a ratio returns, for `den >= 1`: `num / den`
/// scaled to raw, truncated toward zero, then clamped.
pub open spec fn spec_from_ratio(num: int, den: int) -> int {
    if num >= 0 {
        sat((num * 0x1_0000_0000) / den)
    } else {
        sat(-(((-num) * 0x1_0000_0000) / den))
    }
}

/// What the fixed-point quotient returns, for `b != 0`: `a / b` scaled to
/// raw, truncated toward zero, then clamped.
pub open spec fn spec_div(a: int, b: int) -> int {
    let q = (abs1(a) * 0x1_0000_0000) / abs1(b);
    if (a < 0) != (b < 0) {
        sat(-q)
    } else {
        sat(q)
    }
}

impl Fx {
    /// The quantity zero.
    pub fn zero() -> (r: Fx)
        ensures
            r.raw == 0,
    {
        Fx { raw: 0 }
    }

    /// The quantity one.
    pub fn one() -> (r: Fx)
        ensures
            r.raw == ONE_RAW,
    {
        Fx { raw: ONE_RAW }
    }

    /// Build a quantity from its raw representation.
    pub fn from_raw(raw: i64) -> (r: Fx)
        ensures
            r.raw == raw,
    {
        Fx { raw }
    }

    /// The whole number `n`.
    pub fn from_int(n: i64) -> (r: Fx)
        ensures
            r.raw as int == spec_from_int(n as int),
    {
        let s: i128 = (n as i128) * 0x1_0000_0000i128;
        Fx { raw: clamp_i128(s) }
    }

    /// The ratio `num / den`.
    pub fn from_ratio(num: i64, den: i64) -> (r: Fx)
        requires
            den >= 1,
        ensures
            r.raw as int == spec_from_ratio(num as int, den as int),
    {
        let neg: bool = num < 0;
        let mn: u128 = (abs_raw(num) as u128) * 0x1_0000_0000u128;
        let q: u128 = mn / (den as u128);
        let mag: i64 = if q > i64::MAX as u128 {
            i64::MAX
        } else {
            q as i64
        };
        if neg {
            Fx { raw: -mag }
        } else {
            Fx { raw: mag }
        }
    }
}

/// Clamp an exact `i128` result into the raw range.
pub(crate) fn clamp_i128(s: i128) -> (r: i64)
    ensures
        r as int == sat(s as int),
{
    if s > i64::MAX as i128 {
        i64::MAX
    } else if s < -(i64::MAX as i128) {
        -i64::MAX
    } else {
        s as i64
    }
}

/// Magnitude of a raw value, as an unsigned word.
fn abs_raw(a: i64) -> (r: u64)
    ensures
        r as int == abs1(a as int),
{
    if a < 0 {
        (-(a as i128)) as u64
    } else {
        a as u64
    }
}

/// Saturating addition.
pub fn fx_add(a: Fx, b: Fx) -> (r: Fx)
    ensures
        r.raw as int == spec_add(a.raw as int, b.raw as int),
{
    let s: i128 = (a.raw as i128) + (b.raw as i128);
    Fx { raw: clamp_i128(s) }
}

/// Saturating subtraction.
pub fn fx_sub(a: Fx, b: Fx) -> (r: Fx)
    ensures
        r.raw as int == spec_sub(a.raw as int, b.raw as int),
{
    let s: i128 = (a.raw as i128) - (b.raw as i128);
    Fx { raw: clamp_i128(s) }
}

/// Negation.
pub fn fx_neg(a: Fx) -> (r: Fx)
    ensures
        r.raw as int == spec_neg(a.raw as int),
{
    let s: i128 = -(a.raw as i128);
    Fx { raw: clamp_i128(s) }
}

/// How signs and magnitudes of a product relate.
proof fn lemma_mul_signs(a: int, b: int, ma: int, mb: int)
    by (nonlinear_arith)
    requires
        ma == if a < 0 { -a } else { a },
        mb == if b < 0 { -b } else { b },
    ensures
        a * b >= 0 ==> ma * mb == a * b,
        a * b < 0 ==> ma * mb == -(a * b),
        ((a < 0) != (b < 0)) ==> a * b <= 0,
        (!((a < 0) != (b < 0))) ==> a * b >= 0,
{
}

/// Saturating fixed-point multiplication.
pub fn fx_mul(a: Fx, b: Fx) -> (r: Fx)
    ensures
        r.raw as int == spec_mul(a.raw as int, b.raw as int),
        a.raw == b.raw ==> r.raw >= 0,
{
    let neg: bool = (a.raw < 0) != (b.raw < 0);
    let ma: u128 = abs_raw(a.raw) as u128;
    let mb: u128 = abs_raw(b.raw) as u128;
    proof {
        lemma_mul_signs(a.raw as int, b.raw as int, ma as int, mb as int);
        lemma_mul_upper_bound(ma as int, 0x8000_0000_0000_0000, mb as int, 0x8000_0000_0000_0000);
    }
    let m: u128 = (ma * mb) / 0x1_0000_0000u128;
    let mag: i64 = if m > i64::MAX as u128 {
        i64::MAX
    } else {
        m as i64
    };
    if neg {
        Fx { raw: -mag }
    } else {
        Fx { raw: mag }
    }
}

/// Saturating multiplication by a plain integer.
pub fn fx_mul_int(k: i64, a: Fx) -> (r: Fx)
    ensures
        r.raw as int == spec_mul_int(k as int, a.raw as int),
{
    let neg: bool = (k < 0) != (a.raw < 0);
    let mk: u128 = abs_raw(k) as u128;
    let ma: u128 = abs_raw(a.raw) as u128;
    proof {
        lemma_mul_signs(k as int, a.raw as int, mk as int, ma as int);
        lemma_mul_upper_bound(mk as int, 0x8000_0000_0000_0000, ma as int, 0x8000_0000_0000_0000);
    }
    let m: u128 = mk * ma;
    let mag: i64 = if m > i64::MAX as u128 {
        i64::MAX
    } else {
        m as i64
    };
    if neg {
        Fx { raw: -mag }
    } else {
        Fx { raw: mag }
    }
}

/// Saturating fixed-point division, for a non-zero divisor.
pub fn fx_div(a: Fx, b: Fx) -> (r: Fx)
    requires
        b.raw != 0,
    ensures
        r.raw as int == spec_div(a.raw as int, b.raw as int),
{
    let neg: bool = (a.raw < 0) != (b.raw < 0);
    let ma: u128 = (abs_raw(a.raw) as u128) * 0x1_0000_0000u128;
    let mb: u128 = abs_raw(b.raw) as u128;
    let q: u128 = ma / mb;
    let mag: i64 = if q > i64::MAX as u128 {
        i64::MAX
    } else {
        q as i64
    };
    if neg {
        Fx { raw: -mag }
    } else {
        Fx { raw: mag }
    }
}

/// The fixed-point square of any quantity is non-negative.
pub proof fn lemma_square_nonneg(a: int)
    ensures
        spec_mul(a, a) >= 0,
{
    assert(a * a >= 0) by (nonlinear_arith);
    lemma_div_pos_is_pos(a * a, 0x1_0000_0000);
}

/// `r` is the integer square root of `x`.
pub open spec fn is_isqrt(x: int, r: int) -> bool {
    0 <= r && r * r <= x && x < (r + 1) * (r + 1)
}

/// The integer square root, as a function.
pub open spec fn spec_isqrt(x: int) -> int {
    choose|r: int| is_isqrt(x, r)
}

/// Two integer square roots of the same number are equal.
pub proof fn lemma_isqrt_unique(x: int, r1: int, r2: int)
    by (nonlinear_arith)
    requires
        0 <= r1,
        r1 * r1 <= x,
        x < (r1 + 1) * (r1 + 1),
        0 <= r2,
        r2 * r2 <= x,
        x < (r2 + 1) * (r2 + 1),
    ensures
        r1 == r2,
{
}

/// A witness pins [`spec_isqrt`] down.
pub proof fn lemma_isqrt_value(x: int, r: int)
    requires
        0 <= r,
        r * r <= x,
        x < (r + 1) * (r + 1),
    ensures
        spec_isqrt(x) == r,
{
    assert(is_isqrt(x, r));
    let c = choose|q: int| is_isqrt(x, q);
    assert(is_isqrt(x, c));
    lemma_isqrt_unique(x, c, r);
}

/// Integer square root by bisection.
pub(crate) fn isqrt_u128(x: u128) -> (r: u64)
    requires
        x < 0x1_0000_0000_0000_0000_0000_0000u128,
    ensures
        r < 0x1_0000_0000_0000u64,
        is_isqrt(x as int, r as int),
        r as int == spec_isqrt(x as int),
{
    let mut lo: u64 = 0;
    let mut hi: u64 = 0x1_0000_0000_0000u64;
    proof {
        assert((0x1_0000_0000_0000int) * (0x1_0000_0000_0000int)
            == 0x1_0000_0000_0000_0000_0000_0000int) by (nonlinear_arith);
    }
    while lo + 1 < hi
        invariant
            lo < hi,
            hi <= 0x1_0000_0000_0000u64,
            (lo as int) * (lo as int) <= x as int,
            (x as int) < (hi as int) * (hi as int),
        decreases hi - lo,
    {
        let mid: u64 = lo + (hi - lo) / 2;
        proof {
            lemma_mul_upper_bound(mid as int, 0x1_0000_0000_0000int, mid as int, 0x1_0000_0000_0000int);
        }
        let sq: u128 = (mid as u128) * (mid as u128);
        if sq <= x {
            lo = mid;
        } else {
            hi = mid;
        }
    }
    proof {
        lemma_isqrt_value(x as int, lo as int);
    }
    lo
}

/// What the fixed-point square root of a raw value `x >= 0` returns: the
/// integer square root of the raw value rescaled so that the result is a
/// raw value again.
pub open spec fn spec_sqrt(x: int) -> int {
    spec_isqrt(x * 0x1_0000_0000)
}

/// Fixed-point square root, truncated toward zero.
pub fn fx_sqrt(a: Fx) -> (r: Fx)
    requires
        a.raw >= 0,
    ensures
        r.raw as int == spec_sqrt(a.raw as int),
        is_isqrt((a.raw as int) * 0x1_0000_0000, r.raw as int),
        0 <= r.raw < 0x1_0000_0000_0000i64,
{
    let x: u128 = (a.raw as u128) * 0x1_0000_0000u128;
    let r: u64 = isqrt_u128(x);
    Fx { raw: r as i64 }
}

/// The whole part of the base-2 logarithm, 0 below 2.
pub open spec fn spec_ilog2(x: int) -> int
    decreases x,
{
    if x < 2 {
        0
    } else {
        1 + spec_ilog2(x / 2)
    }
}

/// [`spec_ilog2`] is characterised by the two neighbouring powers of 2.
pub proof fn lemma_ilog2_bounds(x: int)
    requires
        x >= 1,
    ensures
        0 <= spec_ilog2(x),
        pow2(spec_ilog2(x) as nat) <= x,
        x < pow2((spec_ilog2(x) + 1) as nat),
    decreases x,
{
    lemma2_to64();
    if x < 2 {
    } else {
        lemma_ilog2_bounds(x / 2);
        let k = spec_ilog2(x / 2);
        lemma_fundamental_div_mod(x, 2);
        lemma_mod_bound(x, 2);
        lemma_pow2_unfold((k + 1) as nat);
        lemma_pow2_unfold((k + 2) as nat);
        assert(x >= 2 * (x / 2));
        assert(x < 2 * (x / 2) + 2);
    }
}

/// The characterisation determines [`spec_ilog2`].
pub proof fn lemma_ilog2_value(x: int, k: int)
    requires
        x >= 1,
        0 <= k,
        pow2(k as nat) <= x,
        x < pow2((k + 1) as nat),
    ensures
        spec_ilog2(x) == k,
{
    let j = spec_ilog2(x);
    lemma_ilog2_bounds(x);
    if j < k {
        lemma_pow2_strictly_increases((j + 1) as nat, (k + 1) as nat);
        if j + 1 < k {
            lemma_pow2_strictly_increases((j + 1) as nat, k as nat);
        }
        assert(x < pow2(k as nat));
    }
    if k < j {
        if k + 1 < j {
            lemma_pow2_strictly_increases((k + 1) as nat, j as nat);
        }
        assert(x < pow2(j as nat));
    }
}

/// Raw value of the natural logarithm of 2, truncated.
pub const LN2_RAW: i64 = 2977044471;

/// What the fixed-point natural logarithm of a raw value `x >= 2^32`
/// returns: the base-2 logarithm, approximated between neighbouring powers
/// of 2 by linear interpolation of the mantissa, scaled by `ln 2`.
pub open spec fn spec_ln(x: int) -> int {
    let k = spec_ilog2(x);
    let m = x / (pow2((k - 32) as nat) as int);
    tdiv_unit((((k - 32) * 0x1_0000_0000) + (m - 0x1_0000_0000)) * 2977044471)
}

/// Fixed-point natural logarithm for arguments of at least one.
///
/// The result is a piecewise-linear approximation: exact at every power of
/// 2 (up to truncation) and linear in the mantissa in between.
pub fn fx_ln(a: Fx) -> (r: Fx)
    requires
        a.raw >= 0x1_0000_0000i64,
    ensures
        r.raw as int == spec_ln(a.raw as int),
        r.raw >= 0,
{
    proof {
        lemma2_to64();
        lemma2_to64_rest();
    }
    let x: u64 = a.raw as u64;
    let mut t: u64 = x;
    let mut k: u32 = 0;
    while t >= 0x2_0000_0000u64
        invariant
            x == a.raw,
            a.raw >= 0x1_0000_0000i64,
            t as int == (a.raw as int) / (pow2(k as nat) as int),
            t >= 0x1_0000_0000u64,
            k <= 31,
        decreases t,
    {
        proof {
            lemma2_to64();
            lemma2_to64_rest();
            lemma_pow2_pos(k as nat);
            let p = pow2(k as nat) as int;
            lemma_fundamental_div_mod(a.raw as int, p);
            lemma_mod_bound(a.raw as int, p);
            assert(a.raw as int >= p * (t as int));
            lemma_mul_inequality(0x2_0000_0000int, t as int, p);
            lemma_pow2_adds(k as nat, 33);
            assert(a.raw as int >= pow2((k + 33) as nat));
            if k + 33 == 63 {
                assert(false);
            }
            if k + 33 > 63 {
                lemma_pow2_strictly_increases(63, (k + 33) as nat);
                assert(false);
            }
            assert(k < 30);
            lemma_pow2_adds(k as nat, 1);
            lemma_div_denominator(a.raw as int, p, 2);
            assert((t as int) / 2 == (a.raw as int) / (pow2((k + 1) as nat) as int));
        }
        t = t / 2;
        k = k + 1;
    }
    proof {
        lemma_pow2_pos(k as nat);
        let p = pow2(k as nat) as int;
        lemma_fundamental_div_mod(a.raw as int, p);
        lemma_mod_bound(a.raw as int, p);
        assert(a.raw as int >= p * (t as int));
        assert((a.raw as int) < p * (t as int) + p);
        assert(p * (t as int + 1) == p * (t as int) + p) by (nonlinear_arith);
        lemma_mul_inequality(0x1_0000_0000int, t as int, p);
        lemma_mul_inequality(t as int + 1, 0x2_0000_0000int, p);
        lemma_pow2_adds(k as nat, 32);
        lemma_pow2_adds(k as nat, 33);
        assert(a.raw as int >= pow2((k + 32) as nat));
        assert((a.raw as int) < pow2((k + 33) as nat));
        lemma_ilog2_value(a.raw as int, k as int + 32);
        assert(spec_ilog2(a.raw as int) == k as int + 32);
    }
    let l2: u64 = (k as u64) * 0x1_0000_0000u64 + (t - 0x1_0000_0000u64);
    let prod: u128 = (l2 as u128) * 2977044471u128;
    let rraw: u64 = (prod / 0x1_0000_0000u128) as u64;
    Fx { raw: rraw as i64 }
}

} // verus!
