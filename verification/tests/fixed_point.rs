use latcarf::fixed::Fx;
use latcarf::fixed::fx_add;
use latcarf::fixed::fx_sub;
use latcarf::fixed::fx_neg;
use latcarf::fixed::fx_mul;
use latcarf::fixed::fx_mul_int;
use latcarf::fixed::fx_div;
use latcarf::fixed::fx_sqrt;
use latcarf::fixed::fx_ln;

const ONE: i64 = 1 << 32;

#[test]
fn test_fx_constructors() {
    assert_eq!(Fx::from_int(3).raw, 3 * ONE);
    assert_eq!(Fx::from_int(-2).raw, -2 * ONE);
    // 2.1 truncated to 32 fractional bits.
    assert_eq!(Fx::from_ratio(21, 10).raw, 21 * ONE / 10);
    assert_eq!(Fx::from_ratio(1, 4).raw, ONE / 4);
    assert_eq!(Fx::from_ratio(-1, 2).raw, -(ONE / 2));
}

#[test]
fn test_fx_arithmetic_exact() {
    let three = Fx::from_int(3);
    let two = Fx::from_int(2);
    assert_eq!(fx_add(three, two).raw, 5 * ONE);
    assert_eq!(fx_sub(two, three).raw, -ONE);
    assert_eq!(fx_neg(three).raw, -3 * ONE);
    assert_eq!(fx_mul(three, two).raw, 6 * ONE);
    assert_eq!(fx_mul(Fx::from_ratio(-3, 2), two).raw, -3 * ONE);
    assert_eq!(fx_mul_int(-4, two).raw, -8 * ONE);
    assert_eq!(fx_div(Fx::from_int(1), two).raw, ONE / 2);
    assert_eq!(fx_div(Fx::from_int(-1), two).raw, -(ONE / 2));
}

#[test]
fn test_fx_saturates_instead_of_overflowing() {
    let top = Fx::from_raw(i64::MAX);
    assert_eq!(fx_add(top, Fx::from_int(1)).raw, i64::MAX);
    assert_eq!(fx_sub(Fx::from_raw(-i64::MAX), Fx::from_int(1)).raw, -i64::MAX);
    assert_eq!(fx_mul(top, top).raw, i64::MAX);
    assert_eq!(fx_mul(top, Fx::from_raw(-i64::MAX)).raw, -i64::MAX);
    assert_eq!(fx_neg(Fx::from_raw(i64::MIN)).raw, i64::MAX);
}

#[test]
fn test_fx_sqrt_values() {
    assert_eq!(fx_sqrt(Fx::from_int(4)).raw, 2 * ONE);
    assert_eq!(fx_sqrt(Fx::from_int(9)).raw, 3 * ONE);
    assert_eq!(fx_sqrt(Fx::from_int(0)).raw, 0);
    // sqrt(2) truncated: the integer square root of 2 * 2^64.
    let r = fx_sqrt(Fx::from_int(2)).raw;
    assert!((r as i128) * (r as i128) <= (2i128) << 64);
    assert!(((r + 1) as i128) * ((r + 1) as i128) > (2i128) << 64);
}

#[test]
fn test_fx_ln_values() {
    // Exact at powers of two: ln(2^k) is k times the raw ln 2.
    assert_eq!(fx_ln(Fx::from_int(1)).raw, 0);
    assert_eq!(fx_ln(Fx::from_int(2)).raw, 2977044471);
    assert_eq!(fx_ln(Fx::from_int(4)).raw, 2 * 2977044471);
    // Between powers of two the mantissa interpolates linearly:
    // ln(3) comes out as (1 + 1/2) ln 2.
    assert_eq!(fx_ln(Fx::from_int(3)).raw, 3 * 2977044471 / 2);
}
