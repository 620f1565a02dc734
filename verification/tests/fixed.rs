use linear_motor::fixed::{Fixed, HALF_RAW, ONE_RAW};

fn fx(x: f64) -> Fixed {
    Fixed::from_raw((x * ONE_RAW as f64).round() as i64)
}

fn fl(x: Fixed) -> f64 {
    x.raw as f64 / ONE_RAW as f64
}

#[test]
fn whole_numbers_have_no_fraction() {
    assert_eq!(Fixed::from_int(3).raw, 3 * ONE_RAW);
    assert_eq!(Fixed::from_int(-7).raw, -7 * ONE_RAW);
    assert_eq!(Fixed::from_int(i32::MIN).raw, i64::MIN);
    assert_eq!(Fixed::zero().raw, 0);
    assert_eq!(Fixed::one().raw, ONE_RAW);
}

#[test]
fn sums_and_differences_are_exact() {
    assert_eq!(fx(1.5).plus(fx(2.25)), fx(3.75));
    assert_eq!(fx(1.5).minus(fx(2.25)), fx(-0.75));
    assert_eq!(fx(1.5).neg(), fx(-1.5));
}

#[test]
fn sums_saturate() {
    let top = Fixed::from_raw(i64::MAX);
    let bottom = Fixed::from_raw(i64::MIN);
    assert_eq!(top.plus(Fixed::one()).raw, i64::MAX);
    assert_eq!(bottom.minus(Fixed::one()).raw, i64::MIN);
    assert_eq!(bottom.neg().raw, i64::MAX);
}

#[test]
fn products_round_down() {
    assert_eq!(fx(1.5).times(fx(2.0)), fx(3.0));
    assert_eq!(fx(-1.5).times(fx(2.0)), fx(-3.0));
    // One raw unit times one half is half a raw unit: it rounds toward
    // minus infinity on both sides of zero.
    assert_eq!(Fixed::from_raw(1).times(Fixed::from_raw(HALF_RAW)).raw, 0);
    assert_eq!(Fixed::from_raw(-1).times(Fixed::from_raw(HALF_RAW)).raw, -1);
}

#[test]
fn products_saturate() {
    let big = Fixed::from_int(100_000);
    assert_eq!(big.times(big).raw, i64::MAX);
    assert_eq!(big.times(big.neg()).raw, i64::MIN);
}

#[test]
fn quotients_round_down() {
    assert_eq!(fx(3.0).over(fx(2.0)), fx(1.5));
    assert_eq!(fx(-3.0).over(fx(2.0)), fx(-1.5));
    assert_eq!(fx(3.0).over(fx(-2.0)), fx(-1.5));
    assert_eq!(Fixed::from_raw(1).over(fx(3.0)).raw, 0);
    assert_eq!(Fixed::from_raw(-1).over(fx(3.0)).raw, -1);
    assert_eq!(fx(1.0).over(fx(3.0)).raw, 1431655765);
}

#[test]
fn division_by_zero_saturates_by_sign() {
    assert_eq!(fx(1.0).over(Fixed::zero()).raw, i64::MAX);
    assert_eq!(fx(-1.0).over(Fixed::zero()).raw, i64::MIN);
    assert_eq!(Fixed::zero().over(Fixed::zero()).raw, 0);
}

#[test]
fn remainder_has_the_sign_of_the_dividend() {
    assert_eq!(fx(7.5).rem(fx(2.0)), fx(1.5));
    assert_eq!(fx(-7.5).rem(fx(2.0)), fx(-1.5));
    assert_eq!(fx(7.5).rem(fx(-2.0)), fx(1.5));
    assert_eq!(fx(7.5).rem(Fixed::zero()), Fixed::zero());
}

#[test]
fn smaller_and_larger() {
    assert_eq!(fx(1.0).min(fx(2.0)), fx(1.0));
    assert_eq!(fx(1.0).max(fx(2.0)), fx(2.0));
    assert_eq!(fx(-1.0).max(fx(-2.0)), fx(-1.0));
}

#[test]
fn rounding_to_counts() {
    assert_eq!(fx(2.4).round_u16(), 2);
    assert_eq!(fx(2.5).round_u16(), 3);
    assert_eq!(fx(-0.4).round_u16(), 0);
    assert_eq!(fx(-3.0).round_u16(), 0);
    assert_eq!(fx(70000.0).round_u16(), u16::MAX);
    assert_eq!(fx(2.9).trunc_u16(), 2);
    assert_eq!(fx(-2.9).trunc_u16(), 0);
    assert_eq!(fx(70000.0).trunc_u16(), u16::MAX);
}

#[test]
fn square_roots() {
    assert_eq!(fx(4.0).sqrt(), fx(2.0));
    assert_eq!(fx(0.25).sqrt(), fx(0.5));
    assert_eq!(fx(-4.0).sqrt(), Fixed::zero());
    assert_eq!(Fixed::zero().sqrt(), Fixed::zero());
    let r = fx(2.0).sqrt();
    assert!((fl(r) - std::f64::consts::SQRT_2).abs() < 1e-9);
    // The root is the largest number whose square does not exceed.
    let n = 2i128 * (ONE_RAW as i128) * (ONE_RAW as i128);
    assert!((r.raw as i128) * (r.raw as i128) <= n);
    assert!((r.raw as i128 + 1) * (r.raw as i128 + 1) > n);
}

#[test]
fn square_root_of_the_largest_number() {
    let r = Fixed::from_raw(i64::MAX).sqrt();
    let n = (i64::MAX as i128) * (ONE_RAW as i128);
    assert!((r.raw as i128) * (r.raw as i128) <= n);
    assert!((r.raw as i128 + 1) * (r.raw as i128 + 1) > n);
}
