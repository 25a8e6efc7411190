use std::str::FromStr;

use decmath::complex::basic::{c_pow, cc_pow, cpx};
use decmath::complex::euler::{c_exp, c_ln};
use decmath::complex::riemann::zeta;
use decmath::complex::trigonometry::{c_atan, c_cos, c_sin, c_tan};
use decmath::complex::types::{Complex, Polar};
use decmath::constants::{constant, Constant};
use decmath::decimal::Dec;
use decmath::error::Error;
use rust_decimal::Decimal;

const TEST_ITER: usize = 16;
const TEST_DIG: u32 = 24;

fn d(s: &str) -> Dec {
    let v = Decimal::from_str(s).unwrap();
    Dec::new(v.mantissa(), v.scale())
}

fn di(n: i64) -> Dec {
    Dec::from_int(n)
}

fn c(re: &str, im: &str) -> Complex {
    Complex::new(d(re), d(im))
}

#[test]
fn basic() -> Result<(), Error> {
    let cc_pow_test_std = c("-0.0466016701047362131681326903", "0.0296221438823630242149182959").round_dp(TEST_DIG);
    let mut cn1 = c("-1", "0");
    let c1div2 = c("0.5", "0");
    let c2 = c("2", "0");
    let mut c4 = c("4", "0");
    let mut c4i3 = c("4", "3");
    let mut c7i24 = c("7", "24");
    let cn1i2 = c("-1", "2");
    let res1 = cc_pow(&mut cn1, c1div2, TEST_ITER)?.round_dp(TEST_DIG);
    assert_eq!(res1, Complex::i());
    let res2 = cc_pow(&mut c4, c1div2, TEST_ITER)?.round_dp(TEST_DIG);
    assert_eq!(res2, c2);
    let res3 = cc_pow(&mut c7i24, c1div2, TEST_ITER)?.round_dp(TEST_DIG);
    assert_eq!(res3, c4i3);
    let res4 = cc_pow(&mut c4i3, c2, TEST_ITER)?.round_dp(TEST_DIG);
    assert_eq!(res4, c7i24);
    let res5 = cc_pow(&mut c4i3, cn1i2, TEST_ITER)?.round_dp(TEST_DIG);
    assert_eq!(res5, cc_pow_test_std);
    Ok(())
}

#[test]
fn tests_trigonometry() -> Result<(), Error> {
    let asin_2 = c("1.5707963267948966192313216916", "-1.316957896924816708625046347");
    let acos_3i1 = c("0.3377011092655525270851559001", "-1.824198702193882734419662159");
    let atan_1in3 = c("1.4614618538579256382102348165", "-0.3059438579055289264121938212");
    let atan_1in3_std = atan_1in3.round_dp(TEST_DIG);
    let res1 = c_sin(asin_2, TEST_ITER)?.round_dp(TEST_DIG);
    assert_eq!(res1, c("2", "0"));
    let res2 = c_cos(acos_3i1, TEST_ITER)?.round_dp(TEST_DIG);
    assert_eq!(res2, c("3", "1"));
    let res3 = c_tan(atan_1in3, TEST_ITER)?.round_dp(TEST_DIG);
    assert_eq!(res3, c("1", "-3"));
    let res4 = c_atan(c("1", "-3"), TEST_ITER)?.round_dp(TEST_DIG);
    assert_eq!(res4, atan_1in3_std);
    Ok(())
}

#[test]
fn riemann() -> Result<(), Error> {
    let pi = constant(Constant::Pi);
    let pi_sqr_div6 = Complex::new(pi.try_mul(pi)?.try_div(di(6))?, di(0)).round_dp(3);
    let res1 = zeta(c("2", "0"), 10_000, TEST_ITER)?.round_dp(3);
    assert_eq!(res1, pi_sqr_div6);
    Ok(())
}

#[test]
fn zeta_outside_domain() {
    assert_eq!(zeta(c("1", "0"), 10, 16), Err(Error::InputOutOfRange));
    assert_eq!(zeta(c("0.5", "14"), 10, 16), Err(Error::InputOutOfRange));
}

#[test]
fn complex_ln_of_zero_is_a_domain_error() {
    let mut z = c("0", "0");
    assert_eq!(c_ln(&mut z, 16), Err(Error::InputOutOfRange));
}

#[test]
fn complex_arithmetic() -> Result<(), Error> {
    let a = c("4", "3");
    let b = c("1", "-2");
    assert_eq!(a.add(&b)?, c("5", "1"));
    assert_eq!(a.sub(&b)?, c("3", "5"));
    assert_eq!(a.mul(&b)?, c("10", "-5"));
    assert_eq!(a.div(&b)?, c("-0.4", "2.2"));
    assert_eq!(a.radius_sqr()?, di(25));
    assert_eq!(a.conj(), c("4", "-3"));
    assert_eq!(a.neg(), c("-4", "-3"));
    assert_eq!(c("0", "2").inv()?, c("0", "-0.5"));
    assert_eq!(a.scale(di(2))?, c("8", "6"));
    assert_eq!(a.unscale(di(2))?, c("2", "1.5"));
    assert_eq!(c("2.5", "-3.5").round(), c("2", "-4"));
    assert_eq!(c_pow(a, 2)?, c("7", "24"));
    assert_eq!(c_pow(a, 0)?, c("1", "0"));
    assert_eq!(cpx(3), c("3", "0"));
    Ok(())
}

#[test]
fn complex_pow_scenarios() -> Result<(), Error> {
    let mut m1 = c("-1", "0");
    assert_eq!(cc_pow(&mut m1, c("0.5", "0"), 16)?.round_dp(24), Complex::i());
    let mut z = c("4", "3");
    assert_eq!(cc_pow(&mut z, c("2", "0"), 16)?.round_dp(24), c("7", "24"));
    Ok(())
}

#[test]
fn radius_cache_is_tagged_with_its_term_count() -> Result<(), Error> {
    let mut z = c("3", "4");
    assert_eq!(z.radius(8)?.round_dp(8), di(5));
    assert_eq!(z.radius_cache.map(|p| p.0), Some(8));
    z.radius(4)?;
    assert_eq!(z.radius_cache.map(|p| p.0), Some(8));
    z.radius(12)?;
    assert_eq!(z.radius_cache.map(|p| p.0), Some(12));
    let r = z.reset();
    assert!(r.radius_cache.is_none());
    Ok(())
}

#[test]
fn axis_modulus_is_exact() -> Result<(), Error> {
    let mut z = c("-7", "0");
    assert_eq!(z.radius(16)?, di(7));
    let mut w = c("0", "-2.5");
    assert_eq!(w.radius(16)?, d("2.5"));
    Ok(())
}

#[test]
fn polar_round_trip() -> Result<(), Error> {
    let mut z = c("1", "1");
    let mut p = z.to_polar(24)?;
    assert_eq!(p.radius().round_dp(16), d("1.4142135623730950488016887242").round_dp(16));
    assert_eq!(p.arg().round_dp(16), constant(Constant::PiDiv4).round_dp(16));
    let back = p.to_cartesian(24)?;
    assert_eq!(back, z);
    let mut q = Polar::new(di(2), constant(Constant::PiDiv2));
    assert_eq!(q.re(24)?.round_dp(16), di(0));
    assert_eq!(q.im(24)?.round_dp(16), di(2));
    Ok(())
}

#[test]
fn polar_standard_form() -> Result<(), Error> {
    let mut p = Polar::new(di(-2), di(0));
    let s = p.to_std()?;
    assert_eq!(s.radius(), di(2));
    assert_eq!(s.arg(), constant(Constant::Pi));
    Ok(())
}

#[test]
fn complex_exp_of_zero_is_one() -> Result<(), Error> {
    assert_eq!(c_exp(c("0", "0"), 16)?, c("1", "0"));
    Ok(())
}

#[test]
fn polar_standard_form_takes_minus_pi_to_pi() -> Result<(), Error> {
    let pi = constant(Constant::Pi);
    let mut p = Polar::new(di(1), pi.neg());
    let s = p.to_std()?;
    assert_eq!(s.arg(), pi);
    assert_eq!(s.radius(), di(1));
    let mut q = Polar::new(di(-1), di(0));
    assert_eq!(q.to_std()?.arg(), pi);
    Ok(())
}

#[test]
fn polar_and_cartesian_conversions_fill_every_field() -> Result<(), Error> {
    let mut z = c("0", "2");
    let p = z.to_polar(24)?;
    assert_eq!(p.radius(), di(2));
    assert_eq!(p.arg(), constant(Constant::PiDiv2));
    assert_eq!(p.re_cache, Some((usize::MAX, di(0))));
    let mut q = Polar::new(di(3), constant(Constant::Pi));
    let w = q.to_cartesian(24)?;
    assert_eq!(w, c("-3", "0"));
    assert_eq!(w.radius_cache, Some((usize::MAX, di(3))));
    assert_eq!(w.arg_cache, Some((usize::MAX, constant(Constant::Pi))));
    Ok(())
}
