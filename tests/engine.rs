use std::str::FromStr;

use decmath::basic::dd_pow;
use decmath::constants::{constant, Constant};
use decmath::decimal::Dec;
use decmath::error::Error;
use decmath::euler::{d_exp, d_ln};
use decmath::sqrt::{d_sqrt, i_sqrt};
use decmath::trigonometry::{atan, atan2, cos, sin};
use rust_decimal::Decimal;

const TEST_ITER: usize = 16;
const TEST_DIG: u32 = 24;

fn d(s: &str) -> Dec {
    let v = Decimal::from_str(s).unwrap();
    Dec::new(v.mantissa(), v.scale())
}

fn di(n: i64) -> Dec {
    Dec::from_int(n)
}

const SQRT_2: &str = "1.4142135623730950488016887242";
const SIN_1: &str = "0.8414709848078965066525023216";
const COS_1: &str = "0.5403023058681397174009366074";
const TAN_1: &str = "1.5574077246549022305069748075";

#[test]
fn sqrt() -> Result<(), Error> {
    let sqrt_2_std = d(SQRT_2).round_dp(TEST_DIG);
    let res1 = i_sqrt(di(4))?;
    assert_eq!(res1, di(2));
    let res2 = d_sqrt(di(4), TEST_ITER)?.round_dp(TEST_DIG);
    assert_eq!(res2, di(2));
    let res3 = d_sqrt(di(2), TEST_ITER)?.round_dp(TEST_DIG);
    assert_eq!(res3, sqrt_2_std);
    let res4 = dd_pow(di(4), d("0.5"), TEST_ITER)?.round_dp(TEST_DIG);
    assert_eq!(res4, di(2));
    let res5 = dd_pow(di(2), d("0.5"), TEST_ITER)?.round_dp(TEST_DIG);
    assert_eq!(res5, sqrt_2_std);
    Ok(())
}

#[test]
fn euler() -> Result<(), Error> {
    let e_sqr = constant(Constant::ESqr);
    let e_sqr_std = e_sqr.round_dp(TEST_DIG);
    let res1 = d_exp(di(2), TEST_ITER)?.round_dp(TEST_DIG);
    assert_eq!(res1, e_sqr_std);
    let res2 = d_ln(e_sqr, TEST_ITER)?.round_dp(TEST_DIG);
    assert_eq!(res2, di(2));
    Ok(())
}

#[test]
fn trigonometry() -> Result<(), Error> {
    let sin1_std = d(SIN_1).round_dp(TEST_DIG);
    let cos1_std = d(COS_1).round_dp(TEST_DIG);
    let res1 = sin(di(1), TEST_ITER)?.round_dp(TEST_DIG);
    assert_eq!(res1, sin1_std);
    let res2 = cos(di(1), TEST_ITER)?.round_dp(TEST_DIG);
    assert_eq!(res2, cos1_std);
    let res3 = atan(d(TAN_1), TEST_ITER)?.round_dp(TEST_DIG);
    assert_eq!(res3, di(1));
    let res4 = atan2(d(COS_1), d(SIN_1), TEST_ITER)?.round_dp(TEST_DIG);
    assert_eq!(res4, di(1));
    Ok(())
}

#[test]
fn exact_cases_for_every_term_count() {
    for terms in [0usize, 1, 2, 5, 16, 24] {
        assert_eq!(d_sqrt(di(0), terms), Ok(di(0)));
        assert_eq!(d_sqrt(di(1), terms), Ok(di(1)));
        assert_eq!(d_exp(di(0), terms), Ok(di(1)));
        assert_eq!(d_exp(di(1), terms), Ok(constant(Constant::E)));
        assert_eq!(d_ln(di(1), terms), Ok(di(0)));
        assert_eq!(d_ln(constant(Constant::E), terms), Ok(di(1)));
    }
}

#[test]
fn exact_cases_compare_by_value() {
    assert_eq!(d_sqrt(d("1.000"), 3), Ok(di(1)));
    assert_eq!(d_exp(d("0.00"), 3), Ok(di(1)));
    assert_eq!(d_exp(di(-1), 3), Ok(constant(Constant::InvE)));
    assert_eq!(d_ln(constant(Constant::InvE), 3), Ok(di(-1)));
}

#[test]
fn domain_errors() {
    assert_eq!(d_sqrt(di(-1), 16), Err(Error::InputOutOfRange));
    assert_eq!(d_sqrt(d("-0.0001"), 0), Err(Error::InputOutOfRange));
    assert_eq!(d_ln(di(0), 16), Err(Error::InputOutOfRange));
    assert_eq!(d_ln(di(-3), 16), Err(Error::InputOutOfRange));
    assert_eq!(dd_pow(di(-4), d("0.5"), 16), Err(Error::InputOutOfRange));
}

#[test]
fn atan2_rejects_pair_off_the_unit_circle() {
    assert_eq!(atan2(d("0.6"), d("0.6"), 16), Err(Error::InvalidSineCosinePair));
    assert_eq!(atan2(di(0), di(0), 16), Err(Error::InvalidSineCosinePair));
    for terms in [0usize, 1, 2, 3, 40] {
        assert_eq!(atan2(d("0.6"), d("0.6"), terms), Err(Error::InvalidSineCosinePair), "terms {}", terms);
    }
    assert_eq!(atan2(d("0.6"), d("0.8"), 1).map(|_| ()), Ok(()));
}

#[test]
fn atan2_axis_directions_are_exact() {
    assert_eq!(atan2(di(1), di(0), 16), Ok(di(0)));
    assert_eq!(atan2(di(0), di(1), 16), Ok(constant(Constant::PiDiv2)));
    assert_eq!(atan2(di(-1), di(0), 16), Ok(constant(Constant::Pi)));
    assert_eq!(atan2(di(0), di(-1), 16), Ok(constant(Constant::PiDiv2).neg()));
}

#[test]
fn sqrt_of_four_is_two() -> Result<(), Error> {
    assert_eq!(d_sqrt(di(4), 16)?.round_dp(24), di(2));
    assert_eq!(dd_pow(di(4), d("0.5"), 16)?.round_dp(24), di(2));
    Ok(())
}

#[test]
fn exp_of_two_and_ln_of_e_squared() -> Result<(), Error> {
    let e_sqr = constant(Constant::ESqr);
    assert_eq!(d_exp(di(2), 24)?.round_dp(16), e_sqr.round_dp(16));
    assert_eq!(d_ln(e_sqr, 16)?.round_dp(16), di(2));
    Ok(())
}

#[test]
fn round_trip_error_shrinks_with_terms() -> Result<(), Error> {
    let x = d("3.7");
    let err = |terms: usize| -> Result<Dec, Error> {
        let back = d_exp(d_ln(x, terms)?, terms)?;
        Ok(back.try_sub(x)?.abs())
    };
    let e4 = err(4)?;
    let e8 = err(8)?;
    let e20 = err(20)?;
    assert!(e8.le(&e4));
    assert!(e20.le(&e8));
    assert!(e20.lt(&d("0.0000000001")));
    let y = d("1.3");
    let back = d_ln(d_exp(y, 20)?, 20)?;
    assert!(back.try_sub(y)?.abs().lt(&d("0.0000000001")));
    Ok(())
}

#[test]
fn pythagorean_consistency() -> Result<(), Error> {
    for s in ["0.3", "1", "2.5", "-1.2", "4", "-3", "10"] {
        let t = d(s);
        let c = cos(t, 24)?;
        let n = sin(t, 24)?;
        let sum = c.try_mul(c)?.try_add(n.try_mul(n)?)?;
        assert_eq!(sum.round_dp(16), di(1), "angle {}", s);
    }
    Ok(())
}

#[test]
fn inverse_consistency() -> Result<(), Error> {
    for s in ["0.3", "-0.7", "1.2", "-1.4", "0.05"] {
        let t = d(s);
        let tan = sin(t, 24)?.try_div(cos(t, 24)?)?;
        assert_eq!(atan(tan, 24)?.round_dp(16), t.round_dp(16), "angle {}", s);
    }
    for s in ["0.3", "-0.7", "2.2", "-2.9", "3"] {
        let t = d(s);
        let a = atan2(cos(t, 24)?, sin(t, 24)?, 24)?;
        assert_eq!(a.round_dp(12), t.round_dp(12), "angle {}", s);
    }
    Ok(())
}

#[test]
fn trig_special_angles_are_exact() {
    let pi = constant(Constant::Pi);
    let half = constant(Constant::PiDiv2);
    assert_eq!(cos(pi, 16), Ok(di(-1)));
    assert_eq!(sin(pi, 16), Ok(di(0)));
    assert_eq!(cos(half, 16), Ok(di(0)));
    assert_eq!(sin(half, 16), Ok(di(1)));
    assert_eq!(cos(di(0), 16), Ok(di(1)));
    assert_eq!(sin(di(0), 16), Ok(di(0)));
}

#[test]
fn atan_exact_cases() {
    assert_eq!(atan(di(0), 16), Ok(di(0)));
    assert_eq!(atan(di(1), 16), Ok(constant(Constant::PiDiv4)));
    assert_eq!(atan(di(-1), 16), Ok(constant(Constant::PiDiv4).neg()));
}

#[test]
fn i_sqrt_table_and_search() {
    assert_eq!(i_sqrt(di(0)), Ok(di(0)));
    assert_eq!(i_sqrt(di(81)), Ok(di(9)));
    assert_eq!(i_sqrt(di(100)), Ok(di(10)));
    assert_eq!(i_sqrt(di(50)), Err(Error::InputOutOfRange));
    assert_eq!(i_sqrt(di(12321)), Ok(di(111)));
    assert_eq!(i_sqrt(di(1522756)), Ok(di(1234)));
    assert_eq!(i_sqrt(di(150)), Err(Error::InputOutOfRange));
    assert_eq!(i_sqrt(d("2.5")), Err(Error::InputOutOfRange));
    assert_eq!(i_sqrt(di(-4)), Err(Error::InputOutOfRange));
}

#[test]
fn exp_overflow_is_reported() {
    assert_eq!(d_exp(di(100), 16), Err(Error::MultiplyOverflow));
}
