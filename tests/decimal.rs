use decmath::arithmetic::{a_pow, am_pow, dec, m_pow, pos, pow};
use decmath::basic::{d_pow, da_pow};
use decmath::constants::d_pi;
use decmath::decimal::Dec;
use decmath::error::Error;
use decmath::factorial::{fac_table, m_fac};
use decmath::multiplex::basic::{ma_pow, mux};
use decmath::multiplex::types::Multiplex;

fn di(n: i64) -> Dec {
    Dec::from_int(n)
}

#[test]
fn checked_arithmetic() {
    let a = Dec::new(15, 1);
    let b = Dec::new(25, 2);
    assert_eq!(a.try_add(b), Ok(Dec::new(175, 2)));
    assert_eq!(a.try_sub(b), Ok(Dec::new(125, 2)));
    assert_eq!(a.try_mul(b), Ok(Dec::new(375, 3)));
    assert_eq!(a.try_div(b), Ok(di(6)));
    assert_eq!(a.try_div(di(0)), Err(Error::MultiplyOverflow));
    let big = Dec::new(decmath::decimal::MAX_MANTISSA, 0);
    assert_eq!(big.try_add(big), Err(Error::AddOverflow));
    assert_eq!(big.try_mul(di(2)), Err(Error::MultiplyOverflow));
}

#[test]
fn comparison_is_by_value() {
    assert_eq!(Dec::new(10, 1), di(1));
    assert!(Dec::new(9, 1).lt(&di(1)));
    assert!(!di(1).lt(&Dec::new(100, 2)));
    assert!(di(1).le(&Dec::new(100, 2)));
    assert_eq!(di(-3).compare(&di(2)), -1);
    assert_eq!(di(3).compare(&di(2)), 1);
}

#[test]
fn rounding_floor_fract_and_integer_part() {
    assert_eq!(Dec::new(31415, 4).round_dp(2), Dec::new(314, 2));
    assert_eq!(Dec::new(65, 1).round(), di(6));
    assert_eq!(Dec::new(75, 1).round(), di(8));
    assert_eq!(Dec::new(37, 1).floor(), di(3));
    assert_eq!(Dec::new(-37, 1).floor(), di(-4));
    assert_eq!(Dec::new(3141, 3).fract(), Dec::new(141, 3));
    assert_eq!(Dec::new(79, 1).to_usize(), Some(7));
    assert_eq!(di(-2).to_usize(), None);
    assert_eq!(Dec::new(-37, 1).abs(), Dec::new(37, 1));
    assert_eq!(pos(di(-5)), di(5));
    assert_eq!(dec(42), di(42));
}

#[test]
fn powers() {
    assert_eq!(pow(di(3), 0), Ok(di(1)));
    assert_eq!(pow(di(3), 1), Ok(di(3)));
    assert_eq!(pow(di(3), 4), Ok(di(81)));
    assert_eq!(d_pow(Dec::new(5, 1), 3), Ok(Dec::new(125, 3)));
    assert_eq!(pow(di(10), 40), Err(Error::MultiplyOverflow));
}

#[test]
fn scalar_accumulators_only_multiply_the_missing_factor() {
    let mut acc = (di(1), 0usize);
    assert_eq!(a_pow(di(2), 3, &mut acc), Ok(di(8)));
    assert_eq!(acc, (di(8), 3));
    assert_eq!(a_pow(di(2), 5, &mut acc), Ok(di(32)));
    assert_eq!(acc, (di(32), 5));
    let mut dacc = (di(1), 0usize);
    assert_eq!(da_pow(di(-1), 3, &mut dacc), Ok(di(-1)));
    assert_eq!(da_pow(di(-1), 4, &mut dacc), Ok(di(1)));
    assert_eq!(dacc.1, 4);
}

#[test]
fn accumulator_clamps_a_smaller_exponent() {
    let mut acc = (di(8), 3usize);
    assert_eq!(a_pow(di(2), 1, &mut acc), Ok(di(8)));
    assert_eq!(acc.1, 1);
}

#[test]
fn multiplex_joins_factor_lists() {
    let a = Multiplex::new().mul_dec(di(3)).div_dec(di(4));
    let b = Multiplex::new().mul_dec(di(5));
    let p = a.mul(&b);
    assert_eq!(p.mul, vec![di(3), di(5)]);
    assert_eq!(p.div, vec![di(4)]);
    let q = a.div(&b);
    assert_eq!(q.mul, vec![di(3)]);
    assert_eq!(q.div, vec![di(4), di(5)]);
    let i = a.inv();
    assert_eq!(i.mul, vec![di(4)]);
    assert_eq!(i.div, vec![di(3)]);
    assert_eq!(a.neg().mul, vec![di(3), di(-1)]);
    assert_eq!(Multiplex::dec_div(di(2), &a).mul, vec![di(2), di(4)]);
    assert_eq!(mux(7).mul, vec![di(7)]);
}

#[test]
fn squash_defers_overflow_until_division() {
    let big = Dec::new(10_000_000_000_000_000_000_000_000, 0);
    let m = Multiplex::new().mul_dec(big).mul_dec(big).div_dec(big).div_dec(di(1000));
    assert_eq!(m.squash(), Ok(Dec::new(10_000_000_000_000_000_000_000, 0)));
    assert_eq!(Multiplex::new().mul_dec(di(6)).div_dec(di(3)).squash(), Ok(di(2)));
    assert_eq!(Multiplex::new().squash(), Ok(di(1)));
}

#[test]
fn squash_reports_a_genuine_overflow() {
    let big = Dec::new(10_000_000_000_000_000_000_000_000, 0);
    let m = Multiplex::new().mul_dec(big).mul_dec(big).mul_dec(big);
    assert_eq!(m.squash(), Err(Error::MultiplyOverflow));
}

#[test]
fn multiplex_powers() -> Result<(), Error> {
    let m = m_pow(Multiplex::new().mul_dec(di(2)).div_dec(di(3)), 3)?;
    assert_eq!(m.mul, vec![di(2), di(2), di(2)]);
    assert_eq!(m.div, vec![di(3), di(3), di(3)]);
    let mut acc = (Multiplex::new(), 0usize);
    let r = ma_pow(di(2), 3, &mut acc)?;
    assert_eq!(r.squash(), Ok(di(8)));
    let r = ma_pow(di(2), 5, &mut acc)?;
    assert_eq!(r.squash(), Ok(di(32)));
    let mut acc2 = (Multiplex::new(), 0usize);
    let r = am_pow(di(3), 2, &mut acc2)?;
    assert_eq!(r.squash(), Ok(di(9)));
    Ok(())
}

#[test]
fn factorials() {
    assert_eq!(fac_table(0), di(1));
    assert_eq!(fac_table(5), di(120));
    assert_eq!(m_fac(27).mul, vec![Dec::new(10888869450418352160768000000, 0)]);
    assert_eq!(m_fac(29).mul, vec![Dec::new(10888869450418352160768000000, 0), di(28), di(29)]);
    assert_eq!(m_fac(5).squash(), Ok(di(120)));
    assert_eq!(m_fac(28).squash(), Err(Error::MultiplyOverflow));
}

#[test]
fn machin_pi() -> Result<(), Error> {
    let pi = d_pi(30)?;
    assert_eq!(pi.round_dp(20), Dec::new(314159265358979323846, 20));
    Ok(())
}
