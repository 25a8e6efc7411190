use vstd::prelude::*;

use crate::complex::euler::{c_exp, c_exp_spec, c_ln, c_ln_spec};
use crate::complex::types::{Complex, cplx, c_add_spec, c_sub_spec, c_mul_spec, c_div_spec};
use crate::decimal::Dec;
use crate::error::Error;

verus! {

/// The imaginary unit.
pub open spec fn ci() -> Complex {
    cplx(Dec::int_spec(0), Dec::int_spec(1))
}

/// `2i`.
pub open spec fn ci2() -> Complex {
    cplx(Dec::int_spec(0), Dec::int_spec(2))
}

/// The real number `n` as a complex one.
pub open spec fn cn(n: int) -> Complex {
    cplx(Dec::int_spec(n), Dec::int_spec(0))
}

/// `(e^(iz), 1 / e^(iz))`.
pub open spec fn euler_pair_spec(z: Complex, terms: nat) -> Result<(Complex, Complex), Error> {
    match c_mul_spec(z, ci()) {
        Err(e) => Err(e),
        Ok(zi) => match c_exp_spec(zi, terms) {
            Err(e) => Err(e),
            Ok(ei) => match c_div_spec(cn(1), ei) {
                Err(e) => Err(e),
                Ok(ein) => Ok((ei, ein)),
            },
        },
    }
}

fn euler_pair(z: Complex, terms: usize) -> (r: Result<(Complex, Complex), Error>)
    requires
        z.wf(),
        terms <= usize::MAX / 4,
    ensures
        r == euler_pair_spec(z, terms as nat),
        r matches Ok(p) ==> p.0.wf() && p.1.wf(),
{
    let zi = z.mul(&Complex::i())?;
    let ei = c_exp(zi, terms)?;
    let ein = Complex::one().div(&ei)?;
    Ok((ei, ein))
}

/// `(a + b) / 2`.
pub open spec fn half_sum_spec(a: Complex, b: Complex) -> Result<Complex, Error> {
    match c_add_spec(a, b) {
        Err(e) => Err(e),
        Ok(s) => c_div_spec(s, cn(2)),
    }
}

/// `(a − b) / 2i`.
pub open spec fn half_diff_spec(a: Complex, b: Complex) -> Result<Complex, Error> {
    match c_sub_spec(a, b) {
        Err(e) => Err(e),
        Ok(s) => c_div_spec(s, ci2()),
    }
}

/// `cos z = (e^(iz) + e^(−iz)) / 2`.
pub open spec fn c_cos_spec(z: Complex, terms: nat) -> Result<Complex, Error> {
    match euler_pair_spec(z, terms) {
        Err(e) => Err(e),
        Ok(p) => half_sum_spec(p.0, p.1),
    }
}

/// The complex cosine.
pub fn c_cos(value: Complex, terms: usize) -> (r: Result<Complex, Error>)
    requires
        value.wf(),
        terms <= usize::MAX / 4,
    ensures
        r == c_cos_spec(value, terms as nat),
        r matches Ok(v) ==> v.wf(),
{
    let (ei, ein) = euler_pair(value, terms)?;
    ei.add(&ein)?.div(&Complex::new(Dec::from_int(2), Dec::zero()))
}

/// `sin z = (e^(iz) − e^(−iz)) / 2i`.
pub open spec fn c_sin_spec(z: Complex, terms: nat) -> Result<Complex, Error> {
    match euler_pair_spec(z, terms) {
        Err(e) => Err(e),
        Ok(p) => half_diff_spec(p.0, p.1),
    }
}

/// The complex sine.
pub fn c_sin(value: Complex, terms: usize) -> (r: Result<Complex, Error>)
    requires
        value.wf(),
        terms <= usize::MAX / 4,
    ensures
        r == c_sin_spec(value, terms as nat),
        r matches Ok(v) ==> v.wf(),
{
    let (ei, ein) = euler_pair(value, terms)?;
    ei.sub(&ein)?.div(&Complex::new(Dec::zero(), Dec::from_int(2)))
}

/// `tan z = sin z / cos z`, both from one pair `e^(±iz)`.
pub open spec fn c_tan_spec(z: Complex, terms: nat) -> Result<Complex, Error> {
    match euler_pair_spec(z, terms) {
        Err(e) => Err(e),
        Ok(p) => match half_diff_spec(p.0, p.1) {
            Err(e) => Err(e),
            Ok(s) => match half_sum_spec(p.0, p.1) {
                Err(e) => Err(e),
                Ok(c) => c_div_spec(s, c),
            },
        },
    }
}

/// The complex tangent.
pub fn c_tan(value: Complex, terms: usize) -> (r: Result<Complex, Error>)
    requires
        value.wf(),
        terms <= usize::MAX / 4,
    ensures
        r == c_tan_spec(value, terms as nat),
        r matches Ok(v) ==> v.wf(),
{
    let (ei, ein) = euler_pair(value, terms)?;
    let s = ei.sub(&ein)?.div(&Complex::new(Dec::zero(), Dec::from_int(2)))?;
    let c = ei.add(&ein)?.div(&Complex::new(Dec::from_int(2), Dec::zero()))?;
    s.div(&c)
}

/// `atan z = ln((1 + iz) / (1 − iz)) / 2i`.
pub open spec fn c_atan_spec(z: Complex, terms: nat) -> Result<Complex, Error> {
    match c_mul_spec(ci(), z) {
        Err(e) => Err(e),
        Ok(iz) => match c_add_spec(cn(1), iz) {
            Err(e) => Err(e),
            Ok(t1) => match c_sub_spec(cn(1), iz) {
                Err(e) => Err(e),
                Ok(t2) => match c_div_spec(t1, t2) {
                    Err(e) => Err(e),
                    Ok(q) => match c_ln_spec(q, terms) {
                        Err(e) => Err(e),
                        Ok(l) => c_div_spec(l, ci2()),
                    },
                },
            },
        },
    }
}

/// The complex arctangent.
pub fn c_atan(value: Complex, terms: usize) -> (r: Result<Complex, Error>)
    requires
        value.wf(),
        terms <= usize::MAX / 4,
    ensures
        r == c_atan_spec(value, terms as nat),
        r matches Ok(v) ==> v.wf(),
{
    let iz = Complex::i().mul(&value)?;
    let t1 = Complex::one().add(&iz)?;
    let t2 = Complex::one().sub(&iz)?;
    let mut q = t1.div(&t2)?;
    let l = c_ln(&mut q, terms)?;
    l.div(&Complex::new(Dec::zero(), Dec::from_int(2)))
}

} // verus!
