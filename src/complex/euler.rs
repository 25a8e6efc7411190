use vstd::prelude::*;

use crate::complex::types::{Complex, cplx, radius_sqr_spec, arg_outcome};
use crate::decimal::{Dec, mul_r, div_r};
use crate::error::Error;
use crate::euler::{d_exp, d_ln, exp_spec, ln_spec};
use crate::trigonometry::{cos, cos_spec, sin, sin_spec};

verus! {

/// `e^(a + ib) = e^a · (cos b + i·sin b)`.
pub open spec fn c_exp_spec(v: Complex, terms: nat) -> Result<Complex, Error> {
    match cos_spec(v.im, terms) {
        Err(e) => Err(e),
        Ok(c) => match sin_spec(v.im, terms) {
            Err(e) => Err(e),
            Ok(s) => match exp_spec(v.re, terms) {
                Err(e) => Err(e),
                Ok(x) => match mul_r(x, c) {
                    Err(e) => Err(e),
                    Ok(re) => match mul_r(x, s) {
                        Err(e) => Err(e),
                        Ok(im) => Ok(cplx(re, im)),
                    },
                },
            },
        },
    }
}

/// The complex exponential `e^(a + ib) = e^a · (cos b + i·sin b)`.
pub fn c_exp(value: Complex, terms: usize) -> (r: Result<Complex, Error>)
    requires
        value.wf(),
        terms <= usize::MAX / 4,
    ensures
        r == c_exp_spec(value, terms as nat),
        r matches Ok(v) ==> v.wf(),
{
    let cos_im = cos(value.im, terms)?;
    let sin_im = sin(value.im, terms)?;
    let exp_re = d_exp(value.re, terms)?;
    let re = exp_re.try_mul(cos_im)?;
    let im = exp_re.try_mul(sin_im)?;
    Ok(Complex::new(re, im))
}

/// `ln z = ln(|z|²)/2 + i·arg z`; the logarithm of the squared modulus spares a square root.
pub open spec fn c_ln_spec(v: Complex, terms: nat) -> Result<Complex, Error> {
    match radius_sqr_spec(v) {
        Err(e) => Err(e),
        Ok(rs) => match ln_spec(rs, terms) {
            Err(e) => Err(e),
            Ok(l) => match div_r(l, Dec::int_spec(2)) {
                Err(e) => Err(e),
                Ok(re) => match arg_outcome(v, terms) {
                    Err(e) => Err(e),
                    Ok(im) => Ok(cplx(re, im)),
                },
            },
        },
    }
}

/// The principal complex logarithm; fills `value`'s modulus and argument caches.
pub fn c_ln(value: &mut Complex, terms: usize) -> (r: Result<Complex, Error>)
    requires
        old(value).wf(),
        terms <= usize::MAX / 4,
    ensures
        r == c_ln_spec(*old(value), terms as nat),
        radius_sqr_spec(*old(value)) matches Ok(rs) && !Dec::int_spec(0).less(rs) ==> r
            == Err::<Complex, Error>(Error::InputOutOfRange),
        final(value).re == old(value).re,
        final(value).im == old(value).im,
        final(value).wf(),
        r matches Ok(v) ==> v.wf(),
{
    let rs = value.radius_sqr()?;
    let l = d_ln(rs, terms)?;
    let re = l.try_div(Dec::from_int(2))?;
    let im = value.arg(terms)?;
    Ok(Complex::new(re, im))
}

} // verus!
