use vstd::prelude::*;

use crate::complex::types::{Complex, cplx, radius_sqr_spec};
use crate::decimal::{Dec, mul_r, div_r};
use crate::error::Error;
use crate::sqrt::{d_sqrt, sqrt_spec};
use crate::trigonometry::{atan2, atan2_spec, cos, cos_spec, sin, sin_spec};

verus! {

/// `|z| = sqrt(re² + im²)`.
pub open spec fn norm_spec(z: Complex, terms: nat) -> Result<Dec, Error> {
    match radius_sqr_spec(z) {
        Err(e) => Err(e),
        Ok(s) => sqrt_spec(s, terms),
    }
}

/// The modulus `sqrt(re² + im²)`, computed afresh.
pub fn norm(value: Complex, terms: usize) -> (r: Result<Dec, Error>)
    requires
        value.wf(),
        terms <= usize::MAX / 4,
    ensures
        r == norm_spec(value, terms as nat),
        r matches Ok(v) ==> v.wf(),
{
    let s = value.radius_sqr()?;
    d_sqrt(s, terms)
}

/// The principal argument: zero for zero, else `atan2(re/|z|, im/|z|)`.
pub open spec fn arg_spec(z: Complex, terms: nat) -> Result<Dec, Error> {
    let zero = Dec::int_spec(0);
    if z.re.same(zero) && z.im.same(zero) {
        Ok(zero)
    } else {
        match norm_spec(z, terms) {
            Err(e) => Err(e),
            Ok(n) => match div_r(z.re, n) {
                Err(e) => Err(e),
                Ok(c) => match div_r(z.im, n) {
                    Err(e) => Err(e),
                    Ok(s) => atan2_spec(c, s, terms),
                },
            },
        }
    }
}

/// The principal argument, computed afresh.
pub fn arg(value: Complex, terms: usize) -> (r: Result<Dec, Error>)
    requires
        value.wf(),
        terms <= usize::MAX / 4,
    ensures
        r == arg_spec(value, terms as nat),
        r matches Ok(v) ==> v.wf(),
{
    if value.is_zero() {
        return Ok(Dec::zero());
    }
    let n = norm(value, terms)?;
    let c = value.re.try_div(n)?;
    let s = value.im.try_div(n)?;
    atan2(c, s, terms)
}

/// The polar pair `(|z|, arg z)`, computed afresh.
pub fn to_polar(value: Complex, terms: usize) -> (r: Result<(Dec, Dec), Error>)
    requires
        value.wf(),
        terms <= usize::MAX / 4,
    ensures
        r == (match norm_spec(value, terms as nat) {
            Err(e) => Err(e),
            Ok(n) => match arg_spec(value, terms as nat) {
                Err(e) => Err(e),
                Ok(a) => Ok((n, a)),
            },
        }),
{
    let n = norm(value, terms)?;
    let a = arg(value, terms)?;
    Ok((n, a))
}

/// `r·(cos θ + i·sin θ)`.
pub open spec fn from_polar_spec(r: Dec, theta: Dec, terms: nat) -> Result<Complex, Error> {
    match cos_spec(theta, terms) {
        Err(e) => Err(e),
        Ok(c) => match sin_spec(theta, terms) {
            Err(e) => Err(e),
            Ok(s) => match mul_r(r, c) {
                Err(e) => Err(e),
                Ok(re) => match mul_r(r, s) {
                    Err(e) => Err(e),
                    Ok(im) => Ok(cplx(re, im)),
                },
            },
        },
    }
}

/// The Cartesian number with modulus `r` and angle `theta`.
pub fn from_polar(r: Dec, theta: Dec, terms: usize) -> (res: Result<Complex, Error>)
    requires
        r.wf(),
        theta.wf(),
        terms <= usize::MAX / 4,
    ensures
        res == from_polar_spec(r, theta, terms as nat),
        res matches Ok(v) ==> v.wf(),
{
    let cost = cos(theta, terms)?;
    let sint = sin(theta, terms)?;
    let re = r.try_mul(cost)?;
    let im = r.try_mul(sint)?;
    Ok(Complex::new(re, im))
}

} // verus!
