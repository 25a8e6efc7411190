use vstd::prelude::*;

use crate::complex::euler::{c_exp, c_exp_spec, c_ln, c_ln_spec};
use crate::complex::types::{Complex, cplx, c_mul_spec};
use crate::decimal::Dec;
use crate::error::Error;

verus! {

/// The integer `value` as a complex number.
pub fn cpx(value: usize) -> (r: Complex)
    ensures
        r == cplx(Dec::int_spec(value as int), Dec::int_spec(0)),
        r.wf(),
{
    Complex::new(crate::arithmetic::dec(value), Dec::zero())
}

/// `v · v · … · v` (`n >= 1` factors), multiplied from the left.
pub open spec fn c_repeat_mul(v: Complex, n: nat) -> Result<Complex, Error>
    decreases n,
{
    if n <= 1 {
        Ok(v)
    } else {
        match c_repeat_mul(v, (n - 1) as nat) {
            Err(e) => Err(e),
            Ok(p) => c_mul_spec(p, v),
        }
    }
}

/// `v^n`: one for `n = 0`, `v` for `n = 1`, zero and one kept as they are, and otherwise
/// the repeated product.
pub open spec fn c_pow_spec(v: Complex, n: nat) -> Result<Complex, Error> {
    let z = Dec::int_spec(0);
    let o = Dec::int_spec(1);
    if n == 0 {
        Ok(cplx(o, z))
    } else if n == 1 {
        Ok(v)
    } else if v.re.same(z) && v.im.same(z) {
        Ok(cplx(z, z))
    } else if v.re.same(o) && v.im.same(z) {
        Ok(cplx(o, z))
    } else {
        c_repeat_mul(v, n)
    }
}

fn c_pow_series(value: Complex, power: usize) -> (r: Result<Complex, Error>)
    requires
        value.wf(),
        power >= 1,
    ensures
        r == c_repeat_mul(value, power as nat),
        r matches Ok(v) ==> v.wf(),
{
    let mut acc = value;
    let mut i: usize = 1;
    while i < power
        invariant
            1 <= i <= power,
            value.wf(),
            acc.wf(),
            c_repeat_mul(value, i as nat) == Ok::<Complex, Error>(acc),
        decreases power - i,
    {
        match acc.mul(&value) {
            Ok(v) => {
                acc = v;
            },
            Err(e) => {
                proof {
                    lemma_c_repeat_mul_err(value, (i + 1) as nat, power as nat);
                }
                return Err(e);
            },
        }
        i = i + 1;
    }
    Ok(acc)
}

/// Once a repeated product fails, every longer one fails the same way.
pub proof fn lemma_c_repeat_mul_err(v: Complex, i: nat, n: nat)
    requires
        1 <= i <= n,
        c_repeat_mul(v, i) is Err,
    ensures
        c_repeat_mul(v, n) == c_repeat_mul(v, i),
    decreases n - i,
{
    if i < n {
        lemma_c_repeat_mul_err(v, i + 1, n);
    }
}

/// `value^power` for an integer exponent, see `c_pow_spec`.
pub fn c_pow(value: Complex, power: usize) -> (r: Result<Complex, Error>)
    requires
        value.wf(),
    ensures
        r == c_pow_spec(value, power as nat),
        r matches Ok(v) ==> v.wf(),
{
    if power == 0 {
        Ok(Complex::one())
    } else if power == 1 {
        Ok(value)
    } else if value.is_zero() {
        Ok(Complex::zero())
    } else if value.re.eq_val(&Dec::one()) && value.im.eq_val(&Dec::zero()) {
        Ok(Complex::one())
    } else {
        c_pow_series(value, power)
    }
}

/// `z^w = e^(w · ln z)`.
pub open spec fn cc_pow_spec(z: Complex, w: Complex, terms: nat) -> Result<Complex, Error> {
    match c_ln_spec(z, terms) {
        Err(e) => Err(e),
        Ok(l) => match c_mul_spec(l, w) {
            Err(e) => Err(e),
            Ok(p) => c_exp_spec(p, terms),
        },
    }
}

/// `value^power` for a complex exponent, as `e^(ln(value) · power)`; fills `value`'s
/// modulus and argument caches.
pub fn cc_pow(value: &mut Complex, power: Complex, terms: usize) -> (r: Result<Complex, Error>)
    requires
        old(value).wf(),
        power.wf(),
        terms <= usize::MAX / 4,
    ensures
        r == cc_pow_spec(*old(value), power, terms as nat),
        final(value).re == old(value).re,
        final(value).im == old(value).im,
        final(value).wf(),
        r matches Ok(v) ==> v.wf(),
{
    let ln_val = c_ln(value, terms)?;
    let p = ln_val.mul(&power)?;
    c_exp(p, terms)
}

} // verus!
