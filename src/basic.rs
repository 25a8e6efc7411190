use vstd::prelude::*;

use crate::arithmetic::pow_spec;
use crate::decimal::{Dec, mul_of, mul_r};
use crate::euler::{d_exp, d_ln, exp_spec, ln_spec};
use crate::error::Error;

verus! {

/// The integer `value` as a scalar.
pub fn dec(value: usize) -> (r: Dec)
    ensures
        r == Dec::int_spec(value as int),
        r.wf(),
{
    crate::arithmetic::dec(value)
}

/// `value^power`, see `crate::arithmetic::pow_spec`.
pub fn d_pow(value: Dec, power: usize) -> (r: Result<Dec, Error>)
    requires
        value.wf(),
    ensures
        r == pow_spec(value, power as nat),
        r matches Ok(v) ==> v.wf(),
{
    crate::arithmetic::pow(value, power)
}

/// The step of a scalar power accumulator `(last value, last exponent)` in which the
/// missing factor is multiplied in from the right. Gives the result and the state after it.
pub open spec fn da_pow_spec(value: Dec, power: nat, base: (Dec, usize)) -> (Result<Dec, Error>, (Dec, usize)) {
    let start: nat = if base.1 > power { power } else { base.1 as nat };
    match pow_spec(value, (power - start) as nat) {
        Err(e) => (Err(e), base),
        Ok(d) => match mul_of(base.0, d) {
            None => (Err(Error::MultiplyOverflow), base),
            Some(x) => (Ok(x), (x, power as usize)),
        },
    }
}

/// Power with a scalar accumulator: `base` holds `(value^e, e)` from the previous call and
/// only the factor `value^(power - e)` is computed. On failure `base` is left as it was.
pub fn da_pow(value: Dec, power: usize, base: &mut (Dec, usize)) -> (r: Result<Dec, Error>)
    requires
        value.wf(),
        old(base).0.wf(),
    ensures
        r == da_pow_spec(value, power as nat, *old(base)).0,
        *final(base) == da_pow_spec(value, power as nat, *old(base)).1,
        final(base).0.wf(),
{
    let exp = if base.1 > power { power } else { base.1 };
    let dif = d_pow(value, power - exp)?;
    let result = match base.0.checked_mul(dif) {
        Some(v) => v,
        None => {
            return Err(Error::MultiplyOverflow);
        },
    };
    base.0 = result;
    base.1 = power;
    Ok(result)
}

/// `a^b = e^(ln(a) · b)`, with the logarithm's domain error and every overflow passed on.
pub open spec fn pow_real_spec(value: Dec, power: Dec, terms: nat) -> Result<Dec, Error> {
    match ln_spec(value, terms) {
        Err(e) => Err(e),
        Ok(l) => match mul_r(l, power) {
            Err(e) => Err(e),
            Ok(x) => exp_spec(x, terms),
        },
    }
}

/// `value^power` for a real exponent, as `e^(ln(value) · power)`.
pub fn dd_pow(value: Dec, power: Dec, terms: usize) -> (r: Result<Dec, Error>)
    requires
        value.wf(),
        power.wf(),
        terms < usize::MAX,
    ensures
        r == pow_real_spec(value, power, terms as nat),
        !Dec::int_spec(0).less(value) ==> r == Err::<Dec, Error>(Error::InputOutOfRange),
        r matches Ok(v) ==> v.wf(),
{
    let ln_val = d_ln(value, terms)?;
    let x = ln_val.try_mul(power)?;
    d_exp(x, terms)
}

} // verus!
