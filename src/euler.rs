use vstd::prelude::*;

use crate::arithmetic::pow_spec;
use crate::basic::{d_pow, da_pow, da_pow_spec};
use crate::constants::{Constant, konst, constant};
use crate::decimal::{Dec, add_r, sub_r, mul_r, div_r, fract_of};
use crate::error::Error;
use crate::factorial::{fac_factors, m_fac, lemma_fac_factors};
use crate::multiplex::basic::{ma_pow, ma_pow_spec};
use crate::multiplex::types::{Multiplex, squash_spec, all_wf};
use crate::rescale::{PassKind, pass, pass_table, passes_spec, rescale3};
use crate::series::{
    series_sum, lemma_series_sum_err, acc_state, acc_before, mux_init, mux_step, da_step, add_term,
};

verus! {

/// Argument reduction of the exponential: `|x|` is split into `i + f/5 + rem` with
/// integers `i`, `f < 5` and `0 <= rem < 1/5`; gives `(rem, e^i · (e^(1/5))^f)`.
pub open spec fn exp_prepare_spec(value: Dec) -> Result<(Dec, Dec), Error> {
    let a = value.abs_spec();
    let f = fract_of(a);
    match mul_r(f, Dec::int_spec(5)) {
        Err(e) => Err(e),
        Ok(t) => match (t.floor_spec().to_usize_spec(), a.floor_spec().to_usize_spec()) {
            (Some(fp), Some(ip)) => match (
                pow_spec(konst(Constant::E), ip as nat),
                pow_spec(konst(Constant::EPow1Div5), fp as nat),
            ) {
                (Ok(pow_e), Ok(pow_fifth)) => match mul_r(pow_e, pow_fifth) {
                    Err(e) => Err(e),
                    Ok(base) => match mul_r(konst(Constant::OneFifth), Dec::int_spec(fp as int)) {
                        Err(e) => Err(e),
                        Ok(q) => match sub_r(f, q) {
                            Err(e) => Err(e),
                            Ok(rem) => Ok((rem, base)),
                        },
                    },
                },
                (Err(e), _) => Err(e),
                (Ok(_), Err(e)) => Err(e),
            },
            _ => Err(Error::MultiplyOverflow),
        },
    }
}

fn d_exp_prepare(value: Dec) -> (r: Result<(Dec, Dec), Error>)
    requires
        value.wf(),
    ensures
        r == exp_prepare_spec(value),
        r matches Ok(v) ==> v.0.wf() && v.1.wf(),
{
    let a = value.abs();
    let f = a.fract();
    let t = f.try_mul(Dec::from_int(5))?;
    let fp = match t.floor().to_usize() {
        Some(k) => k,
        None => {
            return Err(Error::MultiplyOverflow);
        },
    };
    let ip = match a.floor().to_usize() {
        Some(k) => k,
        None => {
            return Err(Error::MultiplyOverflow);
        },
    };
    let pow_e = d_pow(constant(Constant::E), ip)?;
    let pow_fifth = d_pow(constant(Constant::EPow1Div5), fp)?;
    let base = pow_e.try_mul(pow_fifth)?;
    let q = constant(Constant::OneFifth).try_mul(crate::arithmetic::dec(fp))?;
    let rem = f.try_sub(q)?;
    Ok((rem, base))
}

/// Exponent of the power accumulator in term `k`: `k`.
pub open spec fn exp_pows() -> spec_fn(nat) -> nat {
    |k: nat| k
}

/// Term `k` (from 1) of `e^x = 1 + Σ x^k / k!`, held unevaluated and reduced once.
pub open spec fn exp_term(value: Dec) -> spec_fn(nat) -> Result<Dec, Error> {
    |k: nat|
        {
            let m = ma_pow_spec(value, k, acc_before(mux_init(), mux_step(value, exp_pows()), 1, k));
            squash_spec(m.0, m.1 + fac_factors(k))
        }
}

/// One plus the first `terms` terms of the exponential series.
pub open spec fn exp_series_spec(value: Dec, terms: nat) -> Result<Dec, Error> {
    match series_sum(exp_term(value), 1, terms) {
        Err(e) => Err(e),
        Ok(s) => add_r(Dec::int_spec(1), s),
    }
}

fn d_exp_series(value: Dec, terms: usize) -> (r: Result<Dec, Error>)
    requires
        value.wf(),
    ensures
        r == exp_series_spec(value, terms as nat),
        r matches Ok(v) ==> v.wf(),
{
    let mut acc1: (Multiplex, usize) = (Multiplex::new(), 0);
    let ghost f = exp_term(value);
    let ghost st = mux_step(value, exp_pows());
    let mut sum = Dec::zero();
    let mut k: usize = 0;
    while k < terms
        invariant
            k <= terms,
            value.wf(),
            sum.wf(),
            acc1.0.wf(),
            f == exp_term(value),
            st == mux_step(value, exp_pows()),
            (acc1.0.mul@, acc1.0.div@, acc1.1 as nat) == acc_state(mux_init(), st, 1, k as nat),
            series_sum(f, 1, k as nat) == Ok::<Dec, Error>(sum),
        decreases terms - k,
    {
        k = k + 1;
        let m = ma_pow(value, k, &mut acc1)?;
        proof {
            lemma_fac_factors(k as nat);
        }
        let q = m.div(&m_fac(k));
        proof {
            assert(q.mul@ =~= m.mul@);
            assert(all_wf(q.div@));
        }
        let t = match q.squash() {
            Ok(t) => t,
            Err(e) => {
                proof {
                    lemma_series_sum_err(f, 1, k as nat, terms as nat);
                }
                return Err(e);
            },
        };
        sum = match add_term(k == 1, sum, t, Ghost(f), Ghost(1nat), Ghost(k as nat)) {
            Ok(v) => v,
            Err(e) => {
                proof {
                    lemma_series_sum_err(f, 1, k as nat, terms as nat);
                }
                return Err(e);
            },
        };
    }
    Dec::one().try_add(sum)
}

/// The exponential as the engine computes it: 0, 1 and -1 are exact; otherwise
/// `e^|x| = base · e^rem` from the reduction and the series (the series is skipped when
/// `rem` is zero), inverted for a negative `x`.
pub open spec fn exp_spec(value: Dec, terms: nat) -> Result<Dec, Error> {
    if value.same(Dec::int_spec(0)) {
        Ok(Dec::int_spec(1))
    } else if value.same(Dec::int_spec(1)) {
        Ok(konst(Constant::E))
    } else if value.same(Dec::int_spec(-1)) {
        Ok(konst(Constant::InvE))
    } else {
        match exp_prepare_spec(value) {
            Err(e) => Err(e),
            Ok(p) => {
                let s = if p.0.same(Dec::int_spec(0)) {
                    Ok(Dec::int_spec(1))
                } else {
                    exp_series_spec(p.0, terms)
                };
                match s {
                    Err(e) => Err(e),
                    Ok(s) => match mul_r(p.1, s) {
                        Err(e) => Err(e),
                        Ok(res) => if value.mant < 0 {
                            div_r(Dec::int_spec(1), res)
                        } else {
                            Ok(res)
                        },
                    },
                }
            },
        }
    }
}

/// `e^value` from `terms` terms of its series.
pub fn d_exp(value: Dec, terms: usize) -> (r: Result<Dec, Error>)
    requires
        value.wf(),
    ensures
        r == exp_spec(value, terms as nat),
        value.same(Dec::int_spec(0)) ==> r == Ok::<Dec, Error>(Dec::int_spec(1)),
        value.same(Dec::int_spec(1)) ==> r == Ok::<Dec, Error>(konst(Constant::E)),
        r matches Ok(v) ==> v.wf(),
{
    proof {
        crate::decimal::lemma_cmp_int(value, 0);
        crate::decimal::lemma_cmp_int(value, 1);
    }
    if value.eq_val(&Dec::zero()) {
        Ok(Dec::one())
    } else if value.eq_val(&Dec::one()) {
        Ok(constant(Constant::E))
    } else if value.eq_val(&Dec::from_int(-1)) {
        Ok(constant(Constant::InvE))
    } else {
        let (rem, base) = d_exp_prepare(value)?;
        let s = if rem.eq_val(&Dec::zero()) {
            Dec::one()
        } else {
            d_exp_series(rem, terms)?
        };
        let res = base.try_mul(s)?;
        if value.is_sign_negative() {
            Dec::one().try_div(res)
        } else {
            Ok(res)
        }
    }
}

/// Argument reduction of the logarithm: `(rem, base)` with `value = rem · e^base` (up to
/// rounding) and `rem` within 5% of `e`.
pub open spec fn ln_prepare_spec(value: Dec) -> Result<(Dec, Dec), Error> {
    passes_spec(
        pass_table(PassKind::LnCoarse),
        pass_table(PassKind::LnMid),
        pass_table(PassKind::LnFine),
        value,
        Dec::int_spec(0),
    )
}

fn d_ln_prepare(value: Dec) -> (r: Result<(Dec, Dec), Error>)
    requires
        value.wf(),
    ensures
        r == ln_prepare_spec(value),
        r matches Ok(v) ==> v.0.wf() && v.1.wf(),
{
    rescale3(pass(PassKind::LnCoarse), pass(PassKind::LnMid), pass(PassKind::LnFine), value, Dec::zero())
}

/// Exponent of the sign accumulator in term `k`: `k + 1`.
pub open spec fn ln_sign_pows() -> spec_fn(nat) -> nat {
    |k: nat| k + 1
}

/// `value - e`, the base of the series' power accumulator (zero where it overflows; the
/// terms fail there before the accumulator is read).
pub open spec fn ln_diff(value: Dec) -> Dec {
    match sub_r(value, konst(Constant::E)) {
        Ok(d) => d,
        Err(_) => Dec::int_spec(0),
    }
}

/// Term `k` (from 1) of `ln(x) = 1 + Σ (−1)^(k+1) (x − e)^k / (k · e^k)`.
pub open spec fn ln_term(value: Dec) -> spec_fn(nat) -> Result<Dec, Error> {
    |k: nat|
        {
            let s = acc_before((Dec::int_spec(1), 0usize), da_step(Dec::int_spec(-1), ln_sign_pows()), 1, k);
            match da_pow_spec(Dec::int_spec(-1), k + 1, s).0 {
                Err(e) => Err(e),
                Ok(sign) => match sub_r(value, konst(Constant::E)) {
                    Err(e) => Err(e),
                    Ok(d) => {
                        let a2 = ma_pow_spec(
                            d,
                            k,
                            acc_before(mux_init(), mux_step(ln_diff(value), exp_pows()), 1, k),
                        );
                        let a3 = ma_pow_spec(
                            konst(Constant::E),
                            k,
                            acc_before(mux_init(), mux_step(konst(Constant::E), exp_pows()), 1, k),
                        );
                        match squash_spec(a2.0 + a3.1, a2.1 + a3.0.push(Dec::int_spec(k as int))) {
                            Err(e) => Err(e),
                            Ok(q) => mul_r(sign, q),
                        }
                    },
                }
            }
        }
}

/// One plus the first `terms` terms of the logarithm series.
pub open spec fn ln_series_spec(value: Dec, terms: nat) -> Result<Dec, Error> {
    match series_sum(ln_term(value), 1, terms) {
        Err(e) => Err(e),
        Ok(s) => add_r(Dec::int_spec(1), s),
    }
}

#[verifier::rlimit(60)]
fn d_ln_series(value: Dec, terms: usize) -> (r: Result<Dec, Error>)
    requires
        value.wf(),
        terms < usize::MAX,
    ensures
        r == ln_series_spec(value, terms as nat),
        r matches Ok(v) ==> v.wf(),
{
    let mut acc1: (Dec, usize) = (Dec::one(), 0);
    let mut acc2: (Multiplex, usize) = (Multiplex::new(), 0);
    let mut acc3: (Multiplex, usize) = (Multiplex::new(), 0);
    let ghost f = ln_term(value);
    let ghost st1 = da_step(Dec::int_spec(-1), ln_sign_pows());
    let ghost st2 = mux_step(ln_diff(value), exp_pows());
    let ghost st3 = mux_step(konst(Constant::E), exp_pows());
    let e = constant(Constant::E);
    let mut sum = Dec::zero();
    let mut k: usize = 0;
    while k < terms
        invariant
            k <= terms < usize::MAX,
            value.wf(),
            sum.wf(),
            e == konst(Constant::E),
            e.wf(),
            acc1.0.wf(),
            acc2.0.wf(),
            acc3.0.wf(),
            f == ln_term(value),
            st1 == da_step(Dec::int_spec(-1), ln_sign_pows()),
            st2 == mux_step(ln_diff(value), exp_pows()),
            st3 == mux_step(konst(Constant::E), exp_pows()),
            acc1 == acc_state((Dec::int_spec(1), 0usize), st1, 1, k as nat),
            (acc2.0.mul@, acc2.0.div@, acc2.1 as nat) == acc_state(mux_init(), st2, 1, k as nat),
            (acc3.0.mul@, acc3.0.div@, acc3.1 as nat) == acc_state(mux_init(), st3, 1, k as nat),
            series_sum(f, 1, k as nat) == Ok::<Dec, Error>(sum),
        decreases terms - k,
    {
        k = k + 1;
        let sign = match da_pow(Dec::from_int(-1), k + 1, &mut acc1) {
            Ok(s) => s,
            Err(err) => {
                proof {
                    lemma_series_sum_err(f, 1, k as nat, terms as nat);
                }
                return Err(err);
            },
        };
        let d = match value.try_sub(e) {
            Ok(d) => d,
            Err(err) => {
                proof {
                    lemma_series_sum_err(f, 1, k as nat, terms as nat);
                }
                return Err(err);
            },
        };
        let a2 = ma_pow(d, k, &mut acc2)?;
        let a3 = ma_pow(e, k, &mut acc3)?;
        let q = a2.div(&Multiplex::dec_mul(crate::arithmetic::dec(k), &a3));
        proof {
            assert(all_wf(q.mul@));
            assert(all_wf(q.div@));
        }
        let t = match q.squash() {
            Ok(x) => sign.try_mul(x),
            Err(err) => Err(err),
        };
        let t = match t {
            Ok(t) => t,
            Err(err) => {
                proof {
                    lemma_series_sum_err(f, 1, k as nat, terms as nat);
                }
                return Err(err);
            },
        };
        sum = match add_term(k == 1, sum, t, Ghost(f), Ghost(1nat), Ghost(k as nat)) {
            Ok(v) => v,
            Err(err) => {
                proof {
                    lemma_series_sum_err(f, 1, k as nat, terms as nat);
                }
                return Err(err);
            },
        };
    }
    Dec::one().try_add(sum)
}

/// The natural logarithm as the engine computes it: non-positive inputs are outside the
/// domain, 1, e and 1/e are exact, anything else is `base + ln(rem)` from the reduction
/// and the series.
pub open spec fn ln_spec(value: Dec, terms: nat) -> Result<Dec, Error> {
    if !Dec::int_spec(0).less(value) {
        Err(Error::InputOutOfRange)
    } else if value.same(Dec::int_spec(1)) {
        Ok(Dec::int_spec(0))
    } else if value.same(konst(Constant::E)) {
        Ok(Dec::int_spec(1))
    } else if value.same(konst(Constant::InvE)) {
        Ok(Dec::int_spec(-1))
    } else {
        match ln_prepare_spec(value) {
            Err(e) => Err(e),
            Ok(p) => match ln_series_spec(p.0, terms) {
                Err(e) => Err(e),
                Ok(s) => add_r(p.1, s),
            },
        }
    }
}

/// `ln(value)` from `terms` terms of its series.
pub fn d_ln(value: Dec, terms: usize) -> (r: Result<Dec, Error>)
    requires
        value.wf(),
        terms < usize::MAX,
    ensures
        r == ln_spec(value, terms as nat),
        !Dec::int_spec(0).less(value) ==> r == Err::<Dec, Error>(Error::InputOutOfRange),
        value.same(Dec::int_spec(1)) ==> r == Ok::<Dec, Error>(Dec::int_spec(0)),
        value.same(konst(Constant::E)) ==> r == Ok::<Dec, Error>(Dec::int_spec(1)),
        r matches Ok(v) ==> v.wf(),
{
    proof {
        crate::decimal::lemma_cmp_int(value, 0);
        crate::decimal::lemma_cmp_int(value, 1);
        crate::decimal::lemma_pow10_28();
        let e = konst(Constant::E);
        if value.same(e) {
            crate::decimal::lemma_same_sign(value, e);
            if value.same(Dec::int_spec(1)) {
                crate::decimal::lemma_same_trans(e, value, Dec::int_spec(1));
            }
        }
    }
    if value.le(&Dec::zero()) {
        return Err(Error::InputOutOfRange);
    }
    if value.eq_val(&Dec::one()) {
        Ok(Dec::zero())
    } else if value.eq_val(&constant(Constant::E)) {
        Ok(Dec::one())
    } else if value.eq_val(&constant(Constant::InvE)) {
        Ok(Dec::from_int(-1))
    } else {
        let (rem, base) = d_ln_prepare(value)?;
        let s = d_ln_series(rem, terms)?;
        base.try_add(s)
    }
}

} // verus!
