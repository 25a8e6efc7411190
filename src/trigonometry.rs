use vstd::prelude::*;

use crate::arithmetic::{a_pow, a_pow_spec, am_pow};
use crate::constants::{Constant, konst, constant};
use crate::decimal::{Dec, add_r, sub_r, mul_r, div_r, add_of, mul_of, round_dp_of};
use crate::error::Error;
use crate::factorial::{fac_factors, m_fac, lemma_fac_factors};
use crate::multiplex::types::{Multiplex, squash_spec, all_wf};
use crate::series::{
    series_sum, lemma_series_sum_err, acc_state, acc_before, mux_init, amux_step, a_step, add_term,
};

verus! {

/// Most reduction steps `tan_lower` takes.
pub const MAX_TAN_STEPS: usize = 1024;

/// `cos(a − b) = cos a · cos b + sin a · sin b`, from `(cos, sin)` pairs.
pub open spec fn cos_sub2_spec(v: (Dec, Dec), o: (Dec, Dec)) -> Result<Dec, Error> {
    match mul_r(v.0, o.0) {
        Err(e) => Err(e),
        Ok(a) => match mul_r(v.1, o.1) {
            Err(e) => Err(e),
            Ok(b) => add_r(a, b),
        },
    }
}

fn cos_sub2(v: (Dec, Dec), o: (Dec, Dec)) -> (r: Result<Dec, Error>)
    requires
        v.0.wf(),
        v.1.wf(),
        o.0.wf(),
        o.1.wf(),
    ensures
        r == cos_sub2_spec(v, o),
        r matches Ok(x) ==> x.wf(),
{
    let a = v.0.try_mul(o.0)?;
    let b = v.1.try_mul(o.1)?;
    a.try_add(b)
}

/// `sin(a − b) = sin a · cos b − sin b · cos a`, from `(cos, sin)` pairs.
pub open spec fn sin_sub2_spec(v: (Dec, Dec), o: (Dec, Dec)) -> Result<Dec, Error> {
    match mul_r(v.1, o.0) {
        Err(e) => Err(e),
        Ok(a) => match mul_r(o.1, v.0) {
            Err(e) => Err(e),
            Ok(b) => sub_r(a, b),
        },
    }
}

fn sin_sub2(v: (Dec, Dec), o: (Dec, Dec)) -> (r: Result<Dec, Error>)
    requires
        v.0.wf(),
        v.1.wf(),
        o.0.wf(),
        o.1.wf(),
    ensures
        r == sin_sub2_spec(v, o),
        r matches Ok(x) ==> x.wf(),
{
    let a = v.1.try_mul(o.0)?;
    let b = o.1.try_mul(v.0)?;
    a.try_sub(b)
}

/// `tan(a − b) = sin(a − b) / cos(a − b)`, from `(cos, sin)` pairs.
pub open spec fn tan_sub2_spec(v: (Dec, Dec), o: (Dec, Dec)) -> Result<Dec, Error> {
    match sin_sub2_spec(v, o) {
        Err(e) => Err(e),
        Ok(s) => match cos_sub2_spec(v, o) {
            Err(e) => Err(e),
            Ok(c) => div_r(s, c),
        },
    }
}

fn tan_sub2(v: (Dec, Dec), o: (Dec, Dec)) -> (r: Result<Dec, Error>)
    requires
        v.0.wf(),
        v.1.wf(),
        o.0.wf(),
        o.1.wf(),
    ensures
        r == tan_sub2_spec(v, o),
        r matches Ok(x) ==> x.wf(),
{
    let s = sin_sub2(v, o)?;
    let c = cos_sub2(v, o)?;
    s.try_div(c)
}

/// `tan(a − b) = (tan a − tan b) / (1 + tan a · tan b)`.
pub open spec fn tan_sub_spec(v: Dec, o: Dec) -> Result<Dec, Error> {
    match sub_r(v, o) {
        Err(e) => Err(e),
        Ok(n) => match mul_r(v, o) {
            Err(e) => Err(e),
            Ok(p) => match add_r(Dec::int_spec(1), p) {
                Err(e) => Err(e),
                Ok(d) => div_r(n, d),
            },
        },
    }
}

fn tan_sub(v: Dec, o: Dec) -> (r: Result<Dec, Error>)
    requires
        v.wf(),
        o.wf(),
    ensures
        r == tan_sub_spec(v, o),
        r matches Ok(x) ==> x.wf(),
{
    let n = v.try_sub(o)?;
    let p = v.try_mul(o)?;
    let d = Dec::one().try_add(p)?;
    n.try_div(d)
}

/// Periodic reduction into [−π, π]: one floor division by 2π for an angle outside it,
/// then one correction by 2π.
pub open spec fn trig_prepare_spec(value: Dec) -> Result<Dec, Error> {
    let pi = konst(Constant::Pi);
    let pi2 = konst(Constant::Pi2);
    let r1 = if value.less(pi.neg_spec()) || pi.less(value) {
        match div_r(value, pi2) {
            Err(e) => Err(e),
            Ok(q) => match mul_r(q.floor_spec(), pi2) {
                Err(e) => Err(e),
                Ok(m) => sub_r(value, m),
            },
        }
    } else {
        Ok(value)
    };
    match r1 {
        Err(e) => Err(e),
        Ok(rem) => if pi.less(rem) {
            sub_r(rem, pi2)
        } else if rem.less(pi.neg_spec()) {
            add_r(rem, pi2)
        } else {
            Ok(rem)
        },
    }
}

fn trig_prepare(value: Dec) -> (r: Result<Dec, Error>)
    requires
        value.wf(),
    ensures
        r == trig_prepare_spec(value),
        r matches Ok(x) ==> x.wf(),
{
    let pi = constant(Constant::Pi);
    let pi2 = constant(Constant::Pi2);
    let npi = pi.neg();
    let mut rem = value;
    if rem.lt(&npi) || pi.lt(&rem) {
        let q = rem.try_div(pi2)?;
        let m = q.floor().try_mul(pi2)?;
        rem = rem.try_sub(m)?;
    }
    if pi.lt(&rem) {
        rem.try_sub(pi2)
    } else if rem.lt(&npi) {
        rem.try_add(pi2)
    } else {
        Ok(rem)
    }
}

/// Reduces an angle into [−π, π], see `trig_prepare_spec`.
pub fn reduce_angle(value: Dec) -> (r: Result<Dec, Error>)
    requires
        value.wf(),
    ensures
        r == trig_prepare_spec(value),
        r matches Ok(x) ==> x.wf(),
{
    trig_prepare(value)
}

/// A zero angle is left as it is by the periodic reduction and is none of ±π, ±π/2.
pub proof fn lemma_zero_angle(value: Dec)
    ensures
        value.same(Dec::int_spec(0)) ==> {
            let pi = konst(Constant::Pi);
            let h = konst(Constant::PiDiv2);
            &&& trig_prepare_spec(value) == Ok::<Dec, Error>(value)
            &&& !value.same(pi) && !value.same(h) && !value.same(pi.neg_spec()) && !value.same(h.neg_spec())
        },
{
    if value.same(Dec::int_spec(0)) {
        crate::decimal::lemma_cmp_int(value, 0);
        crate::decimal::lemma_zero_cmp(value, konst(Constant::Pi));
        crate::decimal::lemma_zero_cmp(value, konst(Constant::PiDiv2));
    }
}

/// The alternating series of the engine.
#[derive(Clone, Copy, Debug, PartialEq, Eq, Structural)]
pub enum AltSeries {
    /// `cos x = Σ (−1)^n x^(2n) / (2n)!`
    Cos,
    /// `sin x = Σ (−1)^n x^(2n+1) / (2n+1)!`
    Sin,
    /// `atan x = Σ (−1)^n x^(2n+1) / (2n+1)`
    Atan,
}

/// Exponent of the sign accumulator in term `k` (from 1): `n = k − 1`.
pub open spec fn alt_sign_pows() -> spec_fn(nat) -> nat {
    |k: nat| (k - 1) as nat
}

/// Exponent of the power accumulator in term `k`: `2n` for the cosine, `2n + 1` otherwise.
pub open spec fn alt_pows(s: AltSeries) -> spec_fn(nat) -> nat {
    |k: nat|
        if s == AltSeries::Cos {
            (2 * (k - 1)) as nat
        } else {
            (2 * (k - 1) + 1) as nat
        }
}

/// The denominator factors of term `k`: `(2n)!`, `(2n+1)!`, or the scalar `2n + 1`.
pub open spec fn alt_den(s: AltSeries, k: nat) -> Result<Seq<Dec>, Error> {
    let n = (k - 1) as nat;
    match s {
        AltSeries::Cos => Ok(fac_factors(2 * n)),
        AltSeries::Sin => Ok(fac_factors(2 * n + 1)),
        AltSeries::Atan => match mul_r(Dec::int_spec(2), Dec::int_spec(n as int)) {
            Err(e) => Err(e),
            Ok(t) => match add_r(t, Dec::int_spec(1)) {
                Err(e) => Err(e),
                Ok(d) => Ok(seq![d]),
            },
        },
    }
}

/// Term `k` (from 1) of an alternating series: the sign from a scalar accumulator, the
/// power from an unevaluated one, over the denominator, reduced once.
pub open spec fn alt_term(s: AltSeries, value: Dec) -> spec_fn(nat) -> Result<Dec, Error> {
    |k: nat|
        {
            let sb = acc_before((Dec::int_spec(1), 0usize), a_step(Dec::int_spec(-1), alt_sign_pows()), 1, k);
            match a_pow_spec(Dec::int_spec(-1), (k - 1) as nat, sb).0 {
                Err(e) => Err(e),
                Ok(sign) => {
                    let m = amux_step(value, alt_pows(s))(k, acc_before(mux_init(), amux_step(value, alt_pows(s)), 1, k));
                    match alt_den(s, k) {
                        Err(e) => Err(e),
                        Ok(den) => match squash_spec(m.0, m.1 + den) {
                            Err(e) => Err(e),
                            Ok(q) => mul_r(sign, q),
                        },
                    }
                },
            }
        }
}

/// The first `terms` terms of an alternating series, summed.
pub open spec fn alt_series_spec(s: AltSeries, value: Dec, terms: nat) -> Result<Dec, Error> {
    series_sum(alt_term(s, value), 1, terms)
}

/// Term `k` of an alternating series, advancing both accumulators by one step.
fn alt_step(
    s: AltSeries,
    value: Dec,
    k: usize,
    acc1: &mut (Dec, usize),
    acc2: &mut (Multiplex, usize),
) -> (r: Result<Dec, Error>)
    requires
        value.wf(),
        1 <= k <= usize::MAX / 4,
        old(acc1).0.wf(),
        old(acc2).0.wf(),
        *old(acc1) == acc_before((Dec::int_spec(1), 0usize), a_step(Dec::int_spec(-1), alt_sign_pows()), 1, k as nat),
        (old(acc2).0.mul@, old(acc2).0.div@, old(acc2).1 as nat) == acc_before(mux_init(), amux_step(value, alt_pows(s)), 1, k as nat),
    ensures
        r == alt_term(s, value)(k as nat),
        r matches Ok(v) ==> v.wf(),
        final(acc1).0.wf(),
        final(acc2).0.wf(),
        *final(acc1) == acc_state((Dec::int_spec(1), 0usize), a_step(Dec::int_spec(-1), alt_sign_pows()), 1, k as nat),
        (final(acc2).0.mul@, final(acc2).0.div@, final(acc2).1 as nat) == acc_state(mux_init(), amux_step(value, alt_pows(s)), 1, k as nat),
{
    let n = k - 1;
    let ghost st2 = amux_step(value, alt_pows(s));
    let ghost mb = acc_before(mux_init(), st2, 1, k as nat);
    let sign = a_pow(Dec::from_int(-1), n, acc1);
    let e: usize = if s == AltSeries::Cos { 2 * n } else { 2 * n + 1 };
    assert(alt_pows(s)(k as nat) == e);
    let m = match am_pow(value, e, acc2) {
        Ok(m) => m,
        Err(err) => {
            return Err(err);
        },
    };
    let sign = match sign {
        Ok(x) => x,
        Err(err) => {
            return Err(err);
        },
    };
    let q = match s {
        AltSeries::Cos | AltSeries::Sin => {
            proof {
                lemma_fac_factors(e as nat);
            }
            let q = m.div(&m_fac(e));
            assert(q.mul@ =~= m.mul@);
            Ok(q)
        },
        AltSeries::Atan => {
            match Dec::from_int(2).try_mul(crate::arithmetic::dec(n)) {
                Err(err) => Err(err),
                Ok(t) => match t.try_add(Dec::one()) {
                    Err(err) => Err(err),
                    Ok(d) => {
                        let q = m.div_dec(d);
                        assert(q.div@ =~= m.div@ + seq![d]);
                        Ok(q)
                    },
                },
            }
        },
    };
    match q {
        Err(err) => Err(err),
        Ok(q) => {
            proof {
                assert(all_wf(q.mul@));
                assert(all_wf(q.div@));
            }
            match q.squash() {
                Ok(x) => sign.try_mul(x),
                Err(err) => Err(err),
            }
        },
    }
}

fn alt_series(s: AltSeries, value: Dec, terms: usize) -> (r: Result<Dec, Error>)
    requires
        value.wf(),
        terms <= usize::MAX / 4,
    ensures
        r == alt_series_spec(s, value, terms as nat),
        r matches Ok(v) ==> v.wf(),
{
    let mut acc1: (Dec, usize) = (Dec::one(), 0);
    let mut acc2: (Multiplex, usize) = (Multiplex::new(), 0);
    let ghost f = alt_term(s, value);
    let ghost st1 = a_step(Dec::int_spec(-1), alt_sign_pows());
    let ghost st2 = amux_step(value, alt_pows(s));
    let mut sum = Dec::zero();
    let mut k: usize = 0;
    while k < terms
        invariant
            k <= terms <= usize::MAX / 4,
            value.wf(),
            sum.wf(),
            acc1.0.wf(),
            acc2.0.wf(),
            f == alt_term(s, value),
            st1 == a_step(Dec::int_spec(-1), alt_sign_pows()),
            st2 == amux_step(value, alt_pows(s)),
            acc1 == acc_state((Dec::int_spec(1), 0usize), st1, 1, k as nat),
            (acc2.0.mul@, acc2.0.div@, acc2.1 as nat) == acc_state(mux_init(), st2, 1, k as nat),
            series_sum(f, 1, k as nat) == Ok::<Dec, Error>(sum),
        decreases terms - k,
    {
        k = k + 1;
        let t = match alt_step(s, value, k, &mut acc1, &mut acc2) {
            Ok(t) => t,
            Err(err) => {
                proof {
                    lemma_series_sum_err(f, 1, k as nat, terms as nat);
                }
                return Err(err);
            },
        };
        sum = match add_term(k == 1, sum, t, Ghost(f), Ghost(1nat), Ghost(k as nat)) {
            Ok(v) => v,
            Err(err) => {
                proof {
                    lemma_series_sum_err(f, 1, k as nat, terms as nat);
                }
                return Err(err);
            },
        };
    }
    Ok(sum)
}

fn cos_series(value: Dec, terms: usize) -> (r: Result<Dec, Error>)
    requires
        value.wf(),
        terms <= usize::MAX / 4,
    ensures
        r == alt_series_spec(AltSeries::Cos, value, terms as nat),
        r matches Ok(v) ==> v.wf(),
{
    alt_series(AltSeries::Cos, value, terms)
}

fn sin_series(value: Dec, terms: usize) -> (r: Result<Dec, Error>)
    requires
        value.wf(),
        terms <= usize::MAX / 4,
    ensures
        r == alt_series_spec(AltSeries::Sin, value, terms as nat),
        r matches Ok(v) ==> v.wf(),
{
    alt_series(AltSeries::Sin, value, terms)
}

fn atan_series(value: Dec, terms: usize) -> (r: Result<Dec, Error>)
    requires
        value.wf(),
        terms <= usize::MAX / 4,
    ensures
        r == alt_series_spec(AltSeries::Atan, value, terms as nat),
        r matches Ok(v) ==> v.wf(),
{
    alt_series(AltSeries::Atan, value, terms)
}

/// Quadrant selection for the cosine of `x ∈ [−π, π]`: shifts by π and by π/2 into
/// `[−π/4, π/4)`. Gives whether the sine series is to be used, whether the result is to be
/// negated, and the shifted angle.
pub open spec fn cos_prepare_spec(value: Dec) -> Result<(bool, bool, Dec), Error> {
    let pi = konst(Constant::Pi);
    let h = konst(Constant::PiDiv2);
    let q = konst(Constant::PiDiv4);
    let first = if !value.less(h) {
        match sub_r(value, pi) {
            Err(e) => Err(e),
            Ok(r) => Ok((true, r)),
        }
    } else if value.less(h.neg_spec()) {
        match add_r(value, pi) {
            Err(e) => Err(e),
            Ok(r) => Ok((true, r)),
        }
    } else {
        Ok((false, value))
    };
    match first {
        Err(e) => Err(e),
        Ok((inv, rem)) => if !rem.less(q) {
            match sub_r(rem, h) {
                Err(e) => Err(e),
                Ok(r) => Ok((true, !inv, r)),
            }
        } else if rem.less(q.neg_spec()) {
            match add_r(rem, h) {
                Err(e) => Err(e),
                Ok(r) => Ok((true, inv, r)),
            }
        } else {
            Ok((false, inv, rem))
        },
    }
}

fn cos_prepare(value: Dec) -> (r: Result<(bool, bool, Dec), Error>)
    requires
        value.wf(),
    ensures
        r == cos_prepare_spec(value),
        r matches Ok(v) ==> v.2.wf(),
{
    let pi = constant(Constant::Pi);
    let h = constant(Constant::PiDiv2);
    let q = constant(Constant::PiDiv4);
    let mut inv = false;
    let mut rem = value;
    if !rem.lt(&h) {
        inv = !inv;
        rem = rem.try_sub(pi)?;
    } else if rem.lt(&h.neg()) {
        inv = !inv;
        rem = rem.try_add(pi)?;
    }
    if !rem.lt(&q) {
        Ok((true, !inv, rem.try_sub(h)?))
    } else if rem.lt(&q.neg()) {
        Ok((true, inv, rem.try_add(h)?))
    } else {
        Ok((false, inv, rem))
    }
}

/// Quadrant selection for the sine of `x ∈ [−π, π]`, as `cos_prepare_spec` does it for
/// the cosine: whether the sine series is to be used, whether to negate, and the angle.
pub open spec fn sin_prepare_spec(value: Dec) -> Result<(bool, bool, Dec), Error> {
    let pi = konst(Constant::Pi);
    let h = konst(Constant::PiDiv2);
    let q = konst(Constant::PiDiv4);
    let first = if !value.less(h) {
        match sub_r(value, pi) {
            Err(e) => Err(e),
            Ok(r) => Ok((true, r)),
        }
    } else if value.less(h.neg_spec()) {
        match add_r(value, pi) {
            Err(e) => Err(e),
            Ok(r) => Ok((true, r)),
        }
    } else {
        Ok((false, value))
    };
    match first {
        Err(e) => Err(e),
        Ok((inv, rem)) => if !rem.less(q) {
            match sub_r(rem, h) {
                Err(e) => Err(e),
                Ok(r) => Ok((false, inv, r)),
            }
        } else if rem.less(q.neg_spec()) {
            match add_r(rem, h) {
                Err(e) => Err(e),
                Ok(r) => Ok((false, !inv, r)),
            }
        } else {
            Ok((true, inv, rem))
        },
    }
}

fn sin_prepare(value: Dec) -> (r: Result<(bool, bool, Dec), Error>)
    requires
        value.wf(),
    ensures
        r == sin_prepare_spec(value),
        r matches Ok(v) ==> v.2.wf(),
{
    let pi = constant(Constant::Pi);
    let h = constant(Constant::PiDiv2);
    let q = constant(Constant::PiDiv4);
    let mut inv = false;
    let mut rem = value;
    if !rem.lt(&h) {
        inv = !inv;
        rem = rem.try_sub(pi)?;
    } else if rem.lt(&h.neg()) {
        inv = !inv;
        rem = rem.try_add(pi)?;
    }
    if !rem.lt(&q) {
        Ok((false, inv, rem.try_sub(h)?))
    } else if rem.lt(&q.neg()) {
        Ok((false, !inv, rem.try_add(h)?))
    } else {
        Ok((true, inv, rem))
    }
}

/// The series chosen by a quadrant selection, negated when asked.
pub open spec fn select_spec(p: (bool, bool, Dec), terms: nat) -> Result<Dec, Error> {
    let res = if p.0 {
        alt_series_spec(AltSeries::Sin, p.2, terms)
    } else {
        alt_series_spec(AltSeries::Cos, p.2, terms)
    };
    match res {
        Err(e) => Err(e),
        Ok(v) => mul_r(v, Dec::int_spec(if p.1 { -1 } else { 1 })),
    }
}

fn select(p: (bool, bool, Dec), terms: usize) -> (r: Result<Dec, Error>)
    requires
        p.2.wf(),
        terms <= usize::MAX / 4,
    ensures
        r == select_spec(p, terms as nat),
        r matches Ok(v) ==> v.wf(),
{
    let (sel, inv, rem) = p;
    let res = if sel {
        sin_series(rem, terms)?
    } else {
        cos_series(rem, terms)?
    };
    res.try_mul(Dec::from_int(if inv { -1 } else { 1 }))
}

/// The cosine as the engine computes it: after periodic reduction, the multiples of π/2
/// are exact; anything else goes through quadrant selection and a series.
pub open spec fn cos_spec(value: Dec, terms: nat) -> Result<Dec, Error> {
    let pi = konst(Constant::Pi);
    let h = konst(Constant::PiDiv2);
    match trig_prepare_spec(value) {
        Err(e) => Err(e),
        Ok(rem) => if rem.same(pi) {
            Ok(Dec::int_spec(-1))
        } else if rem.same(h) {
            Ok(Dec::int_spec(0))
        } else if rem.same(Dec::int_spec(0)) {
            Ok(Dec::int_spec(1))
        } else if rem.same(h.neg_spec()) {
            Ok(Dec::int_spec(0))
        } else if rem.same(pi.neg_spec()) {
            Ok(Dec::int_spec(-1))
        } else {
            match cos_prepare_spec(rem) {
                Err(e) => Err(e),
                Ok(p) => select_spec(p, terms),
            }
        },
    }
}

/// `cos(value)` from `terms` terms of its series.
pub fn cos(value: Dec, terms: usize) -> (r: Result<Dec, Error>)
    requires
        value.wf(),
        terms <= usize::MAX / 4,
    ensures
        r == cos_spec(value, terms as nat),
        value.same(Dec::int_spec(0)) ==> r == Ok::<Dec, Error>(Dec::int_spec(1)),
        r matches Ok(v) ==> v.wf(),
{
    proof {
        lemma_zero_angle(value);
    }
    let pi = constant(Constant::Pi);
    let h = constant(Constant::PiDiv2);
    let rem = trig_prepare(value)?;
    if rem.eq_val(&pi) {
        Ok(Dec::from_int(-1))
    } else if rem.eq_val(&h) {
        Ok(Dec::zero())
    } else if rem.eq_val(&Dec::zero()) {
        Ok(Dec::one())
    } else if rem.eq_val(&h.neg()) {
        Ok(Dec::zero())
    } else if rem.eq_val(&pi.neg()) {
        Ok(Dec::from_int(-1))
    } else {
        let p = cos_prepare(rem)?;
        select(p, terms)
    }
}

/// The sine as the engine computes it: after periodic reduction, the multiples of π/2
/// are exact; anything else goes through quadrant selection and a series.
pub open spec fn sin_spec(value: Dec, terms: nat) -> Result<Dec, Error> {
    let pi = konst(Constant::Pi);
    let h = konst(Constant::PiDiv2);
    match trig_prepare_spec(value) {
        Err(e) => Err(e),
        Ok(rem) => if rem.same(pi) {
            Ok(Dec::int_spec(0))
        } else if rem.same(h) {
            Ok(Dec::int_spec(1))
        } else if rem.same(Dec::int_spec(0)) {
            Ok(Dec::int_spec(0))
        } else if rem.same(h.neg_spec()) {
            Ok(Dec::int_spec(-1))
        } else if rem.same(pi.neg_spec()) {
            Ok(Dec::int_spec(0))
        } else {
            match sin_prepare_spec(rem) {
                Err(e) => Err(e),
                Ok(p) => select_spec(p, terms),
            }
        },
    }
}

/// `sin(value)` from `terms` terms of its series.
pub fn sin(value: Dec, terms: usize) -> (r: Result<Dec, Error>)
    requires
        value.wf(),
        terms <= usize::MAX / 4,
    ensures
        r == sin_spec(value, terms as nat),
        value.same(Dec::int_spec(0)) ==> r == Ok::<Dec, Error>(Dec::int_spec(0)),
        r matches Ok(v) ==> v.wf(),
{
    proof {
        lemma_zero_angle(value);
    }
    let pi = constant(Constant::Pi);
    let h = constant(Constant::PiDiv2);
    let rem = trig_prepare(value)?;
    if rem.eq_val(&pi) {
        Ok(Dec::zero())
    } else if rem.eq_val(&h) {
        Ok(Dec::one())
    } else if rem.eq_val(&Dec::zero()) {
        Ok(Dec::zero())
    } else if rem.eq_val(&h.neg()) {
        Ok(Dec::from_int(-1))
    } else if rem.eq_val(&pi.neg()) {
        Ok(Dec::zero())
    } else {
        let p = sin_prepare(rem)?;
        select(p, terms)
    }
}

/// Digits to which `cos² + sin²` must round to one: half the term count, at least 1 and
/// at most 16.
pub open spec fn pair_digits(terms: nat) -> u32 {
    if terms > 32 {
        16
    } else if terms < 2 {
        1
    } else {
        (terms / 2) as u32
    }
}

/// `(cos, sin)` lies on the unit circle at the precision of `terms` terms: `cos² + sin²`,
/// as computed, rounds to one. A pair whose squares overflow does not.
pub open spec fn valid_pair_spec(c: Dec, s: Dec, terms: nat) -> bool {
    match (mul_of(c, c), mul_of(s, s)) {
        (Some(a), Some(b)) => match add_of(a, b) {
            Some(m) => round_dp_of(m, pair_digits(terms)).same(Dec::int_spec(1)),
            None => false,
        },
        _ => false,
    }
}

/// Whether `(cos, sin)` lies on the unit circle at the precision of `terms` terms.
pub fn is_valid_pair(c: Dec, s: Dec, terms: usize) -> (r: bool)
    requires
        c.wf(),
        s.wf(),
    ensures
        r == valid_pair_spec(c, s, terms as nat),
{
    let digits: u32 = if terms > 32 {
        16
    } else if terms < 2 {
        1
    } else {
        (terms / 2) as u32
    };
    let a = match c.checked_mul(c) {
        Some(v) => v,
        None => {
            return false;
        },
    };
    let b = match s.checked_mul(s) {
        Some(v) => v,
        None => {
            return false;
        },
    };
    match a.checked_add(b) {
        Some(m) => m.round_dp(digits).eq_val(&Dec::one()),
        None => false,
    }
}

/// Arctangent reduction: while the tangent is at least 1/5, subtract the angle π/6
/// (tangent above 1), π/18 (above 2/5) or π/36 by the tangent-subtraction identity and
/// add it to `base`; at most `fuel` steps.
pub open spec fn tan_lower_spec(rem: Dec, base: Dec, fuel: nat) -> Result<(Dec, Dec), Error>
    decreases fuel,
{
    if fuel == 0 || rem.less(konst(Constant::OneFifth)) {
        Ok((rem, base))
    } else {
        let (angle, tan) = if Dec::int_spec(1).less(rem) {
            (konst(Constant::PiDiv6), konst(Constant::TanPiDiv6))
        } else if konst(Constant::TwoFifths).less(rem) {
            (konst(Constant::PiDiv18), konst(Constant::TanPiDiv18))
        } else {
            (konst(Constant::PiDiv36), konst(Constant::TanPiDiv36))
        };
        match add_r(base, angle) {
            Err(e) => Err(e),
            Ok(b) => match tan_sub_spec(rem, tan) {
                Err(e) => Err(e),
                Ok(r) => tan_lower_spec(r, b, (fuel - 1) as nat),
            },
        }
    }
}

fn tan_lower(value: Dec, offset: Dec) -> (r: Result<(Dec, Dec), Error>)
    requires
        value.wf(),
        offset.wf(),
    ensures
        r == tan_lower_spec(value, offset, MAX_TAN_STEPS as nat),
        r matches Ok(v) ==> v.0.wf() && v.1.wf(),
{
    let fifth = constant(Constant::OneFifth);
    let two_fifths = constant(Constant::TwoFifths);
    let mut rem = value;
    let mut base = offset;
    let mut fuel: usize = MAX_TAN_STEPS;
    while fuel > 0
        invariant
            rem.wf(),
            base.wf(),
            fifth == konst(Constant::OneFifth),
            two_fifths == konst(Constant::TwoFifths),
            tan_lower_spec(rem, base, fuel as nat) == tan_lower_spec(value, offset, MAX_TAN_STEPS as nat),
        decreases fuel,
    {
        if rem.lt(&fifth) {
            return Ok((rem, base));
        }
        let (angle, tan) = if Dec::one().lt(&rem) {
            (constant(Constant::PiDiv6), constant(Constant::TanPiDiv6))
        } else if two_fifths.lt(&rem) {
            (constant(Constant::PiDiv18), constant(Constant::TanPiDiv18))
        } else {
            (constant(Constant::PiDiv36), constant(Constant::TanPiDiv36))
        };
        base = base.try_add(angle)?;
        rem = tan_sub(rem, tan)?;
        fuel = fuel - 1;
    }
    Ok((rem, base))
}

/// Arctangent preparation: a negative tangent is first rotated by −π/4 (above −1) or
/// twice by −π/4 (at most −1), then reduced by `tan_lower_spec`.
pub open spec fn tan_prepare_spec(value: Dec) -> Result<(Dec, Dec), Error> {
    let m1 = Dec::int_spec(-1);
    let first = if !value.less(Dec::int_spec(0)) {
        Ok((value, Dec::int_spec(0)))
    } else if m1.less(value) {
        match tan_sub_spec(value, m1) {
            Err(e) => Err(e),
            Ok(r) => Ok((r, konst(Constant::PiDiv4).neg_spec())),
        }
    } else {
        match tan_sub_spec(value, m1) {
            Err(e) => Err(e),
            Ok(r1) => match tan_sub_spec(r1, m1) {
                Err(e) => Err(e),
                Ok(r) => Ok((r, konst(Constant::PiDiv2).neg_spec())),
            },
        }
    };
    match first {
        Err(e) => Err(e),
        Ok((rem, base)) => tan_lower_spec(rem, base, MAX_TAN_STEPS as nat),
    }
}

fn tan_prepare(value: Dec) -> (r: Result<(Dec, Dec), Error>)
    requires
        value.wf(),
    ensures
        r == tan_prepare_spec(value),
        r matches Ok(v) ==> v.0.wf() && v.1.wf(),
{
    let m1 = Dec::from_int(-1);
    let (rem, base) = if !value.lt(&Dec::zero()) {
        (value, Dec::zero())
    } else if m1.lt(&value) {
        (tan_sub(value, m1)?, constant(Constant::PiDiv4).neg())
    } else {
        let r1 = tan_sub(value, m1)?;
        (tan_sub(r1, m1)?, constant(Constant::PiDiv2).neg())
    };
    tan_lower(rem, base)
}

/// Two-argument preparation: the pair is rotated back by π/2, π or 3π/2 into the first
/// quadrant, its tangent taken, and that reduced by `tan_lower_spec`.
pub open spec fn tan2_prepare_spec(c: Dec, s: Dec) -> Result<(Dec, Dec), Error> {
    let z = Dec::int_spec(0);
    match div_r(s, c) {
        Err(e) => Err(e),
        Ok(t) => {
            let first = if z.less(s) && !z.less(c) {
                match tan_sub2_spec((c, s), (z, Dec::int_spec(1))) {
                    Err(e) => Err(e),
                    Ok(r) => Ok((r, konst(Constant::PiDiv2))),
                }
            } else if !z.less(s) && c.less(z) {
                match tan_sub2_spec((c, s), (Dec::int_spec(-1), z)) {
                    Err(e) => Err(e),
                    Ok(r) => Ok((r, konst(Constant::Pi))),
                }
            } else if s.less(z) && !c.less(z) {
                match tan_sub2_spec((c, s), (z, Dec::int_spec(-1))) {
                    Err(e) => Err(e),
                    Ok(r) => Ok((r, konst(Constant::Pi3Div2))),
                }
            } else {
                Ok((t, z))
            };
            match first {
                Err(e) => Err(e),
                Ok((rem, base)) => tan_lower_spec(rem, base, MAX_TAN_STEPS as nat),
            }
        },
    }
}

fn tan2_prepare(c: Dec, s: Dec) -> (r: Result<(Dec, Dec), Error>)
    requires
        c.wf(),
        s.wf(),
    ensures
        r == tan2_prepare_spec(c, s),
        r matches Ok(v) ==> v.0.wf() && v.1.wf(),
{
    let z = Dec::zero();
    let t = s.try_div(c)?;
    let (rem, base) = if z.lt(&s) && !z.lt(&c) {
        (tan_sub2((c, s), (z, Dec::one()))?, constant(Constant::PiDiv2))
    } else if !z.lt(&s) && c.lt(&z) {
        (tan_sub2((c, s), (Dec::from_int(-1), z))?, constant(Constant::Pi))
    } else if s.lt(&z) && !c.lt(&z) {
        (tan_sub2((c, s), (z, Dec::from_int(-1)))?, constant(Constant::Pi3Div2))
    } else {
        (t, z)
    };
    tan_lower(rem, base)
}

/// The arctangent as the engine computes it: 0, 1 and −1 are exact; anything else is the
/// reduction's accumulated angle plus the series on the reduced tangent.
pub open spec fn atan_spec(value: Dec, terms: nat) -> Result<Dec, Error> {
    if value.same(Dec::int_spec(0)) {
        Ok(Dec::int_spec(0))
    } else if value.same(Dec::int_spec(1)) {
        Ok(konst(Constant::PiDiv4))
    } else if value.same(Dec::int_spec(-1)) {
        Ok(konst(Constant::PiDiv4).neg_spec())
    } else {
        match tan_prepare_spec(value) {
            Err(e) => Err(e),
            Ok(p) => match alt_series_spec(AltSeries::Atan, p.0, terms) {
                Err(e) => Err(e),
                Ok(v) => add_r(p.1, v),
            },
        }
    }
}

/// `atan(value)` from `terms` terms of its series.
pub fn atan(value: Dec, terms: usize) -> (r: Result<Dec, Error>)
    requires
        value.wf(),
        terms <= usize::MAX / 4,
    ensures
        r == atan_spec(value, terms as nat),
        r matches Ok(v) ==> v.wf(),
{
    if value.eq_val(&Dec::zero()) {
        Ok(Dec::zero())
    } else if value.eq_val(&Dec::one()) {
        Ok(constant(Constant::PiDiv4))
    } else if value.eq_val(&Dec::from_int(-1)) {
        Ok(constant(Constant::PiDiv4).neg())
    } else {
        let (rem, base) = tan_prepare(value)?;
        let v = atan_series(rem, terms)?;
        base.try_add(v)
    }
}

/// The angle of a unit `(cos, sin)` pair as the engine computes it: a pair off the unit
/// circle is rejected, the four axis directions are exact, anything else is reduced to the
/// first quadrant, summed, and folded back into (−π, π].
pub open spec fn atan2_spec(c: Dec, s: Dec, terms: nat) -> Result<Dec, Error> {
    let z = Dec::int_spec(0);
    if !valid_pair_spec(c, s, terms) {
        Err(Error::InvalidSineCosinePair)
    } else if z.less(c) && s.same(z) {
        Ok(z)
    } else if c.same(z) && z.less(s) {
        Ok(konst(Constant::PiDiv2))
    } else if c.less(z) && s.same(z) {
        Ok(konst(Constant::Pi))
    } else if c.same(z) && s.less(z) {
        Ok(konst(Constant::PiDiv2).neg_spec())
    } else {
        match tan2_prepare_spec(c, s) {
            Err(e) => Err(e),
            Ok(p) => match alt_series_spec(AltSeries::Atan, p.0, terms) {
                Err(e) => Err(e),
                Ok(v) => match add_r(p.1, v) {
                    Err(e) => Err(e),
                    Ok(arg) => if konst(Constant::Pi).less(arg) {
                        sub_r(arg, konst(Constant::Pi2))
                    } else {
                        Ok(arg)
                    },
                },
            },
        }
    }
}

/// The angle of the unit pair `(cos, sin)`, from `terms` terms of the arctangent series.
pub fn atan2(c: Dec, s: Dec, terms: usize) -> (r: Result<Dec, Error>)
    requires
        c.wf(),
        s.wf(),
        terms <= usize::MAX / 4,
    ensures
        r == atan2_spec(c, s, terms as nat),
        !valid_pair_spec(c, s, terms as nat) ==> r == Err::<Dec, Error>(Error::InvalidSineCosinePair),
        r matches Ok(v) ==> v.wf(),
{
    if !is_valid_pair(c, s, terms) {
        return Err(Error::InvalidSineCosinePair);
    }
    let z = Dec::zero();
    if z.lt(&c) && s.eq_val(&z) {
        Ok(z)
    } else if c.eq_val(&z) && z.lt(&s) {
        Ok(constant(Constant::PiDiv2))
    } else if c.lt(&z) && s.eq_val(&z) {
        Ok(constant(Constant::Pi))
    } else if c.eq_val(&z) && s.lt(&z) {
        Ok(constant(Constant::PiDiv2).neg())
    } else {
        let (rem, base) = tan2_prepare(c, s)?;
        let v = atan_series(rem, terms)?;
        let arg = base.try_add(v)?;
        if constant(Constant::Pi).lt(&arg) {
            arg.try_sub(constant(Constant::Pi2))
        } else {
            Ok(arg)
        }
    }
}

} // verus!
