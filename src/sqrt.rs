use vstd::prelude::*;

use crate::arithmetic::repeat;
use crate::decimal::{Dec, sub_r, mul_r, mul_of, fract_of};
use crate::error::Error;
use crate::factorial::{fac_factors, m_fac, lemma_fac_factors};
use crate::multiplex::basic::{ma_pow, ma_pow_spec, m_pow};
use crate::multiplex::types::{Multiplex, squash_spec, all_wf};
use crate::rescale::{PassKind, pass, pass_table, passes_spec, rescale3};
use crate::series::{series_sum, lemma_series_sum_err, acc_state, acc_before, mux_init, mux_step, add_term};

verus! {

/// Most halvings the integer square-root search takes.
pub const MAX_SEARCH_STEPS: usize = 256;

/// Argument reduction of the square root: `(rem, base)` with `value = rem * base^2`
/// (up to rounding) and `rem` brought near one by the three square-root passes.
pub open spec fn sqrt_prepare_spec(value: Dec) -> Result<(Dec, Dec), Error> {
    passes_spec(
        pass_table(PassKind::SqrtCoarse),
        pass_table(PassKind::SqrtMid),
        pass_table(PassKind::SqrtFine),
        value,
        Dec::int_spec(1),
    )
}

fn sqrt_prepare(value: Dec) -> (r: Result<(Dec, Dec), Error>)
    requires
        value.wf(),
    ensures
        r == sqrt_prepare_spec(value),
        r matches Ok(v) ==> v.0.wf() && v.1.wf(),
{
    rescale3(pass(PassKind::SqrtCoarse), pass(PassKind::SqrtMid), pass(PassKind::SqrtFine), value, Dec::one())
}

/// Exponent of the power accumulators in term `k`: `k - 1`.
pub open spec fn sqrt_pows() -> spec_fn(nat) -> nat {
    |k: nat| (k - 1) as nat
}

/// `1 - value`, the base of the series' power accumulator (zero where it overflows; the
/// terms fail there before the accumulator is read).
pub open spec fn sqrt_diff(value: Dec) -> Dec {
    match sub_r(Dec::int_spec(1), value) {
        Ok(d) => d,
        Err(_) => Dec::int_spec(0),
    }
}

/// Term `k` (from 1) of `sqrt(x) = Σ x·(2n)!·(1−x)^n / (n!·2^n)^2` with `n = k − 1`,
/// held unevaluated and reduced once.
pub open spec fn sqrt_term(value: Dec) -> spec_fn(nat) -> Result<Dec, Error> {
    |k: nat|
        {
            let n = (k - 1) as nat;
            match sub_r(Dec::int_spec(1), value) {
                Err(e) => Err(e),
                Ok(d) => {
                    let a1 = ma_pow_spec(
                        d,
                        n,
                        acc_before(mux_init(), mux_step(sqrt_diff(value), sqrt_pows()), 1, k),
                    );
                    let a2 = ma_pow_spec(
                        Dec::int_spec(2),
                        n,
                        acc_before(mux_init(), mux_step(Dec::int_spec(2), sqrt_pows()), 1, k),
                    );
                    let num_mul = fac_factors(2 * n).push(value) + a1.0;
                    let num_div = a1.1;
                    let den_mul = repeat(fac_factors(n) + a2.0, 2);
                    let den_div = repeat(a2.1, 2);
                    squash_spec(num_mul + den_div, num_div + den_mul)
                },
            }
        }
}

/// The first `terms` terms of the square-root series, summed.
pub open spec fn sqrt_series_spec(value: Dec, terms: nat) -> Result<Dec, Error> {
    series_sum(sqrt_term(value), 1, terms)
}

fn sqrt_series(value: Dec, terms: usize) -> (r: Result<Dec, Error>)
    requires
        value.wf(),
        terms <= usize::MAX / 4,
    ensures
        r == sqrt_series_spec(value, terms as nat),
        r matches Ok(v) ==> v.wf(),
{
    let mut acc1: (Multiplex, usize) = (Multiplex::new(), 0);
    let mut acc2: (Multiplex, usize) = (Multiplex::new(), 0);
    let ghost f = sqrt_term(value);
    let ghost d0 = sqrt_diff(value);
    let ghost st1 = mux_step(d0, sqrt_pows());
    let ghost st2 = mux_step(Dec::int_spec(2), sqrt_pows());
    let mut sum = Dec::zero();
    let mut k: usize = 0;
    while k < terms
        invariant
            k <= terms <= usize::MAX / 4,
            value.wf(),
            sum.wf(),
            acc1.0.wf(),
            acc2.0.wf(),
            f == sqrt_term(value),
            st1 == mux_step(sqrt_diff(value), sqrt_pows()),
            st2 == mux_step(Dec::int_spec(2), sqrt_pows()),
            k >= 1 ==> sub_r(Dec::int_spec(1), value) == Ok::<Dec, Error>(sqrt_diff(value)),
            (acc1.0.mul@, acc1.0.div@, acc1.1 as nat) == acc_state(mux_init(), st1, 1, k as nat),
            (acc2.0.mul@, acc2.0.div@, acc2.1 as nat) == acc_state(mux_init(), st2, 1, k as nat),
            series_sum(f, 1, k as nat) == Ok::<Dec, Error>(sum),
        decreases terms - k,
    {
        let n = k;
        k = k + 1;
        let d = match Dec::one().try_sub(value) {
            Ok(d) => d,
            Err(e) => {
                proof {
                    lemma_series_sum_err(f, 1, k as nat, terms as nat);
                }
                return Err(e);
            },
        };
        let a1 = ma_pow(d, n, &mut acc1)?;
        let a2 = ma_pow(Dec::from_int(2), n, &mut acc2)?;
        proof {
            lemma_fac_factors((2 * n) as nat);
            lemma_fac_factors(n as nat);
        }
        let num = Multiplex::dec_mul(value, &m_fac(2 * n)).mul(&a1);
        let fa = m_fac(n).mul(&a2);
        proof {
            assert(all_wf(fa.mul@));
            assert(all_wf(fa.div@));
            crate::arithmetic::lemma_repeat_wf(fa.mul@, 2);
            crate::arithmetic::lemma_repeat_wf(fa.div@, 2);
        }
        let den = m_pow(fa, 2)?;
        let q = num.div(&den);
        proof {
            assert(num.mul@ =~= fac_factors((2 * n) as nat).push(value) + a1.mul@);
            assert(all_wf(num.mul@));
            assert(all_wf(num.div@));
            assert(all_wf(q.mul@));
            assert(all_wf(q.div@));
        }
        let t = match q.squash() {
            Ok(t) => t,
            Err(e) => {
                proof {
                    lemma_series_sum_err(f, 1, k as nat, terms as nat);
                }
                return Err(e);
            },
        };
        let s = add_term(k == 1, sum, t, Ghost(f), Ghost(1nat), Ghost(k as nat));
        sum = match s {
            Ok(v) => v,
            Err(e) => {
                proof {
                    lemma_series_sum_err(f, 1, k as nat, terms as nat);
                }
                return Err(e);
            },
        };
    }
    Ok(sum)
}

/// The square root as the engine computes it: negative inputs are outside the domain,
/// zero and one are exact, anything else is reduced, summed and scaled back.
pub open spec fn sqrt_spec(value: Dec, terms: nat) -> Result<Dec, Error> {
    if value.less(Dec::int_spec(0)) {
        Err(Error::InputOutOfRange)
    } else if value.same(Dec::int_spec(0)) {
        Ok(Dec::int_spec(0))
    } else if value.same(Dec::int_spec(1)) {
        Ok(Dec::int_spec(1))
    } else {
        match sqrt_prepare_spec(value) {
            Err(e) => Err(e),
            Ok(p) => match sqrt_series_spec(p.0, terms) {
                Err(e) => Err(e),
                Ok(s) => mul_r(p.1, s),
            },
        }
    }
}

/// Square root of `value` from `terms` terms of its series.
pub fn d_sqrt(value: Dec, terms: usize) -> (r: Result<Dec, Error>)
    requires
        value.wf(),
        terms <= usize::MAX / 4,
    ensures
        r == sqrt_spec(value, terms as nat),
        value.less(Dec::int_spec(0)) ==> r == Err::<Dec, Error>(Error::InputOutOfRange),
        value.same(Dec::int_spec(0)) ==> r == Ok::<Dec, Error>(Dec::int_spec(0)),
        value.same(Dec::int_spec(1)) ==> r == Ok::<Dec, Error>(Dec::int_spec(1)),
        r matches Ok(v) ==> v.wf(),
{
    proof {
        crate::decimal::lemma_cmp_int(value, 0);
        crate::decimal::lemma_cmp_int(value, 1);
    }
    if value.lt(&Dec::zero()) {
        return Err(Error::InputOutOfRange);
    }
    if value.eq_val(&Dec::zero()) {
        Ok(Dec::zero())
    } else if value.eq_val(&Dec::one()) {
        Ok(Dec::one())
    } else {
        let (rem, base) = sqrt_prepare(value)?;
        let s = sqrt_series(rem, terms)?;
        base.try_mul(s)
    }
}

/// The root of a perfect square `k <= 100`.
pub open spec fn small_root(k: nat) -> Option<int> {
    if k == 0 {
        Some(0)
    } else if k == 1 {
        Some(1)
    } else if k == 4 {
        Some(2)
    } else if k == 9 {
        Some(3)
    } else if k == 16 {
        Some(4)
    } else if k == 25 {
        Some(5)
    } else if k == 36 {
        Some(6)
    } else if k == 49 {
        Some(7)
    } else if k == 64 {
        Some(8)
    } else if k == 81 {
        Some(9)
    } else if k == 100 {
        Some(10)
    } else {
        None
    }
}

fn i_sqrt_100(value: Dec) -> (r: Result<Dec, Error>)
    requires
        value.wf(),
    ensures
        match value.to_usize_spec() {
            Some(k) => match small_root(k as nat) {
                Some(j) => r == Ok::<Dec, Error>(Dec::int_spec(j)),
                None => r == Err::<Dec, Error>(Error::InputOutOfRange),
            },
            None => r == Err::<Dec, Error>(Error::InputOutOfRange),
        },
{
    let k = match value.to_usize() {
        Some(k) => k,
        None => {
            return Err(Error::InputOutOfRange);
        },
    };
    match k {
        0 => Ok(Dec::from_int(0)),
        1 => Ok(Dec::from_int(1)),
        4 => Ok(Dec::from_int(2)),
        9 => Ok(Dec::from_int(3)),
        16 => Ok(Dec::from_int(4)),
        25 => Ok(Dec::from_int(5)),
        36 => Ok(Dec::from_int(6)),
        49 => Ok(Dec::from_int(7)),
        64 => Ok(Dec::from_int(8)),
        81 => Ok(Dec::from_int(9)),
        100 => Ok(Dec::from_int(10)),
        _ => Err(Error::InputOutOfRange),
    }
}

/// `m` squared, as computed, has the value of `value`.
pub open spec fn is_root_of(m: Dec, value: Dec) -> bool {
    mul_of(m, m) matches Some(sq) && sq.same(value)
}

fn i_sqrt_helper(value: Dec) -> (r: Result<Dec, Error>)
    requires
        value.wf(),
    ensures
        r matches Ok(m) ==> is_root_of(m, value),
        r matches Err(e) ==> e == Error::InputOutOfRange || e == Error::AddOverflow || e
            == Error::MultiplyOverflow,
{
    let mut left = Dec::from_int(100);
    let mut right = value;
    let mut fuel: usize = MAX_SEARCH_STEPS;
    while fuel > 0
        invariant
            left.wf(),
            right.wf(),
            value.wf(),
        decreases fuel,
    {
        fuel = fuel - 1;
        if right.lt(&left) {
            return Err(Error::InputOutOfRange);
        }
        let mid = left.try_add(right)?.try_div(Dec::from_int(2))?.round();
        let mid_sqr = mid.try_mul(mid)?;
        if mid_sqr.eq_val(&value) {
            return Ok(mid);
        }
        if mid_sqr.lt(&value) {
            left = mid.try_add(Dec::one())?;
        } else {
            right = mid.try_sub(Dec::one())?;
        }
    }
    Err(Error::InputOutOfRange)
}

/// Integer square root of a perfect square: fractional or negative inputs are rejected,
/// squares up to 100 come from a table, larger ones from a binary search whose answer
/// squares back to the input.
pub fn i_sqrt(value: Dec) -> (r: Result<Dec, Error>)
    requires
        value.wf(),
    ensures
        !fract_of(value).same(Dec::int_spec(0)) ==> r == Err::<Dec, Error>(Error::InputOutOfRange),
        value.less(Dec::int_spec(0)) ==> r == Err::<Dec, Error>(Error::InputOutOfRange),
        fract_of(value).same(Dec::int_spec(0)) && !value.less(Dec::int_spec(0)) && !Dec::int_spec(100).less(value)
            ==> match value.to_usize_spec() {
            Some(k) => match small_root(k as nat) {
                Some(j) => r == Ok::<Dec, Error>(Dec::int_spec(j)),
                None => r == Err::<Dec, Error>(Error::InputOutOfRange),
            },
            None => r == Err::<Dec, Error>(Error::InputOutOfRange),
        },
        Dec::int_spec(100).less(value) ==> (r matches Ok(m) ==> is_root_of(m, value)),
{
    if !value.fract().eq_val(&Dec::zero()) {
        return Err(Error::InputOutOfRange);
    }
    if value.lt(&Dec::zero()) {
        return Err(Error::InputOutOfRange);
    }
    if value.le(&Dec::from_int(100)) {
        i_sqrt_100(value)
    } else {
        i_sqrt_helper(value)
    }
}

} // verus!
