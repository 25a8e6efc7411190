use vstd::prelude::*;

use crate::basic::{da_pow, da_pow_spec};
use crate::decimal::{Dec, sub_r, mul_r, div_r};
use crate::error::Error;
use crate::multiplex::basic::{ma_pow, ma_pow_spec};
use crate::multiplex::types::{Multiplex, squash_spec, all_wf};
use crate::series::{
    series_sum, lemma_series_sum_err, acc_state, acc_before, mux_init, mux_step, da_step, add_term,
};

verus! {

/// The fixed constants of the engine, each held to 28 fractional digits or exactly.
#[derive(Clone, Copy, Debug, PartialEq, Eq, Structural)]
pub enum Constant {
    /// π
    Pi,
    /// 2π
    Pi2,
    /// π/2
    PiDiv2,
    /// 3π/2
    Pi3Div2,
    /// π/4
    PiDiv4,
    /// π/6
    PiDiv6,
    /// π/18
    PiDiv18,
    /// π/36
    PiDiv36,
    /// tan(π/6)
    TanPiDiv6,
    /// tan(π/18)
    TanPiDiv18,
    /// tan(π/36)
    TanPiDiv36,
    /// e
    E,
    /// 1/e
    InvE,
    /// e^2
    ESqr,
    /// e^(1/5)
    EPow1Div5,
    /// e·1.2, upper bound of the coarse logarithm pass
    LnUpperBd,
    /// e·0.8, lower bound of the coarse logarithm pass
    LnLowerBd,
    /// e^0.2
    LnUpperMul,
    /// e^-0.2
    LnLowerMul,
    /// ln(e^0.2)
    LnUpperVal,
    /// ln(e^-0.2)
    LnLowerVal,
    /// e·1.05, upper bound of the fine logarithm pass
    LnUpperBdP,
    /// e·0.95, lower bound of the fine logarithm pass
    LnLowerBdP,
    /// e^0.05
    LnUpperMulP,
    /// e^-0.05
    LnLowerMulP,
    /// ln(e^0.05)
    LnUpperValP,
    /// ln(e^-0.05)
    LnLowerValP,
    /// 1.1^2, upper bound of the coarse square-root pass
    SqrtUpperBd,
    /// 0.9^2, lower bound of the coarse square-root pass
    SqrtLowerBd,
    /// 1.1
    SqrtUpperVal,
    /// 0.9
    SqrtLowerVal,
    /// 1.025^2, upper bound of the fine square-root pass
    SqrtUpperBdP,
    /// 0.975^2, lower bound of the fine square-root pass
    SqrtLowerBdP,
    /// 1.025
    SqrtUpperValP,
    /// 0.975
    SqrtLowerValP,
    /// 1/5
    OneFifth,
    /// 2/5
    TwoFifths,
    /// 1/4
    OneQuarter,
    /// 1/2
    OneHalf,
}

/// The scalar each constant stands for.
pub open spec fn konst(c: Constant) -> Dec {
    match c {
        Constant::Pi => Dec { mant: 31415926535897932384626433833, scale: 28 },
        Constant::Pi2 => Dec { mant: 62831853071795864769252867666, scale: 28 },
        Constant::PiDiv2 => Dec { mant: 15707963267948966192313216916, scale: 28 },
        Constant::Pi3Div2 => Dec { mant: 47123889803846898576939650749, scale: 28 },
        Constant::PiDiv4 => Dec { mant: 7853981633974483096156608458, scale: 28 },
        Constant::PiDiv6 => Dec { mant: 5235987755982988730771072305, scale: 28 },
        Constant::PiDiv18 => Dec { mant: 1745329251994329576923690768, scale: 28 },
        Constant::PiDiv36 => Dec { mant: 872664625997164788461845384, scale: 28 },
        Constant::TanPiDiv6 => Dec { mant: 5773502691896257645091487805, scale: 28 },
        Constant::TanPiDiv18 => Dec { mant: 1763269807084649734710903869, scale: 28 },
        Constant::TanPiDiv36 => Dec { mant: 874886635259240052220186694, scale: 28 },
        Constant::E => Dec { mant: 27182818284590452353602874714, scale: 28 },
        Constant::InvE => Dec { mant: 3678794411714423215955237702, scale: 28 },
        Constant::ESqr => Dec { mant: 73890560989306502272304274606, scale: 28 },
        Constant::EPow1Div5 => Dec { mant: 12214027581601698339210719946, scale: 28 },
        Constant::LnUpperBd => Dec { mant: 32619381941508542824323449656, scale: 28 },
        Constant::LnLowerBd => Dec { mant: 21746254627672361882882299771, scale: 28 },
        Constant::LnUpperMul => Dec { mant: 12214027581601698339210719946, scale: 28 },
        Constant::LnLowerMul => Dec { mant: 8187307530779818586699355086, scale: 28 },
        Constant::LnUpperVal => Dec { mant: 2, scale: 1 },
        Constant::LnLowerVal => Dec { mant: -2i128, scale: 1 },
        Constant::LnUpperBdP => Dec { mant: 28541959198819974971283018449, scale: 28 },
        Constant::LnLowerBdP => Dec { mant: 25823677370360929735922730978, scale: 28 },
        Constant::LnUpperMulP => Dec { mant: 10512710963760240396975176363, scale: 28 },
        Constant::LnLowerMulP => Dec { mant: 9512294245007140090914253198, scale: 28 },
        Constant::LnUpperValP => Dec { mant: 5, scale: 2 },
        Constant::LnLowerValP => Dec { mant: -5i128, scale: 2 },
        Constant::SqrtUpperBd => Dec { mant: 121, scale: 2 },
        Constant::SqrtLowerBd => Dec { mant: 81, scale: 2 },
        Constant::SqrtUpperVal => Dec { mant: 11, scale: 1 },
        Constant::SqrtLowerVal => Dec { mant: 9, scale: 1 },
        Constant::SqrtUpperBdP => Dec { mant: 1050625, scale: 6 },
        Constant::SqrtLowerBdP => Dec { mant: 950625, scale: 6 },
        Constant::SqrtUpperValP => Dec { mant: 1025, scale: 3 },
        Constant::SqrtLowerValP => Dec { mant: 975, scale: 3 },
        Constant::OneFifth => Dec { mant: 2, scale: 1 },
        Constant::TwoFifths => Dec { mant: 4, scale: 1 },
        Constant::OneQuarter => Dec { mant: 25, scale: 2 },
        Constant::OneHalf => Dec { mant: 5, scale: 1 },
    }
}

/// The scalar of a constant.
pub fn constant(c: Constant) -> (r: Dec)
    ensures
        r == konst(c),
        r.wf(),
{
    match c {
        Constant::Pi => Dec::new(31415926535897932384626433833, 28),
        Constant::Pi2 => Dec::new(62831853071795864769252867666, 28),
        Constant::PiDiv2 => Dec::new(15707963267948966192313216916, 28),
        Constant::Pi3Div2 => Dec::new(47123889803846898576939650749, 28),
        Constant::PiDiv4 => Dec::new(7853981633974483096156608458, 28),
        Constant::PiDiv6 => Dec::new(5235987755982988730771072305, 28),
        Constant::PiDiv18 => Dec::new(1745329251994329576923690768, 28),
        Constant::PiDiv36 => Dec::new(872664625997164788461845384, 28),
        Constant::TanPiDiv6 => Dec::new(5773502691896257645091487805, 28),
        Constant::TanPiDiv18 => Dec::new(1763269807084649734710903869, 28),
        Constant::TanPiDiv36 => Dec::new(874886635259240052220186694, 28),
        Constant::E => Dec::new(27182818284590452353602874714, 28),
        Constant::InvE => Dec::new(3678794411714423215955237702, 28),
        Constant::ESqr => Dec::new(73890560989306502272304274606, 28),
        Constant::EPow1Div5 => Dec::new(12214027581601698339210719946, 28),
        Constant::LnUpperBd => Dec::new(32619381941508542824323449656, 28),
        Constant::LnLowerBd => Dec::new(21746254627672361882882299771, 28),
        Constant::LnUpperMul => Dec::new(12214027581601698339210719946, 28),
        Constant::LnLowerMul => Dec::new(8187307530779818586699355086, 28),
        Constant::LnUpperVal => Dec::new(2, 1),
        Constant::LnLowerVal => Dec::new(-2, 1),
        Constant::LnUpperBdP => Dec::new(28541959198819974971283018449, 28),
        Constant::LnLowerBdP => Dec::new(25823677370360929735922730978, 28),
        Constant::LnUpperMulP => Dec::new(10512710963760240396975176363, 28),
        Constant::LnLowerMulP => Dec::new(9512294245007140090914253198, 28),
        Constant::LnUpperValP => Dec::new(5, 2),
        Constant::LnLowerValP => Dec::new(-5, 2),
        Constant::SqrtUpperBd => Dec::new(121, 2),
        Constant::SqrtLowerBd => Dec::new(81, 2),
        Constant::SqrtUpperVal => Dec::new(11, 1),
        Constant::SqrtLowerVal => Dec::new(9, 1),
        Constant::SqrtUpperBdP => Dec::new(1050625, 6),
        Constant::SqrtLowerBdP => Dec::new(950625, 6),
        Constant::SqrtUpperValP => Dec::new(1025, 3),
        Constant::SqrtLowerValP => Dec::new(975, 3),
        Constant::OneFifth => Dec::new(2, 1),
        Constant::TwoFifths => Dec::new(4, 1),
        Constant::OneQuarter => Dec::new(25, 2),
        Constant::OneHalf => Dec::new(5, 1),
    }
}

/// Exponent of the sign accumulator in term `k` of the π series: `k + 1`.
pub open spec fn pi_sign_pows() -> spec_fn(nat) -> nat {
    |k: nat| k + 1
}

/// Exponent of the power accumulator in term `k` of the π series: `2k − 1`.
pub open spec fn pi_pows() -> spec_fn(nat) -> nat {
    |k: nat| (2 * k - 1) as nat
}

/// Term `k` (from 1) of `atan(x) = Σ (−1)^(k+1) x^(2k−1) / (2k − 1)`.
pub open spec fn pi_term(value: Dec) -> spec_fn(nat) -> Result<Dec, Error> {
    |k: nat|
        {
            let sb = acc_before((Dec::int_spec(1), 0usize), da_step(Dec::int_spec(-1), pi_sign_pows()), 1, k);
            match da_pow_spec(Dec::int_spec(-1), k + 1, sb).0 {
                Err(e) => Err(e),
                Ok(sign) => {
                    let m = ma_pow_spec(value, (2 * k - 1) as nat, acc_before(mux_init(), mux_step(value, pi_pows()), 1, k));
                    match mul_r(Dec::int_spec(2), Dec::int_spec(k as int)) {
                        Err(e) => Err(e),
                        Ok(t) => match sub_r(t, Dec::int_spec(1)) {
                            Err(e) => Err(e),
                            Ok(d) => match squash_spec(m.0, m.1.push(d)) {
                                Err(e) => Err(e),
                                Ok(q) => mul_r(sign, q),
                            },
                        },
                    }
                },
            }
        }
}

/// Term `k` of the π series, advancing both accumulators by one step.
fn pi_step(value: Dec, k: usize, acc1: &mut (Dec, usize), acc2: &mut (Multiplex, usize)) -> (r: Result<Dec, Error>)
    requires
        value.wf(),
        1 <= k <= usize::MAX / 4,
        old(acc1).0.wf(),
        old(acc2).0.wf(),
        *old(acc1) == acc_before((Dec::int_spec(1), 0usize), da_step(Dec::int_spec(-1), pi_sign_pows()), 1, k as nat),
        (old(acc2).0.mul@, old(acc2).0.div@, old(acc2).1 as nat) == acc_before(mux_init(), mux_step(value, pi_pows()), 1, k as nat),
    ensures
        r == pi_term(value)(k as nat),
        r matches Ok(v) ==> v.wf(),
        final(acc1).0.wf(),
        final(acc2).0.wf(),
        *final(acc1) == acc_state((Dec::int_spec(1), 0usize), da_step(Dec::int_spec(-1), pi_sign_pows()), 1, k as nat),
        (final(acc2).0.mul@, final(acc2).0.div@, final(acc2).1 as nat) == acc_state(mux_init(), mux_step(value, pi_pows()), 1, k as nat),
{
    let sign = da_pow(Dec::from_int(-1), k + 1, acc1);
    let e: usize = 2 * k - 1;
    assert(pi_pows()(k as nat) == e);
    let m = match ma_pow(value, e, acc2) {
        Ok(m) => m,
        Err(err) => {
            return Err(err);
        },
    };
    let sign = match sign {
        Ok(x) => x,
        Err(err) => {
            return Err(err);
        },
    };
    let t = Dec::from_int(2).try_mul(crate::arithmetic::dec(k))?;
    let d = t.try_sub(Dec::one())?;
    let q = m.div_dec(d);
    proof {
        assert(all_wf(q.mul@));
        assert(all_wf(q.div@));
    }
    let q = q.squash()?;
    sign.try_mul(q)
}

/// The first `terms` terms of the arctangent series at `value`, summed.
pub open spec fn pi_series_spec(value: Dec, terms: nat) -> Result<Dec, Error> {
    series_sum(pi_term(value), 1, terms)
}

fn d_pi_term(value: Dec, terms: usize) -> (r: Result<Dec, Error>)
    requires
        value.wf(),
        terms <= usize::MAX / 4,
    ensures
        r == pi_series_spec(value, terms as nat),
        r matches Ok(v) ==> v.wf(),
{
    let mut acc1: (Dec, usize) = (Dec::one(), 0);
    let mut acc2: (Multiplex, usize) = (Multiplex::new(), 0);
    let ghost f = pi_term(value);
    let ghost st1 = da_step(Dec::int_spec(-1), pi_sign_pows());
    let ghost st2 = mux_step(value, pi_pows());
    let mut sum = Dec::zero();
    let mut k: usize = 0;
    while k < terms
        invariant
            k <= terms <= usize::MAX / 4,
            value.wf(),
            sum.wf(),
            acc1.0.wf(),
            acc2.0.wf(),
            f == pi_term(value),
            st1 == da_step(Dec::int_spec(-1), pi_sign_pows()),
            st2 == mux_step(value, pi_pows()),
            acc1 == acc_state((Dec::int_spec(1), 0usize), st1, 1, k as nat),
            (acc2.0.mul@, acc2.0.div@, acc2.1 as nat) == acc_state(mux_init(), st2, 1, k as nat),
            series_sum(f, 1, k as nat) == Ok::<Dec, Error>(sum),
        decreases terms - k,
    {
        k = k + 1;
        let t = match pi_step(value, k, &mut acc1, &mut acc2) {
            Ok(t) => t,
            Err(err) => {
                proof {
                    lemma_series_sum_err(f, 1, k as nat, terms as nat);
                }
                return Err(err);
            },
        };
        sum = match add_term(k == 1, sum, t, Ghost(f), Ghost(1nat), Ghost(k as nat)) {
            Ok(v) => v,
            Err(err) => {
                proof {
                    lemma_series_sum_err(f, 1, k as nat, terms as nat);
                }
                return Err(err);
            },
        };
    }
    Ok(sum)
}

/// Machin's formula `π = 4 · (4 · atan(1/5) − atan(1/239))`, each arctangent from
/// `terms` terms of its series.
pub open spec fn pi_spec(terms: nat) -> Result<Dec, Error> {
    match div_r(Dec::int_spec(1), Dec::int_spec(5)) {
        Err(e) => Err(e),
        Ok(a) => match pi_series_spec(a, terms) {
            Err(e) => Err(e),
            Ok(t1) => match div_r(Dec::int_spec(1), Dec::int_spec(239)) {
                Err(e) => Err(e),
                Ok(b) => match pi_series_spec(b, terms) {
                    Err(e) => Err(e),
                    Ok(t2) => match mul_r(Dec::int_spec(4), t1) {
                        Err(e) => Err(e),
                        Ok(x) => match sub_r(x, t2) {
                            Err(e) => Err(e),
                            Ok(y) => mul_r(Dec::int_spec(4), y),
                        },
                    },
                },
            },
        },
    }
}

/// π from `terms` terms of Machin's series.
pub fn d_pi(terms: usize) -> (r: Result<Dec, Error>)
    requires
        terms <= usize::MAX / 4,
    ensures
        r == pi_spec(terms as nat),
        r matches Ok(v) ==> v.wf(),
{
    let a = Dec::one().try_div(Dec::from_int(5))?;
    let term1 = d_pi_term(a, terms)?;
    let b = Dec::one().try_div(Dec::from_int(239))?;
    let term2 = d_pi_term(b, terms)?;
    let x = Dec::from_int(4).try_mul(term1)?;
    let y = x.try_sub(term2)?;
    Dec::from_int(4).try_mul(y)
}

} // verus!
