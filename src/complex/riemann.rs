use vstd::prelude::*;

use crate::complex::basic::{cpx, cc_pow, cc_pow_spec};
use crate::complex::types::{Complex, cplx, c_add_spec, c_div_spec};
use crate::decimal::Dec;
use crate::error::Error;

verus! {

/// Term `n` of the zeta series: `1 / n^s`.
#[verifier::opaque]
pub open spec fn zeta_term(s: Complex, n: nat, terms: nat) -> Result<Complex, Error> {
    match cc_pow_spec(cplx(Dec::int_spec(n as int), Dec::int_spec(0)), s, terms) {
        Err(e) => Err(e),
        Ok(p) => c_div_spec(cplx(Dec::int_spec(1), Dec::int_spec(0)), p),
    }
}

/// `0 + 1/1^s + … + 1/k^s`, added left to right; the first failure wins.
pub open spec fn zeta_partial(s: Complex, k: nat, terms: nat) -> Result<Complex, Error>
    decreases k,
{
    if k == 0 {
        Ok(cplx(Dec::int_spec(0), Dec::int_spec(0)))
    } else {
        match zeta_partial(s, (k - 1) as nat, terms) {
            Err(e) => Err(e),
            Ok(acc) => match zeta_term(s, k, terms) {
                Err(e) => Err(e),
                Ok(t) => c_add_spec(acc, t),
            },
        }
    }
}

/// A failed partial sum fails every longer one the same way.
pub proof fn lemma_zeta_partial_err(s: Complex, k: nat, n: nat, terms: nat)
    requires
        k <= n,
        zeta_partial(s, k, terms) is Err,
    ensures
        zeta_partial(s, n, terms) == zeta_partial(s, k, terms),
    decreases n - k,
{
    if k < n {
        lemma_zeta_partial_err(s, k, (n - 1) as nat, terms);
    }
}

/// Term `n` of the zeta series, `1 / n^value`.
pub fn zeta_step(value: Complex, n: usize, terms: usize) -> (r: Result<Complex, Error>)
    requires
        value.wf(),
        terms <= usize::MAX / 4,
    ensures
        r == zeta_term(value, n as nat, terms as nat),
        r matches Ok(v) ==> v.wf(),
{
    reveal(zeta_term);
    let mut base = cpx(n);
    let p = cc_pow(&mut base, value, terms)?;
    Complex::one().div(&p)
}

fn zeta_series(value: Complex, zeta_terms: usize, terms: usize) -> (r: Result<Complex, Error>)
    requires
        value.wf(),
        terms <= usize::MAX / 4,
    ensures
        r == zeta_partial(value, zeta_terms as nat, terms as nat),
        r matches Ok(v) ==> v.wf(),
{
    let mut acc = Complex::zero();
    let mut n: usize = 0;
    while n < zeta_terms
        invariant
            n <= zeta_terms,
            value.wf(),
            acc.wf(),
            terms <= usize::MAX / 4,
            zeta_partial(value, n as nat, terms as nat) == Ok::<Complex, Error>(acc),
        decreases zeta_terms - n,
    {
        n = n + 1;
        let step = match zeta_step(value, n, terms) {
            Ok(t) => acc.add(&t),
            Err(e) => Err(e),
        };
        acc = match step {
            Ok(v) => v,
            Err(e) => {
                proof {
                    lemma_zeta_partial_err(value, n as nat, zeta_terms as nat, terms as nat);
                }
                return Err(e);
            },
        };
    }
    Ok(acc)
}

/// The Riemann zeta function truncated to `zeta_terms` terms: defined for `Re(s) > 1` only.
pub open spec fn zeta_spec(s: Complex, zeta_terms: nat, terms: nat) -> Result<Complex, Error> {
    if !Dec::int_spec(1).less(s.re) {
        Err(Error::InputOutOfRange)
    } else {
        zeta_partial(s, zeta_terms, terms)
    }
}

/// `ζ(s) ≈ Σ_{n=1}^{zeta_terms} n^(−s)`, each power from `terms` terms of its series;
/// `Re(s) <= 1` is outside the domain.
pub fn zeta(value: Complex, zeta_terms: usize, terms: usize) -> (r: Result<Complex, Error>)
    requires
        value.wf(),
        terms <= usize::MAX / 4,
    ensures
        r == zeta_spec(value, zeta_terms as nat, terms as nat),
        !Dec::int_spec(1).less(value.re) ==> r == Err::<Complex, Error>(Error::InputOutOfRange),
        r matches Ok(v) ==> v.wf(),
{
    if value.re.le(&Dec::one()) {
        return Err(Error::InputOutOfRange);
    }
    zeta_series(value, zeta_terms, terms)
}

} // verus!
