use vstd::prelude::*;

use crate::decimal::{Dec, add_of};
use crate::error::Error;
use crate::arithmetic::{a_pow_spec, am_pow_mul};
use crate::basic::da_pow_spec;
use crate::multiplex::basic::ma_pow_spec;

verus! {

/// The terms `f(lo) .. f(hi)` summed left to right with checked addition, as the series
/// engines add them: the first failure wins, an overflowing sum fails with `AddOverflow`,
/// and an empty range sums to zero.
pub open spec fn series_sum(f: spec_fn(nat) -> Result<Dec, Error>, lo: nat, hi: nat) -> Result<Dec, Error>
    decreases hi,
{
    if hi < lo {
        Ok(Dec::int_spec(0))
    } else if hi == lo {
        f(lo)
    } else {
        match series_sum(f, lo, (hi - 1) as nat) {
            Err(e) => Err(e),
            Ok(s) => match f(hi) {
                Err(e) => Err(e),
                Ok(t) => match add_of(s, t) {
                    None => Err(Error::AddOverflow),
                    Some(v) => Ok(v),
                },
            },
        }
    }
}

/// A failed partial sum fails every longer sum in the same way.
pub proof fn lemma_series_sum_err(f: spec_fn(nat) -> Result<Dec, Error>, lo: nat, k: nat, n: nat)
    requires
        lo <= k <= n,
        series_sum(f, lo, k) is Err,
    ensures
        series_sum(f, lo, n) == series_sum(f, lo, k),
    decreases n - k,
{
    if k < n {
        lemma_series_sum_err(f, lo, k, (n - 1) as nat);
    }
}

/// State of an accumulator after the steps for the indices `lo ..= n`, each step
/// `step(i, state)` applied to the state the previous one left, starting from `init`.
pub open spec fn acc_state<S>(init: S, step: spec_fn(nat, S) -> S, lo: nat, n: nat) -> S
    decreases n,
{
    if n < lo {
        init
    } else if n == lo {
        step(lo, init)
    } else {
        step(n, acc_state(init, step, lo, (n - 1) as nat))
    }
}

/// State of an accumulator before the step for index `n`.
pub open spec fn acc_before<S>(init: S, step: spec_fn(nat, S) -> S, lo: nat, n: nat) -> S {
    if n <= lo {
        init
    } else {
        acc_state(init, step, lo, (n - 1) as nat)
    }
}

/// An empty unevaluated accumulator: `(numerator, denominator, exponent)`.
pub open spec fn mux_init() -> (Seq<Dec>, Seq<Dec>, nat) {
    (Seq::empty(), Seq::empty(), 0)
}

/// One `ma_pow` step of an unevaluated accumulator for `value`, with exponent `e(i)`.
pub open spec fn mux_step(value: Dec, e: spec_fn(nat) -> nat) -> spec_fn(nat, (Seq<Dec>, Seq<Dec>, nat)) -> (Seq<Dec>, Seq<Dec>, nat) {
    |i: nat, s: (Seq<Dec>, Seq<Dec>, nat)|
        {
            let r = ma_pow_spec(value, e(i), s);
            (r.0, r.1, e(i))
        }
}

/// One `am_pow` step of an unevaluated accumulator for `value`, with exponent `e(i)`.
pub open spec fn amux_step(value: Dec, e: spec_fn(nat) -> nat) -> spec_fn(nat, (Seq<Dec>, Seq<Dec>, nat)) -> (Seq<Dec>, Seq<Dec>, nat) {
    |i: nat, s: (Seq<Dec>, Seq<Dec>, nat)|
        {
            let start: nat = if s.2 > e(i) { e(i) } else { s.2 };
            (am_pow_mul(value, e(i), s.0, start), s.1, e(i))
        }
}

/// One `a_pow` step of a scalar accumulator for `value`, with exponent `e(i)`.
pub open spec fn a_step(value: Dec, e: spec_fn(nat) -> nat) -> spec_fn(nat, (Dec, usize)) -> (Dec, usize) {
    |i: nat, s: (Dec, usize)| a_pow_spec(value, e(i), s).1
}

/// One `da_pow` step of a scalar accumulator for `value`, with exponent `e(i)`.
pub open spec fn da_step(value: Dec, e: spec_fn(nat) -> nat) -> spec_fn(nat, (Dec, usize)) -> (Dec, usize) {
    |i: nat, s: (Dec, usize)| da_pow_spec(value, e(i), s).1
}

/// Adds the term for index `n` to the partial sum of the terms before it.
pub(crate) fn add_term(
    first: bool,
    sum: Dec,
    t: Dec,
    Ghost(f): Ghost<spec_fn(nat) -> Result<Dec, Error>>,
    Ghost(lo): Ghost<nat>,
    Ghost(n): Ghost<nat>,
) -> (r: Result<Dec, Error>)
    requires
        lo <= n,
        first == (n == lo),
        sum.wf(),
        t.wf(),
        f(n) == Ok::<Dec, Error>(t),
        n > lo ==> series_sum(f, lo, (n - 1) as nat) == Ok::<Dec, Error>(sum),
    ensures
        r == series_sum(f, lo, n),
        r matches Ok(v) ==> v.wf(),
{
    if first {
        Ok(t)
    } else {
        match sum.checked_add(t) {
            Some(v) => Ok(v),
            None => Err(Error::AddOverflow),
        }
    }
}

} // verus!
