use vstd::prelude::*;

use crate::complex::riemann::zeta_spec;
use crate::complex::types::Complex;
use crate::constants::{Constant, konst};
use crate::decimal::{Dec, lemma_cmp_int, lemma_pow10_28};
use crate::error::Error;
use crate::euler::{exp_spec, ln_spec};
use crate::sqrt::sqrt_spec;
use crate::trigonometry::{atan_spec, cos_spec, lemma_zero_angle, sin_spec};

verus! {

/// For every term count the exact inputs bypass the series: `sqrt(0) = 0`, `sqrt(1) = 1`,
/// `exp(0) = 1`, `exp(1) = e`, `ln(1) = 0`, `ln(e) = 1`, and likewise `cos(0) = 1`,
/// `sin(0) = 0`, `atan(0) = 0`.
pub proof fn lemma_exact_cases(terms: nat)
    ensures
        sqrt_spec(Dec::int_spec(0), terms) == Ok::<Dec, Error>(Dec::int_spec(0)),
        sqrt_spec(Dec::int_spec(1), terms) == Ok::<Dec, Error>(Dec::int_spec(1)),
        exp_spec(Dec::int_spec(0), terms) == Ok::<Dec, Error>(Dec::int_spec(1)),
        exp_spec(Dec::int_spec(1), terms) == Ok::<Dec, Error>(konst(Constant::E)),
        ln_spec(Dec::int_spec(1), terms) == Ok::<Dec, Error>(Dec::int_spec(0)),
        ln_spec(konst(Constant::E), terms) == Ok::<Dec, Error>(Dec::int_spec(1)),
        cos_spec(Dec::int_spec(0), terms) == Ok::<Dec, Error>(Dec::int_spec(1)),
        sin_spec(Dec::int_spec(0), terms) == Ok::<Dec, Error>(Dec::int_spec(0)),
        atan_spec(Dec::int_spec(0), terms) == Ok::<Dec, Error>(Dec::int_spec(0)),
{
    lemma_zero_angle(Dec::int_spec(0));
    lemma_cmp_int(Dec::int_spec(0), 0);
    lemma_cmp_int(Dec::int_spec(1), 0);
    lemma_cmp_int(Dec::int_spec(1), 1);
    let e = konst(Constant::E);
    lemma_pow10_28();
    lemma_cmp_int(e, 0);
    lemma_cmp_int(e, 1);
}

/// For every term count: the square root of −1 and the logarithm of 0 are outside their
/// domains, and so is the zeta function at any `s` with real part 1.
pub proof fn lemma_domain_errors(terms: nat, zeta_terms: nat, s: Complex)
    requires
        s.re.same(Dec::int_spec(1)),
    ensures
        sqrt_spec(Dec::int_spec(-1), terms) == Err::<Dec, Error>(Error::InputOutOfRange),
        ln_spec(Dec::int_spec(0), terms) == Err::<Dec, Error>(Error::InputOutOfRange),
        zeta_spec(s, zeta_terms, terms) == Err::<Complex, Error>(Error::InputOutOfRange),
{
    lemma_cmp_int(Dec::int_spec(-1), 0);
    lemma_cmp_int(Dec::int_spec(0), 0);
    lemma_cmp_int(s.re, 1);
}

} // verus!
