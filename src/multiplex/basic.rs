use vstd::prelude::*;

use crate::arithmetic::{dec, repeat, lemma_repeat_wf, lemma_repeat_empty};
use crate::decimal::Dec;
use crate::error::Error;
use crate::multiplex::types::{Multiplex, squash_spec, all_wf, copy_vec};

verus! {

/// The integer `value` as a one-factor product.
pub fn mux(value: usize) -> (r: Multiplex)
    ensures
        r.mul@ == seq![Dec::int_spec(value as int)],
        r.div@ == Seq::<Dec>::empty(),
        r.wf(),
{
    Multiplex::new().mul_dec(dec(value))
}

/// `value^power` as an unevaluated product, see `crate::arithmetic::m_pow`.
pub fn m_pow(value: Multiplex, power: usize) -> (r: Result<Multiplex, Error>)
    ensures
        r matches Ok(m) && m.mul@ == repeat(value.mul@, power as nat) && m.div@ == repeat(
            value.div@,
            power as nat,
        ),
{
    crate::arithmetic::m_pow(value, power)
}

/// The factor lists after one step of an unevaluated power accumulator holding
/// `(mul, div, exp)`: the exponent is clamped to `power`, the missing factors
/// `value^(power - start)` are reduced to one scalar when that succeeds (else appended as
/// they are), and the whole product collapses to one scalar when its reduction succeeds.
pub open spec fn ma_pow_spec(value: Dec, power: nat, acc: (Seq<Dec>, Seq<Dec>, nat)) -> (Seq<Dec>, Seq<Dec>) {
    let start: nat = if acc.2 > power { power } else { acc.2 };
    let dif = repeat(seq![value], (power - start) as nat);
    let m1 = match squash_spec(dif, Seq::empty()) {
        Ok(v) => acc.0.push(v),
        Err(_) => acc.0 + dif,
    };
    match squash_spec(m1, acc.1) {
        Ok(v) => (seq![v], Seq::empty()),
        Err(_) => (m1, acc.1),
    }
}

/// Power with an unevaluated accumulator that is kept collapsed whenever it can be:
/// `base` holds `(value^e, e)` from the previous call, only `value^(power - e)` is computed.
pub fn ma_pow(value: Dec, power: usize, base: &mut (Multiplex, usize)) -> (r: Result<Multiplex, Error>)
    requires
        value.wf(),
        old(base).0.wf(),
    ensures
        ({
            let s = ma_pow_spec(value, power as nat, (old(base).0.mul@, old(base).0.div@, old(base).1 as nat));
            &&& r matches Ok(m)
            &&& m.mul@ == s.0
            &&& m.div@ == s.1
            &&& m.wf()
            &&& final(base).0.mul@ == s.0
            &&& final(base).0.div@ == s.1
            &&& final(base).1 == power
            &&& final(base).0.wf()
        }),
{
    let exp = if base.1 > power { power } else { base.1 };
    let single = Multiplex::new().mul_dec(value);
    let dif = m_pow(single, power - exp)?;
    proof {
        lemma_repeat_wf(seq![value], (power - exp) as nat);
        lemma_repeat_empty((power - exp) as nat);
    }
    let mut result = base.0.copy();
    match dif.squash() {
        Err(_) => {
            let mut m = copy_vec(&dif.mul);
            result.mul.append(&mut m);
        },
        Ok(v) => {
            result.mul.push(v);
        },
    };
    proof {
        assert(all_wf(result.mul@));
    }
    match result.squash() {
        Err(_) => {},
        Ok(v) => {
            result = Multiplex::new().mul_dec(v);
            assert(result.mul@ =~= seq![v]);
        },
    };
    base.0 = result.copy();
    base.1 = power;
    Ok(result)
}

} // verus!
