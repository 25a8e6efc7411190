use vstd::prelude::*;

use crate::decimal::{Dec, mul_of};
use crate::error::Error;
use crate::multiplex::types::{Multiplex, all_wf};

verus! {

/// The integer `value` as a scalar.
pub fn dec(value: usize) -> (r: Dec)
    ensures
        r == Dec::int_spec(value as int),
        r.wf(),
{
    Dec::new(value as i128, 0)
}

/// Absolute value.
pub fn pos(value: Dec) -> (r: Dec)
    requires
        value.wf(),
    ensures
        r.mant == (if value.mant < 0 { -value.mant } else { value.mant as int }),
        r.scale == value.scale,
        r.wf(),
{
    value.abs()
}

/// `v * v * ... * v` (`n >= 1` factors), multiplied from the left and rounded at
/// every step; `None` once a product overflows.
pub open spec fn repeat_mul(v: Dec, n: nat) -> Option<Dec>
    decreases n,
{
    if n <= 1 {
        Some(v)
    } else {
        match repeat_mul(v, (n - 1) as nat) {
            Some(p) => mul_of(p, v),
            None => None,
        }
    }
}

/// `v^n`: one for `n = 0`, `v` for `n = 1`, zero and one kept as they are, and otherwise
/// the repeated product.
pub open spec fn pow_spec(v: Dec, n: nat) -> Result<Dec, Error> {
    if n == 0 {
        Ok(Dec::int_spec(1))
    } else if n == 1 {
        Ok(v)
    } else if v.same(Dec::int_spec(0)) {
        Ok(Dec::int_spec(0))
    } else if v.same(Dec::int_spec(1)) {
        Ok(Dec::int_spec(1))
    } else {
        match repeat_mul(v, n) {
            Some(p) => Ok(p),
            None => Err(Error::MultiplyOverflow),
        }
    }
}

/// `n` copies of a factor list, one after another.
pub open spec fn repeat(s: Seq<Dec>, n: nat) -> Seq<Dec>
    decreases n,
{
    if n == 0 {
        Seq::empty()
    } else {
        repeat(s, (n - 1) as nat) + s
    }
}

/// Repeating a list of well-formed factors keeps them well formed.
pub proof fn lemma_repeat_wf(s: Seq<Dec>, n: nat)
    requires
        all_wf(s),
    ensures
        all_wf(repeat(s, n)),
    decreases n,
{
    if n > 0 {
        lemma_repeat_wf(s, (n - 1) as nat);
        let a = repeat(s, (n - 1) as nat);
        assert forall|i: int| 0 <= i < (a + s).len() implies #[trigger] (a + s)[i].wf() by {
            if i < a.len() {
                assert((a + s)[i] == a[i]);
            } else {
                assert((a + s)[i] == s[i - a.len()]);
            }
        }
    }
}

fn pow_series(value: Dec, power: usize) -> (r: Result<Dec, Error>)
    requires
        value.wf(),
        power >= 1,
    ensures
        match repeat_mul(value, power as nat) {
            Some(p) => r == Ok::<Dec, Error>(p),
            None => r == Err::<Dec, Error>(Error::MultiplyOverflow),
        },
        r matches Ok(v) ==> v.wf(),
{
    let mut acc = value;
    let mut i: usize = 1;
    while i < power
        invariant
            1 <= i <= power,
            value.wf(),
            acc.wf(),
            repeat_mul(value, i as nat) == Some(acc),
        decreases power - i,
    {
        match acc.checked_mul(value) {
            Some(v) => {
                acc = v;
            },
            None => {
                proof {
                    lemma_repeat_mul_none(value, (i + 1) as nat, power as nat);
                }
                return Err(Error::MultiplyOverflow);
            },
        }
        i = i + 1;
    }
    Ok(acc)
}

/// Once a repeated product overflows, every longer one does too.
pub proof fn lemma_repeat_mul_none(v: Dec, i: nat, n: nat)
    requires
        1 <= i <= n,
        repeat_mul(v, i) is None,
    ensures
        repeat_mul(v, n) is None,
    decreases n - i,
{
    if i < n {
        lemma_repeat_mul_none(v, i + 1, n);
    }
}

/// `value^power`, see `pow_spec`.
pub fn pow(value: Dec, power: usize) -> (r: Result<Dec, Error>)
    requires
        value.wf(),
    ensures
        r == pow_spec(value, power as nat),
        r matches Ok(v) ==> v.wf(),
{
    if power == 0 {
        Ok(Dec::one())
    } else if power == 1 {
        Ok(value)
    } else if value.eq_val(&Dec::zero()) {
        Ok(Dec::zero())
    } else if value.eq_val(&Dec::one()) {
        Ok(Dec::one())
    } else {
        pow_series(value, power)
    }
}

fn m_pow_series(value: &Multiplex, power: usize) -> (r: Multiplex)
    requires
        power >= 1,
    ensures
        r.mul@ == repeat(value.mul@, power as nat),
        r.div@ == repeat(value.div@, power as nat),
{
    let mut acc = value.copy();
    let mut i: usize = 1;
    assert(repeat(value.mul@, 1) =~= value.mul@) by {
        reveal_with_fuel(repeat, 2);
    }
    assert(repeat(value.div@, 1) =~= value.div@) by {
        reveal_with_fuel(repeat, 2);
    }
    while i < power
        invariant
            1 <= i <= power,
            acc.mul@ == repeat(value.mul@, i as nat),
            acc.div@ == repeat(value.div@, i as nat),
        decreases power - i,
    {
        acc = acc.mul(value);
        i = i + 1;
    }
    acc
}

/// `value^power` as an unevaluated product: `power` copies of each factor list.
pub fn m_pow(value: Multiplex, power: usize) -> (r: Result<Multiplex, Error>)
    ensures
        r matches Ok(m) && m.mul@ == repeat(value.mul@, power as nat) && m.div@ == repeat(
            value.div@,
            power as nat,
        ),
{
    if power == 0 {
        Ok(Multiplex::new())
    } else if power == 1 {
        assert(repeat(value.mul@, 1) =~= value.mul@) by {
            reveal_with_fuel(repeat, 2);
        }
        assert(repeat(value.div@, 1) =~= value.div@) by {
            reveal_with_fuel(repeat, 2);
        }
        Ok(value)
    } else {
        Ok(m_pow_series(&value, power))
    }
}

/// The step of a scalar power accumulator `(last value, last exponent)`: the exponent
/// it starts from is clamped to `power`, the missing factor `value^(power - start)` is
/// computed and multiplied in from the left. Gives the result and the state after it.
pub open spec fn a_pow_spec(value: Dec, power: nat, base: (Dec, usize)) -> (Result<Dec, Error>, (Dec, usize)) {
    let start: usize = if base.1 > power { power as usize } else { base.1 };
    match pow_spec(value, (power - start) as nat) {
        Err(e) => (Err(e), (base.0, start)),
        Ok(d) => match mul_of(d, base.0) {
            None => (Err(Error::MultiplyOverflow), (base.0, start)),
            Some(x) => (Ok(x), (x, power as usize)),
        },
    }
}

/// Power with a scalar accumulator: `base` holds `(value^e, e)` from the previous call and
/// only the factor `value^(power - e)` is computed.
pub fn a_pow(value: Dec, power: usize, base: &mut (Dec, usize)) -> (r: Result<Dec, Error>)
    requires
        value.wf(),
        old(base).0.wf(),
    ensures
        r == a_pow_spec(value, power as nat, *old(base)).0,
        *final(base) == a_pow_spec(value, power as nat, *old(base)).1,
        final(base).0.wf(),
{
    if base.1 > power {
        base.1 = power;
    }
    let dif = pow(value, power - base.1)?;
    let result = match dif.checked_mul(base.0) {
        Some(v) => v,
        None => {
            return Err(Error::MultiplyOverflow);
        },
    };
    base.0 = result;
    base.1 = power;
    Ok(result)
}

/// The step of an unevaluated power accumulator: the missing factors `value^(power - start)`
/// are reduced to one scalar when that succeeds and appended as they are otherwise.
pub open spec fn am_pow_mul(value: Dec, power: nat, base: Seq<Dec>, start: nat) -> Seq<Dec> {
    let dif = repeat(seq![value], (power - start) as nat);
    match crate::multiplex::types::squash_spec(dif, Seq::empty()) {
        Ok(v) => base.push(v),
        Err(_) => base + dif,
    }
}

/// Power with an unevaluated accumulator: `base` holds `(value^e, e)` from the previous call;
/// the missing factor `value^(power - e)` joins its numerator.
pub fn am_pow(value: Dec, power: usize, base: &mut (Multiplex, usize)) -> (r: Result<Multiplex, Error>)
    requires
        value.wf(),
        old(base).0.wf(),
    ensures
        ({
            let start: nat = if old(base).1 > power { power as nat } else { old(base).1 as nat };
            &&& r matches Ok(m)
            &&& m.mul@ == am_pow_mul(value, power as nat, old(base).0.mul@, start)
            &&& m.div@ == old(base).0.div@
            &&& final(base).0.mul@ == m.mul@
            &&& final(base).0.div@ == m.div@
            &&& final(base).1 == power
            &&& final(base).0.wf()
        }),
{
    if base.1 > power {
        base.1 = power;
    }
    let single = Multiplex::new().mul_dec(value);
    let dif = m_pow(single, power - base.1)?;
    let mut result = base.0.copy();
    proof {
        lemma_repeat_wf(seq![value], (power - base.1) as nat);
        assert(dif.div@ =~= Seq::<Dec>::empty()) by {
            lemma_repeat_empty((power - base.1) as nat);
        }
    }
    match dif.squash() {
        Err(_) => {
            let mut m = crate::multiplex::types::copy_vec(&dif.mul);
            result.mul.append(&mut m);
        },
        Ok(v) => {
            result.mul.push(v);
        },
    };
    proof {
        assert(all_wf(result.mul@));
    }
    base.0 = result.copy();
    base.1 = power;
    Ok(result)
}

/// Repeating an empty list gives an empty list.
pub proof fn lemma_repeat_empty(n: nat)
    ensures
        repeat(Seq::<Dec>::empty(), n) == Seq::<Dec>::empty(),
    decreases n,
{
    if n > 0 {
        lemma_repeat_empty((n - 1) as nat);
        assert(repeat(Seq::<Dec>::empty(), (n - 1) as nat) + Seq::<Dec>::empty() =~= Seq::<Dec>::empty());
    }
}

} // verus!
