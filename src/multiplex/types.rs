use vstd::prelude::*;

use crate::decimal::{Dec, mul_of, div_of};
use crate::error::Error;

verus! {

/// All scalars of a sequence are well formed.
pub open spec fn all_wf(s: Seq<Dec>) -> bool {
    forall|i: int| 0 <= i < s.len() ==> #[trigger] s[i].wf()
}

/// A product held unevaluated: `∏mul / ∏div`.
#[derive(Debug)]
pub struct Multiplex {
    /// Factors of the numerator.
    pub mul: Vec<Dec>,
    /// Factors of the denominator.
    pub div: Vec<Dec>,
}

/// One fold pass over a factor list: the last two factors are replaced by their product
/// until one factor is left or the product overflows. Returns the list and whether any
/// fold took place.
pub open spec fn fold_side(s: Seq<Dec>) -> (Seq<Dec>, bool)
    decreases s.len(),
{
    if s.len() <= 1 {
        (s, false)
    } else {
        match mul_of(s[s.len() - 1], s[s.len() - 2]) {
            None => (s, false),
            Some(v) => (fold_side(s.subrange(0, s.len() - 2).push(v)).0, true),
        }
    }
}

/// Removes the last factor, or gives one when the list is empty.
pub open spec fn pop_or_one(s: Seq<Dec>) -> (Seq<Dec>, Dec) {
    if s.len() == 0 {
        (s, Dec::int_spec(1))
    } else {
        (s.drop_last(), s.last())
    }
}

/// The value of `∏mul / ∏div` as the reduction computes it: fold both sides, divide the
/// last numerator factor by the last denominator factor, and go on with the quotient as
/// a numerator factor until both lists are spent. It fails when a division overflows, or
/// when only numerator factors are left and no fold took place in the pass.
pub open spec fn squash_spec(mul: Seq<Dec>, div: Seq<Dec>) -> Result<Dec, Error>
    decreases 2 * div.len() + mul.len(),
{
    let (m1, sm) = fold_side(mul);
    let (d1, sd) = fold_side(div);
    let (m2, a) = pop_or_one(m1);
    let (d2, b) = pop_or_one(d1);
    match div_of(a, b) {
        None => Err(Error::MultiplyOverflow),
        Some(v) => {
            if d2.len() == 0 && m2.len() == 0 {
                Ok(v)
            } else if d2.len() == 0 && !(sm || sd) {
                Err(Error::MultiplyOverflow)
            } else {
                proof {
                    lemma_fold_side_len(mul);
                    lemma_fold_side_len(div);
                }
                squash_spec(m2.push(v), d2)
            }
        },
    }
}

/// A fold pass never lengthens the list, shortens it when it folds, and never empties it.
pub proof fn lemma_fold_side_len(s: Seq<Dec>)
    ensures
        fold_side(s).0.len() <= s.len(),
        fold_side(s).1 ==> fold_side(s).0.len() < s.len(),
        s.len() >= 1 ==> fold_side(s).0.len() >= 1,
        s.len() == 0 ==> fold_side(s).0.len() == 0,
    decreases s.len(),
{
    if s.len() > 1 {
        match mul_of(s[s.len() - 1], s[s.len() - 2]) {
            None => {},
            Some(v) => {
                lemma_fold_side_len(s.subrange(0, s.len() - 2).push(v));
            },
        }
    }
}

impl Multiplex {
    /// Every factor is a well-formed scalar.
    pub open spec fn wf(&self) -> bool {
        all_wf(self.mul@) && all_wf(self.div@)
    }

    /// The empty product, worth one.
    pub fn new() -> (r: Multiplex)
        ensures
            r.mul@ == Seq::<Dec>::empty(),
            r.div@ == Seq::<Dec>::empty(),
            r.wf(),
    {
        Multiplex { mul: Vec::new(), div: Vec::new() }
    }

    /// An equal copy.
    pub fn copy(&self) -> (r: Multiplex)
        ensures
            r.mul@ == self.mul@,
            r.div@ == self.div@,
    {
        Multiplex { mul: copy_vec(&self.mul), div: copy_vec(&self.div) }
    }

    /// `1 / self`: numerator and denominator trade places.
    pub fn inv(&self) -> (r: Multiplex)
        ensures
            r.mul@ == self.div@,
            r.div@ == self.mul@,
    {
        Multiplex { mul: copy_vec(&self.div), div: copy_vec(&self.mul) }
    }

    /// `self * d`.
    pub fn mul_dec(&self, d: Dec) -> (r: Multiplex)
        ensures
            r.mul@ == self.mul@.push(d),
            r.div@ == self.div@,
    {
        let mut t = self.copy();
        t.mul.push(d);
        t
    }

    /// `d * o`: `d` joins `o`'s numerator.
    pub fn dec_mul(d: Dec, o: &Multiplex) -> (r: Multiplex)
        ensures
            r.mul@ == o.mul@.push(d),
            r.div@ == o.div@,
    {
        o.mul_dec(d)
    }

    /// `self / d`.
    pub fn div_dec(&self, d: Dec) -> (r: Multiplex)
        ensures
            r.mul@ == self.mul@,
            r.div@ == self.div@.push(d),
    {
        let mut t = self.copy();
        t.div.push(d);
        t
    }

    /// `self * o`: the factor lists are joined.
    pub fn mul(&self, o: &Multiplex) -> (r: Multiplex)
        ensures
            r.mul@ == self.mul@ + o.mul@,
            r.div@ == self.div@ + o.div@,
    {
        let mut t = self.copy();
        let mut m = copy_vec(&o.mul);
        let mut d = copy_vec(&o.div);
        t.mul.append(&mut m);
        t.div.append(&mut d);
        t
    }

    /// `self / o`: the numerator takes `o`'s denominator and the other way round.
    pub fn div(&self, o: &Multiplex) -> (r: Multiplex)
        ensures
            r.mul@ == self.mul@ + o.div@,
            r.div@ == self.div@ + o.mul@,
    {
        let mut t = self.copy();
        let mut m = copy_vec(&o.div);
        let mut d = copy_vec(&o.mul);
        t.mul.append(&mut m);
        t.div.append(&mut d);
        t
    }

    /// `d / self`.
    pub fn dec_div(d: Dec, o: &Multiplex) -> (r: Multiplex)
        ensures
            r.mul@ == seq![d] + o.div@,
            r.div@ == o.mul@,
    {
        let mut t = Multiplex::new();
        t.mul.push(d);
        t.div(o)
    }

    /// `-self`: a factor of minus one is appended.
    pub fn neg(&self) -> (r: Multiplex)
        ensures
            r.mul@ == self.mul@.push(Dec::int_spec(-1)),
            r.div@ == self.div@,
    {
        self.mul_dec(Dec::from_int(-1))
    }

    /// One fold pass over `target` (see `fold_side`); tells whether it folded.
    fn squash_helper(target: &mut Vec<Dec>) -> (squashed: bool)
        requires
            all_wf(old(target)@),
        ensures
            final(target)@ == fold_side(old(target)@).0,
            squashed == fold_side(old(target)@).1,
            all_wf(final(target)@),
    {
        let mut squashed: bool = false;
        loop
            invariant
                all_wf(target@),
                fold_side(target@).0 == fold_side(old(target)@).0,
                fold_side(old(target)@).1 == (squashed || fold_side(target@).1),
            ensures
                target@ == fold_side(old(target)@).0,
                squashed == fold_side(old(target)@).1,
                all_wf(target@),
            decreases target@.len(),
        {
            if target.len() <= 1 {
                break ;
            }
            let ghost before = target@;
            let v1 = target.pop().unwrap();
            let v2 = target.pop().unwrap();
            assert(v1 == before[before.len() - 1] && v2 == before[before.len() - 2]);
            assert(target@ == before.subrange(0, before.len() - 2));
            match v1.checked_mul(v2) {
                None => {
                    target.push(v2);
                    target.push(v1);
                    assert(target@ =~= before);
                    break ;
                },
                Some(v) => {
                    target.push(v);
                    squashed = true;
                    assert(all_wf(target@));
                },
            };
        }
        squashed
    }

    /// Evaluates the product: the reduction described by `squash_spec`.
    pub fn squash(&self) -> (r: Result<Dec, Error>)
        requires
            self.wf(),
        ensures
            r == squash_spec(self.mul@, self.div@),
            r matches Ok(v) ==> v.wf(),
    {
        let mut mul = copy_vec(&self.mul);
        let mut div = copy_vec(&self.div);
        loop
            invariant
                all_wf(mul@),
                all_wf(div@),
                squash_spec(mul@, div@) == squash_spec(self.mul@, self.div@),
            decreases 2 * div@.len() + mul@.len(),
        {
            let ghost m0 = mul@;
            let ghost d0 = div@;
            proof {
                lemma_fold_side_len(m0);
                lemma_fold_side_len(d0);
            }
            let s_mul = Self::squash_helper(&mut mul);
            let s_div = Self::squash_helper(&mut div);
            let a = match mul.pop() {
                Some(x) => x,
                None => Dec::one(),
            };
            let b = match div.pop() {
                Some(x) => x,
                None => Dec::one(),
            };
            let value = match a.checked_div(b) {
                Some(v) => v,
                None => {
                    return Err(Error::MultiplyOverflow);
                },
            };
            if div.len() == 0 && mul.len() == 0 {
                return Ok(value);
            }
            if div.len() == 0 && !(s_mul || s_div) {
                return Err(Error::MultiplyOverflow);
            }
            mul.push(value);
        }
    }
}

/// An element-by-element copy of a list of scalars.
pub fn copy_vec(v: &Vec<Dec>) -> (r: Vec<Dec>)
    ensures
        r@ == v@,
{
    let mut r: Vec<Dec> = Vec::new();
    let mut i: usize = 0;
    while i < v.len()
        invariant
            i <= v@.len(),
            r@ == v@.subrange(0, i as int),
        decreases v@.len() - i,
    {
        r.push(v[i]);
        i = i + 1;
    }
    assert(r@ =~= v@);
    r
}

} // verus!
