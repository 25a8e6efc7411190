use vstd::prelude::*;

use crate::constants::{Constant, konst, constant};
use crate::decimal::{Dec, add_r, sub_r, mul_r, div_r};
use crate::error::Error;

verus! {

/// Most rescaling steps one pass takes. Every input the scalar type can hold reaches
/// the target interval in far fewer steps; the bound makes each pass finite by
/// construction.
pub const MAX_RESCALE_STEPS: usize = 1024;

/// An arithmetic operation applied with a fixed right operand.
#[derive(Clone, Copy, Debug, PartialEq, Eq, Structural)]
pub enum Op {
    Add,
    Sub,
    Mul,
    Div,
}

/// `a op b`, checked.
pub open spec fn op_spec(op: Op, a: Dec, b: Dec) -> Result<Dec, Error> {
    match op {
        Op::Add => add_r(a, b),
        Op::Sub => sub_r(a, b),
        Op::Mul => mul_r(a, b),
        Op::Div => div_r(a, b),
    }
}

/// `a op b`, checked.
pub fn apply(op: Op, a: Dec, b: Dec) -> (r: Result<Dec, Error>)
    requires
        a.wf(),
        b.wf(),
    ensures
        r == op_spec(op, a, b),
        r matches Ok(v) ==> v.wf(),
{
    match op {
        Op::Add => a.try_add(b),
        Op::Sub => a.try_sub(b),
        Op::Mul => a.try_mul(b),
        Op::Div => a.try_div(b),
    }
}

/// One argument-reduction pass: while the remainder lies above `upper` it is rescaled by
/// `up_rem` and the reconstruction factor `base` by `up_base`; while it lies below `lower`,
/// by `low_rem` and `low_base`.
#[derive(Clone, Copy, Debug)]
pub struct Pass {
    pub upper: Dec,
    pub up_rem: (Op, Dec),
    pub up_base: (Op, Dec),
    pub lower: Dec,
    pub low_rem: (Op, Dec),
    pub low_base: (Op, Dec),
}

impl Pass {
    pub open spec fn wf(self) -> bool {
        &&& self.upper.wf()
        &&& self.up_rem.1.wf()
        &&& self.up_base.1.wf()
        &&& self.lower.wf()
        &&& self.low_rem.1.wf()
        &&& self.low_base.1.wf()
    }
}

/// The pass on `(rem, base)` with at most `fuel` steps left.
pub open spec fn pass_spec(p: Pass, rem: Dec, base: Dec, fuel: nat) -> Result<(Dec, Dec), Error>
    decreases fuel,
{
    if fuel == 0 {
        Ok((rem, base))
    } else if p.upper.less(rem) {
        match op_spec(p.up_rem.0, rem, p.up_rem.1) {
            Err(e) => Err(e),
            Ok(r2) => match op_spec(p.up_base.0, base, p.up_base.1) {
                Err(e) => Err(e),
                Ok(b2) => pass_spec(p, r2, b2, (fuel - 1) as nat),
            },
        }
    } else if rem.less(p.lower) {
        match op_spec(p.low_rem.0, rem, p.low_rem.1) {
            Err(e) => Err(e),
            Ok(r2) => match op_spec(p.low_base.0, base, p.low_base.1) {
                Err(e) => Err(e),
                Ok(b2) => pass_spec(p, r2, b2, (fuel - 1) as nat),
            },
        }
    } else {
        Ok((rem, base))
    }
}

/// Runs one pass, see `pass_spec`.
pub fn rescale(p: Pass, rem0: Dec, base0: Dec) -> (r: Result<(Dec, Dec), Error>)
    requires
        p.wf(),
        rem0.wf(),
        base0.wf(),
    ensures
        r == pass_spec(p, rem0, base0, MAX_RESCALE_STEPS as nat),
        r matches Ok(v) ==> v.0.wf() && v.1.wf(),
{
    let mut rem = rem0;
    let mut base = base0;
    let mut fuel: usize = MAX_RESCALE_STEPS;
    while fuel > 0
        invariant
            p.wf(),
            rem.wf(),
            base.wf(),
            pass_spec(p, rem, base, fuel as nat) == pass_spec(p, rem0, base0, MAX_RESCALE_STEPS as nat),
        decreases fuel,
    {
        if p.upper.lt(&rem) {
            rem = apply(p.up_rem.0, rem, p.up_rem.1)?;
            base = apply(p.up_base.0, base, p.up_base.1)?;
        } else if rem.lt(&p.lower) {
            rem = apply(p.low_rem.0, rem, p.low_rem.1)?;
            base = apply(p.low_base.0, base, p.low_base.1)?;
        } else {
            return Ok((rem, base));
        }
        fuel = fuel - 1;
    }
    Ok((rem, base))
}

/// The reduction passes of the square root and the logarithm, coarse to fine.
#[derive(Clone, Copy, Debug, PartialEq, Eq, Structural)]
pub enum PassKind {
    /// Square root: into [1/4, 4] by factors of 4.
    SqrtCoarse,
    /// Square root: into [0.81, 1.21].
    SqrtMid,
    /// Square root: into [0.950625, 1.050625].
    SqrtFine,
    /// Logarithm: into [1, e^2] by factors of e.
    LnCoarse,
    /// Logarithm: into [0.8e, 1.2e] by factors of e^0.2.
    LnMid,
    /// Logarithm: into [0.95e, 1.05e] by factors of e^0.05.
    LnFine,
}

/// The parameters of each pass.
pub open spec fn pass_table(k: PassKind) -> Pass {
    match k {
        PassKind::SqrtCoarse => Pass {
            upper: Dec::int_spec(4),
            up_rem: (Op::Div, Dec::int_spec(4)),
            up_base: (Op::Mul, Dec::int_spec(2)),
            lower: konst(Constant::OneQuarter),
            low_rem: (Op::Mul, Dec::int_spec(4)),
            low_base: (Op::Div, Dec::int_spec(2)),
        },
        PassKind::SqrtMid => Pass {
            upper: konst(Constant::SqrtUpperBd),
            up_rem: (Op::Div, konst(Constant::SqrtUpperBd)),
            up_base: (Op::Mul, konst(Constant::SqrtUpperVal)),
            lower: konst(Constant::SqrtLowerBd),
            low_rem: (Op::Div, konst(Constant::SqrtLowerBd)),
            low_base: (Op::Mul, konst(Constant::SqrtLowerVal)),
        },
        PassKind::SqrtFine => Pass {
            upper: konst(Constant::SqrtUpperBdP),
            up_rem: (Op::Div, konst(Constant::SqrtUpperBdP)),
            up_base: (Op::Mul, konst(Constant::SqrtUpperValP)),
            lower: konst(Constant::SqrtLowerBdP),
            low_rem: (Op::Div, konst(Constant::SqrtLowerBdP)),
            low_base: (Op::Mul, konst(Constant::SqrtLowerValP)),
        },
        PassKind::LnCoarse => Pass {
            upper: konst(Constant::ESqr),
            up_rem: (Op::Div, konst(Constant::E)),
            up_base: (Op::Add, Dec::int_spec(1)),
            lower: Dec::int_spec(1),
            low_rem: (Op::Mul, konst(Constant::E)),
            low_base: (Op::Sub, Dec::int_spec(1)),
        },
        PassKind::LnMid => Pass {
            upper: konst(Constant::LnUpperBd),
            up_rem: (Op::Div, konst(Constant::LnUpperMul)),
            up_base: (Op::Add, konst(Constant::LnUpperVal)),
            lower: konst(Constant::LnLowerBd),
            low_rem: (Op::Div, konst(Constant::LnLowerMul)),
            low_base: (Op::Add, konst(Constant::LnLowerVal)),
        },
        PassKind::LnFine => Pass {
            upper: konst(Constant::LnUpperBdP),
            up_rem: (Op::Div, konst(Constant::LnUpperMulP)),
            up_base: (Op::Add, konst(Constant::LnUpperValP)),
            lower: konst(Constant::LnLowerBdP),
            low_rem: (Op::Div, konst(Constant::LnLowerMulP)),
            low_base: (Op::Add, konst(Constant::LnLowerValP)),
        },
    }
}

/// The parameters of a pass.
pub fn pass(k: PassKind) -> (r: Pass)
    ensures
        r == pass_table(k),
        r.wf(),
{
    match k {
        PassKind::SqrtCoarse => Pass {
            upper: Dec::from_int(4),
            up_rem: (Op::Div, Dec::from_int(4)),
            up_base: (Op::Mul, Dec::from_int(2)),
            lower: constant(Constant::OneQuarter),
            low_rem: (Op::Mul, Dec::from_int(4)),
            low_base: (Op::Div, Dec::from_int(2)),
        },
        PassKind::SqrtMid => Pass {
            upper: constant(Constant::SqrtUpperBd),
            up_rem: (Op::Div, constant(Constant::SqrtUpperBd)),
            up_base: (Op::Mul, constant(Constant::SqrtUpperVal)),
            lower: constant(Constant::SqrtLowerBd),
            low_rem: (Op::Div, constant(Constant::SqrtLowerBd)),
            low_base: (Op::Mul, constant(Constant::SqrtLowerVal)),
        },
        PassKind::SqrtFine => Pass {
            upper: constant(Constant::SqrtUpperBdP),
            up_rem: (Op::Div, constant(Constant::SqrtUpperBdP)),
            up_base: (Op::Mul, constant(Constant::SqrtUpperValP)),
            lower: constant(Constant::SqrtLowerBdP),
            low_rem: (Op::Div, constant(Constant::SqrtLowerBdP)),
            low_base: (Op::Mul, constant(Constant::SqrtLowerValP)),
        },
        PassKind::LnCoarse => Pass {
            upper: constant(Constant::ESqr),
            up_rem: (Op::Div, constant(Constant::E)),
            up_base: (Op::Add, Dec::one()),
            lower: Dec::one(),
            low_rem: (Op::Mul, constant(Constant::E)),
            low_base: (Op::Sub, Dec::one()),
        },
        PassKind::LnMid => Pass {
            upper: constant(Constant::LnUpperBd),
            up_rem: (Op::Div, constant(Constant::LnUpperMul)),
            up_base: (Op::Add, constant(Constant::LnUpperVal)),
            lower: constant(Constant::LnLowerBd),
            low_rem: (Op::Div, constant(Constant::LnLowerMul)),
            low_base: (Op::Add, constant(Constant::LnLowerVal)),
        },
        PassKind::LnFine => Pass {
            upper: constant(Constant::LnUpperBdP),
            up_rem: (Op::Div, constant(Constant::LnUpperMulP)),
            up_base: (Op::Add, constant(Constant::LnUpperValP)),
            lower: constant(Constant::LnLowerBdP),
            low_rem: (Op::Div, constant(Constant::LnLowerMulP)),
            low_base: (Op::Add, constant(Constant::LnLowerValP)),
        },
    }
}

/// The three passes `first`, `second`, `third` one after another.
pub open spec fn passes_spec(first: Pass, second: Pass, third: Pass, rem: Dec, base: Dec) -> Result<(Dec, Dec), Error> {
    match pass_spec(first, rem, base, MAX_RESCALE_STEPS as nat) {
        Err(e) => Err(e),
        Ok(s1) => match pass_spec(second, s1.0, s1.1, MAX_RESCALE_STEPS as nat) {
            Err(e) => Err(e),
            Ok(s2) => pass_spec(third, s2.0, s2.1, MAX_RESCALE_STEPS as nat),
        },
    }
}

/// Runs three passes one after another, see `passes_spec`.
pub fn rescale3(first: Pass, second: Pass, third: Pass, rem: Dec, base: Dec) -> (r: Result<(Dec, Dec), Error>)
    requires
        first.wf(),
        second.wf(),
        third.wf(),
        rem.wf(),
        base.wf(),
    ensures
        r == passes_spec(first, second, third, rem, base),
        r matches Ok(v) ==> v.0.wf() && v.1.wf(),
{
    let (r1, b1) = rescale(first, rem, base)?;
    let (r2, b2) = rescale(second, r1, b1)?;
    rescale(third, r2, b2)
}

} // verus!
