use vstd::prelude::*;

verus! {

/// Failures reported by the numeric engine.
#[derive(PartialEq, Eq, Structural, Clone, Copy, Debug)]
pub enum Error {
    /// An addition or subtraction left the representable range.
    AddOverflow,
    /// A multiplication or division left the representable range.
    MultiplyOverflow,
    /// The input lies outside the function's domain.
    InputOutOfRange,
    /// A repeated product was asked for with no factor.
    IteratorError,
    /// A (cos, sin) pair does not lie on the unit circle.
    InvalidSineCosinePair,
}

} // verus!
