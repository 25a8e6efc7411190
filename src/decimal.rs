use vstd::prelude::*;
use rust_decimal::Decimal;
use rust_decimal::prelude::ToPrimitive;

use crate::error::Error;

verus! {

/// Largest mantissa magnitude of a scalar: 2^96 - 1.
pub const MAX_MANTISSA: i128 = 79228162514264337593543950335;

/// Largest number of fractional digits of a scalar.
pub const MAX_SCALE: u32 = 28;

/// A fixed-precision decimal scalar, worth `mant / 10^scale`.
#[derive(Clone, Copy, Debug)]
pub struct Dec {
    pub mant: i128,
    pub scale: u32,
}

/// `10^n`.
pub open spec fn pow10(n: nat) -> int
    decreases n,
{
    if n == 0 {
        1
    } else {
        10 * pow10((n - 1) as nat)
    }
}

/// Powers of ten are positive.
pub proof fn lemma_pow10_pos(n: nat)
    ensures
        pow10(n) >= 1,
    decreases n,
{
    if n > 0 {
        lemma_pow10_pos((n - 1) as nat);
    }
}

/// Comparing a scalar with an integer compares its mantissa with `c * 10^scale`.
pub proof fn lemma_cmp_int(v: Dec, c: int)
    requires
        i128::MIN <= c <= i128::MAX,
    ensures
        v.cross(Dec::int_spec(c)) == v.mant,
        Dec::int_spec(c).cross(v) == c * pow10(v.scale as nat),
        pow10(v.scale as nat) >= 1,
        v.same(Dec::int_spec(c)) <==> v.mant == c * pow10(v.scale as nat),
        v.less(Dec::int_spec(c)) <==> v.mant < c * pow10(v.scale as nat),
        Dec::int_spec(c).less(v) <==> c * pow10(v.scale as nat) < v.mant,
{
    lemma_pow10_pos(v.scale as nat);
}

/// Equal values have the same sign.
pub proof fn lemma_same_sign(a: Dec, b: Dec)
    requires
        a.same(b),
    ensures
        a.mant > 0 <==> b.mant > 0,
        a.mant == 0 <==> b.mant == 0,
        a.mant < 0 <==> b.mant < 0,
{
    lemma_pow10_pos(a.scale as nat);
    lemma_pow10_pos(b.scale as nat);
    let pa = pow10(a.scale as nat);
    let pb = pow10(b.scale as nat);
    assert(a.mant * pb == b.mant * pa);
    assert(a.mant > 0 ==> a.mant * pb > 0) by (nonlinear_arith)
        requires
            pb >= 1,
    ;
    assert(a.mant < 0 ==> a.mant * pb < 0) by (nonlinear_arith)
        requires
            pb >= 1,
    ;
    assert(a.mant == 0 ==> a.mant * pb == 0);
    assert(b.mant > 0 ==> b.mant * pa > 0) by (nonlinear_arith)
        requires
            pa >= 1,
    ;
    assert(b.mant < 0 ==> b.mant * pa < 0) by (nonlinear_arith)
        requires
            pa >= 1,
    ;
    assert(b.mant == 0 ==> b.mant * pa == 0);
}

/// Equality of values is transitive.
pub proof fn lemma_same_trans(a: Dec, b: Dec, c: Dec)
    requires
        a.same(b),
        b.same(c),
    ensures
        a.same(c),
{
    lemma_pow10_pos(a.scale as nat);
    lemma_pow10_pos(b.scale as nat);
    lemma_pow10_pos(c.scale as nat);
    let pa = pow10(a.scale as nat);
    let pb = pow10(b.scale as nat);
    let pc = pow10(c.scale as nat);
    assert(a.mant * pc == c.mant * pa) by (nonlinear_arith)
        requires
            a.mant * pb == b.mant * pa,
            b.mant * pc == c.mant * pb,
            pb >= 1,
    ;
}

/// Zero against a positive scalar `c` and its negation.
pub proof fn lemma_zero_cmp(v: Dec, c: Dec)
    requires
        v.mant == 0,
        c.mant > 0,
    ensures
        v.less(c),
        !c.less(v),
        !v.same(c),
        c.neg_spec().less(v),
        !v.less(c.neg_spec()),
        !v.same(c.neg_spec()),
{
    lemma_pow10_pos(v.scale as nat);
    lemma_pow10_pos(c.scale as nat);
    let pv = pow10(v.scale as nat);
    assert(c.mant * pv > 0) by (nonlinear_arith)
        requires
            c.mant > 0,
            pv >= 1,
    ;
    assert(c.neg_spec().mant * pv < 0) by (nonlinear_arith)
        requires
            c.neg_spec().mant == -c.mant,
            c.mant > 0,
            pv >= 1,
    ;
}

/// `10^28`, the denominator of the engine's 28-digit constants.
pub proof fn lemma_pow10_28()
    ensures
        pow10(28) == 10000000000000000000000000000,
{
    reveal_with_fuel(pow10, 29);
}

/// Floor of `a / b` for a positive divisor.
pub open spec fn floor_div(a: int, b: int) -> int {
    a / b
}

/// Integer part of `a / b` rounded toward zero, for a positive divisor.
pub open spec fn trunc_div(a: int, b: int) -> int {
    if a >= 0 {
        a / b
    } else {
        -((-a) / b)
    }
}

/// Sum as computed by the scalar type (rounded to its precision; `None` on overflow).
pub uninterp spec fn add_of(a: Dec, b: Dec) -> Option<Dec>;

/// Difference as computed by the scalar type.
pub uninterp spec fn sub_of(a: Dec, b: Dec) -> Option<Dec>;

/// Product as computed by the scalar type.
pub uninterp spec fn mul_of(a: Dec, b: Dec) -> Option<Dec>;

/// Quotient as computed by the scalar type (`None` on overflow or a zero divisor).
pub uninterp spec fn div_of(a: Dec, b: Dec) -> Option<Dec>;

/// The scalar rounded to `dp` fractional digits, half to even.
pub uninterp spec fn round_dp_of(a: Dec, dp: u32) -> Dec;

/// The fractional part as the scalar type represents it.
pub uninterp spec fn fract_of(a: Dec) -> Dec;

/// Checked sum; an overflow is an `AddOverflow`.
pub open spec fn add_r(a: Dec, b: Dec) -> Result<Dec, Error> {
    match add_of(a, b) {
        Some(v) => Ok(v),
        None => Err(Error::AddOverflow),
    }
}

/// Checked difference; an overflow is an `AddOverflow`.
pub open spec fn sub_r(a: Dec, b: Dec) -> Result<Dec, Error> {
    match sub_of(a, b) {
        Some(v) => Ok(v),
        None => Err(Error::AddOverflow),
    }
}

/// Checked product; an overflow is a `MultiplyOverflow`.
pub open spec fn mul_r(a: Dec, b: Dec) -> Result<Dec, Error> {
    match mul_of(a, b) {
        Some(v) => Ok(v),
        None => Err(Error::MultiplyOverflow),
    }
}

/// Checked quotient; an overflow or a zero divisor is a `MultiplyOverflow`.
pub open spec fn div_r(a: Dec, b: Dec) -> Result<Dec, Error> {
    match div_of(a, b) {
        Some(v) => Ok(v),
        None => Err(Error::MultiplyOverflow),
    }
}

impl Dec {
    /// Mantissa and scale lie in the scalar type's range.
    pub open spec fn wf(self) -> bool {
        -MAX_MANTISSA <= self.mant <= MAX_MANTISSA && self.scale <= MAX_SCALE
    }

    /// The left side of a comparison with `o`, both brought to the denominator
    /// `10^(self.scale + o.scale)`.
    pub open spec fn cross(self, o: Dec) -> int {
        self.mant * pow10(o.scale as nat)
    }

    /// Same numeric value.
    pub open spec fn same(self, o: Dec) -> bool {
        self.cross(o) == o.cross(self)
    }

    /// What `==` means: equal values, or equal parts for scalars out of range.
    pub open spec fn eq_value(self, o: Dec) -> bool {
        if self.wf() && o.wf() {
            self.same(o)
        } else {
            self.mant == o.mant && self.scale == o.scale
        }
    }

    /// Strictly smaller numeric value.
    pub open spec fn less(self, o: Dec) -> bool {
        self.cross(o) < o.cross(self)
    }

    /// Integer scalar worth `n`.
    pub open spec fn int_spec(n: int) -> Dec {
        Dec { mant: n as i128, scale: 0 }
    }

    /// Whether mantissa and scale lie in range.
    pub fn is_wf(&self) -> (r: bool)
        ensures
            r == self.wf(),
    {
        -MAX_MANTISSA <= self.mant && self.mant <= MAX_MANTISSA && self.scale <= MAX_SCALE
    }

    /// Builds a scalar from its parts.
    pub fn new(mant: i128, scale: u32) -> (r: Dec)
        requires
            -MAX_MANTISSA <= mant <= MAX_MANTISSA,
            scale <= MAX_SCALE,
        ensures
            r.mant == mant,
            r.scale == scale,
            r.wf(),
    {
        Dec { mant, scale }
    }

    /// Zero.
    pub fn zero() -> (r: Dec)
        ensures
            r == Dec::int_spec(0),
            r.wf(),
    {
        Dec { mant: 0, scale: 0 }
    }

    /// One.
    pub fn one() -> (r: Dec)
        ensures
            r == Dec::int_spec(1),
            r.wf(),
    {
        Dec { mant: 1, scale: 0 }
    }

    /// Integer scalar from a small signed integer.
    pub fn from_int(n: i64) -> (r: Dec)
        ensures
            r == Dec::int_spec(n as int),
            r.wf(),
    {
        Dec { mant: n as i128, scale: 0 }
    }

    /// Sign of the value: negative mantissa.
    pub fn is_sign_negative(&self) -> (r: bool)
        ensures
            r == (self.mant < 0),
    {
        self.mant < 0
    }

    /// Negation.
    pub fn neg(&self) -> (r: Dec)
        requires
            self.wf(),
        ensures
            r == self.neg_spec(),
            r.wf(),
    {
        Dec { mant: -self.mant, scale: self.scale }
    }

    /// Absolute value.
    pub fn abs(&self) -> (r: Dec)
        requires
            self.wf(),
        ensures
            r == self.abs_spec(),
            r.wf(),
    {
        if self.mant < 0 {
            Dec { mant: -self.mant, scale: self.scale }
        } else {
            *self
        }
    }

    /// Three-way numeric comparison: -1, 0 or 1.
    pub fn compare(&self, o: &Dec) -> (r: i8)
        requires
            self.wf(),
            o.wf(),
        ensures
            r == -1 <==> self.less(*o),
            r == 0 <==> self.same(*o),
            r == 1 <==> o.less(*self),
    {
        cmp_raw(*self, *o)
    }

    /// `self < o`, by value.
    pub fn lt(&self, o: &Dec) -> (r: bool)
        requires
            self.wf(),
            o.wf(),
        ensures
            r == self.less(*o),
    {
        cmp_raw(*self, *o) == -1
    }

    /// `self <= o`, by value.
    pub fn le(&self, o: &Dec) -> (r: bool)
        requires
            self.wf(),
            o.wf(),
        ensures
            r == (self.less(*o) || self.same(*o)),
    {
        cmp_raw(*self, *o) != 1
    }

    /// `self == o`, by value.
    pub fn eq_val(&self, o: &Dec) -> (r: bool)
        requires
            self.wf(),
            o.wf(),
        ensures
            r == self.same(*o),
    {
        cmp_raw(*self, *o) == 0
    }

    /// Checked sum.
    pub fn checked_add(&self, o: Dec) -> (r: Option<Dec>)
        requires
            self.wf(),
            o.wf(),
        ensures
            r == add_of(*self, o),
            r matches Some(v) ==> v.wf(),
    {
        add_raw(*self, o)
    }

    /// Checked difference.
    pub fn checked_sub(&self, o: Dec) -> (r: Option<Dec>)
        requires
            self.wf(),
            o.wf(),
        ensures
            r == sub_of(*self, o),
            r matches Some(v) ==> v.wf(),
    {
        sub_raw(*self, o)
    }

    /// Checked product.
    pub fn checked_mul(&self, o: Dec) -> (r: Option<Dec>)
        requires
            self.wf(),
            o.wf(),
        ensures
            r == mul_of(*self, o),
            r matches Some(v) ==> v.wf(),
    {
        mul_raw(*self, o)
    }

    /// Checked quotient.
    pub fn checked_div(&self, o: Dec) -> (r: Option<Dec>)
        requires
            self.wf(),
            o.wf(),
        ensures
            r == div_of(*self, o),
            r matches Some(v) ==> v.wf(),
    {
        div_raw(*self, o)
    }

    /// The fractional part `self - trunc(self)`, worth exactly that.
    pub open spec fn fract_spec(self) -> Dec {
        let p = pow10(self.scale as nat);
        Dec { mant: (self.mant - trunc_div(self.mant as int, p) * p) as i128, scale: self.scale }
    }

    /// Negation.
    pub open spec fn neg_spec(self) -> Dec {
        Dec { mant: (-self.mant) as i128, scale: self.scale }
    }

    /// Absolute value.
    pub open spec fn abs_spec(self) -> Dec {
        Dec { mant: (if self.mant < 0 { -self.mant } else { self.mant as int }) as i128, scale: self.scale }
    }

    /// Largest integer not above the value, at scale 0.
    pub open spec fn floor_spec(self) -> Dec {
        Dec { mant: floor_div(self.mant as int, pow10(self.scale as nat)) as i128, scale: 0 }
    }

    /// Integer part of the value as a `usize`: none for a negative value or one too large.
    pub open spec fn to_usize_spec(self) -> Option<usize> {
        let t = trunc_div(self.mant as int, pow10(self.scale as nat));
        if self.mant < 0 || t > usize::MAX {
            None
        } else {
            Some(t as usize)
        }
    }

    /// Sum; an overflow is an `AddOverflow`.
    pub fn try_add(&self, o: Dec) -> (r: Result<Dec, Error>)
        requires
            self.wf(),
            o.wf(),
        ensures
            r == add_r(*self, o),
            r matches Ok(v) ==> v.wf(),
    {
        match add_raw(*self, o) {
            Some(v) => Ok(v),
            None => Err(Error::AddOverflow),
        }
    }

    /// Difference; an overflow is an `AddOverflow`.
    pub fn try_sub(&self, o: Dec) -> (r: Result<Dec, Error>)
        requires
            self.wf(),
            o.wf(),
        ensures
            r == sub_r(*self, o),
            r matches Ok(v) ==> v.wf(),
    {
        match sub_raw(*self, o) {
            Some(v) => Ok(v),
            None => Err(Error::AddOverflow),
        }
    }

    /// Product; an overflow is a `MultiplyOverflow`.
    pub fn try_mul(&self, o: Dec) -> (r: Result<Dec, Error>)
        requires
            self.wf(),
            o.wf(),
        ensures
            r == mul_r(*self, o),
            r matches Ok(v) ==> v.wf(),
    {
        match mul_raw(*self, o) {
            Some(v) => Ok(v),
            None => Err(Error::MultiplyOverflow),
        }
    }

    /// Quotient; an overflow or a zero divisor is a `MultiplyOverflow`.
    pub fn try_div(&self, o: Dec) -> (r: Result<Dec, Error>)
        requires
            self.wf(),
            o.wf(),
        ensures
            r == div_r(*self, o),
            r matches Ok(v) ==> v.wf(),
    {
        match div_raw(*self, o) {
            Some(v) => Ok(v),
            None => Err(Error::MultiplyOverflow),
        }
    }

    /// Largest integer not above the value.
    pub fn floor(&self) -> (r: Dec)
        requires
            self.wf(),
        ensures
            r == self.floor_spec(),
            r.wf(),
    {
        floor_raw(*self)
    }

    /// Fractional part, `self - trunc(self)`.
    pub fn fract(&self) -> (r: Dec)
        requires
            self.wf(),
        ensures
            r == fract_of(*self),
            r.same(self.fract_spec()),
            r.wf(),
    {
        fract_raw(*self)
    }

    /// Integer part of a non-negative value as a `usize`, when it fits.
    pub fn to_usize(&self) -> (r: Option<usize>)
        requires
            self.wf(),
        ensures
            self.mant < 0 ==> r is None,
            self.mant >= 0 &&             trunc_div(self.mant as int, pow10(self.scale as nat)) <= usize::MAX ==> r == Some(
                trunc_div(self.mant as int, pow10(self.scale as nat)) as usize,
            ),
            self.mant >= 0 && trunc_div(self.mant as int, pow10(self.scale as nat)) > usize::MAX ==> r is None,
    {
        to_usize_raw(*self)
    }

    /// Rounded to an integer, half to even.
    pub fn round(&self) -> (r: Dec)
        requires
            self.wf(),
        ensures
            r == round_dp_of(*self, 0),
            r.wf(),
    {
        round_dp_raw(*self, 0)
    }

    /// Rounded to `dp` fractional digits, half to even.
    pub fn round_dp(&self, dp: u32) -> (r: Dec)
        requires
            self.wf(),
        ensures
            r == round_dp_of(*self, dp),
            r.wf(),
    {
        round_dp_raw(*self, dp)
    }
}

impl PartialEq for Dec {
    /// Equal values; scalars out of range compare by their parts.
    fn eq(&self, o: &Dec) -> (r: bool) {
        if self.is_wf() && o.is_wf() {
            cmp_raw(*self, *o) == 0
        } else {
            self.mant == o.mant && self.scale == o.scale
        }
    }
}

impl vstd::std_specs::cmp::PartialEqSpecImpl for Dec {
    open spec fn obeys_eq_spec() -> bool {
        true
    }

    open spec fn eq_spec(&self, o: &Dec) -> bool {
        self.eq_value(*o)
    }
}

/// Relies on `Decimal::cmp`: decimals are ordered by numeric value.
#[verifier::external_body]
fn cmp_raw(a: Dec, b: Dec) -> (r: i8)
    requires
        a.wf(),
        b.wf(),
    ensures
        r == -1 <==> a.less(b),
        r == 0 <==> a.same(b),
        r == 1 <==> b.less(a),
{
    match Decimal::from_i128_with_scale(a.mant, a.scale).cmp(&Decimal::from_i128_with_scale(b.mant, b.scale)) {
        std::cmp::Ordering::Less => -1,
        std::cmp::Ordering::Equal => 0,
        std::cmp::Ordering::Greater => 1,
    }
}

/// Relies on `Decimal::checked_add`: the rounded sum, `None` on overflow.
#[verifier::external_body]
fn add_raw(a: Dec, b: Dec) -> (r: Option<Dec>)
    requires
        a.wf(),
        b.wf(),
    ensures
        r == add_of(a, b),
        r matches Some(v) ==> v.wf(),
{
    match Decimal::from_i128_with_scale(a.mant, a.scale).checked_add(Decimal::from_i128_with_scale(b.mant, b.scale)) {
        Some(v) => Some(Dec { mant: v.mantissa(), scale: v.scale() }),
        None => None,
    }
}

/// Relies on `Decimal::checked_sub`: the rounded difference, `None` on overflow.
#[verifier::external_body]
fn sub_raw(a: Dec, b: Dec) -> (r: Option<Dec>)
    requires
        a.wf(),
        b.wf(),
    ensures
        r == sub_of(a, b),
        r matches Some(v) ==> v.wf(),
{
    match Decimal::from_i128_with_scale(a.mant, a.scale).checked_sub(Decimal::from_i128_with_scale(b.mant, b.scale)) {
        Some(v) => Some(Dec { mant: v.mantissa(), scale: v.scale() }),
        None => None,
    }
}

/// Relies on `Decimal::checked_mul`: the rounded product, `None` on overflow.
#[verifier::external_body]
fn mul_raw(a: Dec, b: Dec) -> (r: Option<Dec>)
    requires
        a.wf(),
        b.wf(),
    ensures
        r == mul_of(a, b),
        r matches Some(v) ==> v.wf(),
{
    match Decimal::from_i128_with_scale(a.mant, a.scale).checked_mul(Decimal::from_i128_with_scale(b.mant, b.scale)) {
        Some(v) => Some(Dec { mant: v.mantissa(), scale: v.scale() }),
        None => None,
    }
}

/// Relies on `Decimal::checked_div`: the rounded quotient, `None` on overflow or a zero divisor.
#[verifier::external_body]
fn div_raw(a: Dec, b: Dec) -> (r: Option<Dec>)
    requires
        a.wf(),
        b.wf(),
    ensures
        r == div_of(a, b),
        r matches Some(v) ==> v.wf(),
{
    match Decimal::from_i128_with_scale(a.mant, a.scale).checked_div(Decimal::from_i128_with_scale(b.mant, b.scale)) {
        Some(v) => Some(Dec { mant: v.mantissa(), scale: v.scale() }),
        None => None,
    }
}

/// Relies on `Decimal::round_dp`: banker's rounding to `dp` fractional digits; every
/// decimal's mantissa and scale lie in range.
#[verifier::external_body]
fn round_dp_raw(a: Dec, dp: u32) -> (r: Dec)
    requires
        a.wf(),
    ensures
        r == round_dp_of(a, dp),
        r.wf(),
{
    let v = Decimal::from_i128_with_scale(a.mant, a.scale).round_dp(dp);
    Dec { mant: v.mantissa(), scale: v.scale() }
}

/// Relies on `Decimal::floor`: the largest integer not above the value, at scale 0.
#[verifier::external_body]
fn floor_raw(a: Dec) -> (r: Dec)
    requires
        a.wf(),
    ensures
        r == a.floor_spec(),
        r.wf(),
{
    let v = Decimal::from_i128_with_scale(a.mant, a.scale).floor();
    Dec { mant: v.mantissa(), scale: v.scale() }
}

/// Relies on `Decimal::fract`: the value less its integer part, computed exactly.
#[verifier::external_body]
fn fract_raw(a: Dec) -> (r: Dec)
    requires
        a.wf(),
    ensures
        r == fract_of(a),
        r.same(a.fract_spec()),
        r.wf(),
{
    let v = Decimal::from_i128_with_scale(a.mant, a.scale).fract();
    Dec { mant: v.mantissa(), scale: v.scale() }
}

/// Relies on `Decimal::to_usize`: `None` for a negative value, else the integer part when
/// it fits in 64 bits.
#[verifier::external_body]
fn to_usize_raw(a: Dec) -> (r: Option<usize>)
    requires
        a.wf(),
    ensures
        a.mant < 0 ==> r is None,
        a.mant >= 0 && trunc_div(a.mant as int, pow10(a.scale as nat)) <= usize::MAX ==> r == Some(
            trunc_div(a.mant as int, pow10(a.scale as nat)) as usize,
        ),
        a.mant >= 0 && trunc_div(a.mant as int, pow10(a.scale as nat)) > usize::MAX ==> r is None,
{
    Decimal::from_i128_with_scale(a.mant, a.scale).to_usize()
}

} // verus!
