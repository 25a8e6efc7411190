use vstd::prelude::*;

use crate::constants::{Constant, konst, constant};
use crate::decimal::{Dec, add_r, sub_r, mul_r, div_r, round_dp_of};
use crate::error::Error;
use crate::sqrt::{d_sqrt, sqrt_spec};
use crate::trigonometry::{atan2, atan2_spec, cos, cos_spec, sin, sin_spec, trig_prepare_spec};

verus! {

/// A complex number in Cartesian form `re + i·im`, with a cached modulus and argument.
/// Each cache slot holds the term count it was computed with and the value; a request
/// for at most that many terms reuses it, one for more recomputes and overwrites it.
#[derive(Clone, Copy, Debug)]
pub struct Complex {
    pub re: Dec,
    pub im: Dec,
    pub radius_cache: Option<(usize, Dec)>,
    pub arg_cache: Option<(usize, Dec)>,
}

/// A complex number in polar form `radius·(cos(arg) + i·sin(arg))`, with cached Cartesian
/// parts under the same rule as `Complex`'s caches.
#[derive(Clone, Copy, Debug)]
pub struct Polar {
    pub radius: Dec,
    pub arg: Dec,
    pub re_cache: Option<(usize, Dec)>,
    pub im_cache: Option<(usize, Dec)>,
}

impl PartialEq for Complex {
    /// Equal parts by value; the caches are not compared.
    fn eq(&self, o: &Complex) -> (r: bool) {
        self.re == o.re && self.im == o.im
    }
}

impl vstd::std_specs::cmp::PartialEqSpecImpl for Complex {
    open spec fn obeys_eq_spec() -> bool {
        true
    }

    open spec fn eq_spec(&self, o: &Complex) -> bool {
        self.re.eq_value(o.re) && self.im.eq_value(o.im)
    }
}

/// A cache slot holds a well-formed scalar.
pub open spec fn slot_wf(c: Option<(usize, Dec)>) -> bool {
    c matches Some(p) ==> p.1.wf()
}

/// The slot's value when it was computed with at least `terms` terms.
pub open spec fn slot_hit(c: Option<(usize, Dec)>, terms: nat) -> Option<Dec> {
    match c {
        Some(p) => if terms <= p.0 {
            Some(p.1)
        } else {
            None
        },
        None => None,
    }
}

fn slot_get(c: Option<(usize, Dec)>, terms: usize) -> (r: Option<Dec>)
    ensures
        r == slot_hit(c, terms as nat),
{
    match c {
        Some((p, v)) => if terms <= p {
            Some(v)
        } else {
            None
        },
        None => None,
    }
}

/// `re + i·im` with empty caches.
pub open spec fn cplx(re: Dec, im: Dec) -> Complex {
    Complex { re, im, radius_cache: None, arg_cache: None }
}

/// `radius·e^(i·arg)` with empty caches.
pub open spec fn polar(radius: Dec, arg: Dec) -> Polar {
    Polar { radius, arg, re_cache: None, im_cache: None }
}

/// Sum, part by part.
pub open spec fn c_add_spec(a: Complex, b: Complex) -> Result<Complex, Error> {
    match add_r(a.re, b.re) {
        Err(e) => Err(e),
        Ok(re) => match add_r(a.im, b.im) {
            Err(e) => Err(e),
            Ok(im) => Ok(cplx(re, im)),
        },
    }
}

/// Difference, part by part.
pub open spec fn c_sub_spec(a: Complex, b: Complex) -> Result<Complex, Error> {
    match sub_r(a.re, b.re) {
        Err(e) => Err(e),
        Ok(re) => match sub_r(a.im, b.im) {
            Err(e) => Err(e),
            Ok(im) => Ok(cplx(re, im)),
        },
    }
}

/// `(a + ib)(c + id) = (ac − bd) + i(ad + bc)`.
pub open spec fn c_mul_spec(x: Complex, y: Complex) -> Result<Complex, Error> {
    match (mul_r(x.re, y.re), mul_r(x.im, y.im)) {
        (Ok(ac), Ok(bd)) => match sub_r(ac, bd) {
            Err(e) => Err(e),
            Ok(re) => match (mul_r(x.re, y.im), mul_r(x.im, y.re)) {
                (Ok(ad), Ok(bc)) => match add_r(ad, bc) {
                    Err(e) => Err(e),
                    Ok(im) => Ok(cplx(re, im)),
                },
                (Err(e), _) => Err(e),
                (Ok(_), Err(e)) => Err(e),
            },
        },
        (Err(e), _) => Err(e),
        (Ok(_), Err(e)) => Err(e),
    }
}

/// `re² + im²`.
pub open spec fn radius_sqr_spec(x: Complex) -> Result<Dec, Error> {
    match (mul_r(x.re, x.re), mul_r(x.im, x.im)) {
        (Ok(a), Ok(b)) => add_r(a, b),
        (Err(e), _) => Err(e),
        (Ok(_), Err(e)) => Err(e),
    }
}

/// `(a + ib)/(c + id) = ((ac + bd) + i(bc − ad)) / (c² + d²)`.
pub open spec fn c_div_spec(x: Complex, y: Complex) -> Result<Complex, Error> {
    match radius_sqr_spec(y) {
        Err(e) => Err(e),
        Ok(rs) => match (mul_r(x.re, y.re), mul_r(x.im, y.im)) {
            (Ok(ac), Ok(bd)) => match add_r(ac, bd) {
                Err(e) => Err(e),
                Ok(n1) => match div_r(n1, rs) {
                    Err(e) => Err(e),
                    Ok(re) => match (mul_r(x.im, y.re), mul_r(x.re, y.im)) {
                        (Ok(bc), Ok(ad)) => match sub_r(bc, ad) {
                            Err(e) => Err(e),
                            Ok(n2) => match div_r(n2, rs) {
                                Err(e) => Err(e),
                                Ok(im) => Ok(cplx(re, im)),
                            },
                        },
                        (Err(e), _) => Err(e),
                        (Ok(_), Err(e)) => Err(e),
                    },
                },
            },
            (Err(e), _) => Err(e),
            (Ok(_), Err(e)) => Err(e),
        },
    }
}

/// The modulus from scratch: exact on the axes, a square root otherwise.
pub open spec fn calc_radius_spec(x: Complex, terms: nat) -> Result<Dec, Error> {
    let z = Dec::int_spec(0);
    if x.re.same(z) && x.im.same(z) {
        Ok(z)
    } else if x.im.same(z) {
        Ok(x.re.abs_spec())
    } else if x.re.same(z) {
        Ok(x.im.abs_spec())
    } else {
        match radius_sqr_spec(x) {
            Err(e) => Err(e),
            Ok(s) => sqrt_spec(s, terms),
        }
    }
}

/// What `radius(terms)` returns: the cached modulus when it was computed with enough
/// terms, else a fresh one.
pub open spec fn radius_outcome(x: Complex, terms: nat) -> Result<Dec, Error> {
    match slot_hit(x.radius_cache, terms) {
        Some(v) => Ok(v),
        None => calc_radius_spec(x, terms),
    }
}

/// The argument from the modulus `rad`: zero for zero, else `atan2(re/rad, im/rad)`.
pub open spec fn arg_from_radius(x: Complex, rad: Dec, terms: nat) -> Result<Dec, Error> {
    let z = Dec::int_spec(0);
    if x.re.same(z) && x.im.same(z) {
        Ok(rad)
    } else {
        match div_r(x.re, rad) {
            Err(e) => Err(e),
            Ok(c) => match div_r(x.im, rad) {
                Err(e) => Err(e),
                Ok(s) => atan2_spec(c, s, terms),
            },
        }
    }
}

/// What `arg(terms)` returns: the cached argument when it was computed with enough terms,
/// else one from the modulus `radius(terms)` gives.
pub open spec fn arg_outcome(x: Complex, terms: nat) -> Result<Dec, Error> {
    match slot_hit(x.arg_cache, terms) {
        Some(v) => Ok(v),
        None => match radius_outcome(x, terms) {
            Err(e) => Err(e),
            Ok(rad) => arg_from_radius(x, rad, terms),
        },
    }
}

/// The number after `radius(terms)`: only its radius cache may change.
pub open spec fn after_radius(x: Complex, terms: nat) -> Complex {
    Complex { re: x.re, im: x.im, radius_cache: radius_cache_after(x, terms), arg_cache: x.arg_cache }
}

/// The radius cache after `radius(terms)`.
pub open spec fn radius_cache_after(x: Complex, terms: nat) -> Option<(usize, Dec)> {
    match slot_hit(x.radius_cache, terms) {
        Some(_) => x.radius_cache,
        None => match calc_radius_spec(x, terms) {
            Ok(v) => Some((terms as usize, v)),
            Err(_) => x.radius_cache,
        },
    }
}

impl Complex {
    /// Parts well formed, caches holding well-formed scalars.
    pub open spec fn wf(&self) -> bool {
        self.re.wf() && self.im.wf() && slot_wf(self.radius_cache) && slot_wf(self.arg_cache)
    }

    /// `re + i·im` with empty caches.
    pub fn new(re: Dec, im: Dec) -> (r: Complex)
        ensures
            r == cplx(re, im),
    {
        Complex { re, im, radius_cache: None, arg_cache: None }
    }

    /// The real part.
    pub fn re(&self) -> (r: Dec)
        ensures
            r == self.re,
    {
        self.re
    }

    /// The imaginary part.
    pub fn im(&self) -> (r: Dec)
        ensures
            r == self.im,
    {
        self.im
    }

    /// The same number with empty caches.
    pub fn reset(&self) -> (r: Complex)
        ensures
            r == cplx(self.re, self.im),
    {
        Complex::new(self.re, self.im)
    }

    /// Zero.
    pub fn zero() -> (r: Complex)
        ensures
            r == cplx(Dec::int_spec(0), Dec::int_spec(0)),
    {
        Complex::new(Dec::zero(), Dec::zero())
    }

    /// One.
    pub fn one() -> (r: Complex)
        ensures
            r == cplx(Dec::int_spec(1), Dec::int_spec(0)),
    {
        Complex::new(Dec::one(), Dec::zero())
    }

    /// The imaginary unit.
    pub fn i() -> (r: Complex)
        ensures
            r == cplx(Dec::int_spec(0), Dec::int_spec(1)),
    {
        Complex::new(Dec::zero(), Dec::one())
    }

    /// Both parts are zero.
    pub fn is_zero(&self) -> (r: bool)
        requires
            self.wf(),
        ensures
            r == (self.re.same(Dec::int_spec(0)) && self.im.same(Dec::int_spec(0))),
    {
        self.re.eq_val(&Dec::zero()) && self.im.eq_val(&Dec::zero())
    }

    /// Same parts, by value.
    pub fn eq_val(&self, o: &Complex) -> (r: bool)
        requires
            self.wf(),
            o.wf(),
        ensures
            r == (self.re.same(o.re) && self.im.same(o.im)),
    {
        self.re.eq_val(&o.re) && self.im.eq_val(&o.im)
    }

    /// `−self`.
    pub fn neg(&self) -> (r: Complex)
        requires
            self.wf(),
        ensures
            r == cplx(self.re.neg_spec(), self.im.neg_spec()),
            r.wf(),
    {
        Complex::new(self.re.neg(), self.im.neg())
    }

    /// `self + o`.
    pub fn add(&self, o: &Complex) -> (r: Result<Complex, Error>)
        requires
            self.wf(),
            o.wf(),
        ensures
            r == c_add_spec(*self, *o),
            r matches Ok(v) ==> v.wf(),
    {
        let re = self.re.try_add(o.re)?;
        let im = self.im.try_add(o.im)?;
        Ok(Complex::new(re, im))
    }

    /// `self − o`.
    pub fn sub(&self, o: &Complex) -> (r: Result<Complex, Error>)
        requires
            self.wf(),
            o.wf(),
        ensures
            r == c_sub_spec(*self, *o),
            r matches Ok(v) ==> v.wf(),
    {
        let re = self.re.try_sub(o.re)?;
        let im = self.im.try_sub(o.im)?;
        Ok(Complex::new(re, im))
    }

    /// `self · o`.
    pub fn mul(&self, o: &Complex) -> (r: Result<Complex, Error>)
        requires
            self.wf(),
            o.wf(),
        ensures
            r == c_mul_spec(*self, *o),
            r matches Ok(v) ==> v.wf(),
    {
        let ac = self.re.try_mul(o.re)?;
        let bd = self.im.try_mul(o.im)?;
        let re = ac.try_sub(bd)?;
        let ad = self.re.try_mul(o.im)?;
        let bc = self.im.try_mul(o.re)?;
        let im = ad.try_add(bc)?;
        Ok(Complex::new(re, im))
    }

    /// `self / o`.
    pub fn div(&self, o: &Complex) -> (r: Result<Complex, Error>)
        requires
            self.wf(),
            o.wf(),
        ensures
            r == c_div_spec(*self, *o),
            r matches Ok(v) ==> v.wf(),
    {
        let rs = o.radius_sqr()?;
        let ac = self.re.try_mul(o.re)?;
        let bd = self.im.try_mul(o.im)?;
        let re = ac.try_add(bd)?.try_div(rs)?;
        let bc = self.im.try_mul(o.re)?;
        let ad = self.re.try_mul(o.im)?;
        let im = bc.try_sub(ad)?.try_div(rs)?;
        Ok(Complex::new(re, im))
    }

    /// `re² + im²`.
    pub fn radius_sqr(&self) -> (r: Result<Dec, Error>)
        requires
            self.wf(),
        ensures
            r == radius_sqr_spec(*self),
            r matches Ok(v) ==> v.wf(),
    {
        let a = self.re.try_mul(self.re)?;
        let b = self.im.try_mul(self.im)?;
        a.try_add(b)
    }

    /// Multiplies by the scalar `t`.
    pub fn scale(&self, t: Dec) -> (r: Result<Complex, Error>)
        requires
            self.wf(),
            t.wf(),
        ensures
            r == c_mul_spec(*self, cplx(t, Dec::int_spec(0))),
            r matches Ok(v) ==> v.wf(),
    {
        self.mul(&Complex::new(t, Dec::zero()))
    }

    /// Divides by the scalar `t`.
    pub fn unscale(&self, t: Dec) -> (r: Result<Complex, Error>)
        requires
            self.wf(),
            t.wf(),
        ensures
            r == c_div_spec(*self, cplx(t, Dec::int_spec(0))),
            r matches Ok(v) ==> v.wf(),
    {
        self.div(&Complex::new(t, Dec::zero()))
    }

    /// The conjugate `re − i·im`.
    pub fn conj(&self) -> (r: Complex)
        requires
            self.wf(),
        ensures
            r == cplx(self.re, self.im.neg_spec()),
            r.wf(),
    {
        Complex::new(self.re, self.im.neg())
    }

    /// `1 / self`.
    pub fn inv(&self) -> (r: Result<Complex, Error>)
        requires
            self.wf(),
        ensures
            r == c_div_spec(cplx(Dec::int_spec(1), Dec::int_spec(0)), *self),
            r matches Ok(v) ==> v.wf(),
    {
        Complex::one().div(self)
    }

    /// Both parts rounded to integers, half to even.
    pub fn round(&self) -> (r: Complex)
        requires
            self.wf(),
        ensures
            r == cplx(round_dp_of(self.re, 0), round_dp_of(self.im, 0)),
            r.wf(),
    {
        Complex::new(self.re.round(), self.im.round())
    }

    /// Both parts rounded to `dp` fractional digits, half to even.
    pub fn round_dp(&self, dp: u32) -> (r: Complex)
        requires
            self.wf(),
        ensures
            r == cplx(round_dp_of(self.re, dp), round_dp_of(self.im, dp)),
            r.wf(),
    {
        Complex::new(self.re.round_dp(dp), self.im.round_dp(dp))
    }

    fn calc_radius(&self, terms: usize) -> (r: Result<Dec, Error>)
        requires
            self.wf(),
            terms <= usize::MAX / 4,
        ensures
            r == calc_radius_spec(*self, terms as nat),
            r matches Ok(v) ==> v.wf(),
    {
        if self.is_zero() {
            Ok(Dec::zero())
        } else if self.im.eq_val(&Dec::zero()) {
            Ok(self.re.abs())
        } else if self.re.eq_val(&Dec::zero()) {
            Ok(self.im.abs())
        } else {
            let s = self.radius_sqr()?;
            d_sqrt(s, terms)
        }
    }

    /// The modulus `|self|`, from the cache when it was computed with at least `terms`
    /// terms; a fresh value is stored with its term count.
    pub fn radius(&mut self, terms: usize) -> (r: Result<Dec, Error>)
        requires
            old(self).wf(),
            terms <= usize::MAX / 4,
        ensures
            r == radius_outcome(*old(self), terms as nat),
            final(self).re == old(self).re,
            final(self).im == old(self).im,
            final(self).arg_cache == old(self).arg_cache,
            final(self).radius_cache == radius_cache_after(*old(self), terms as nat),
            final(self).wf(),
            r matches Ok(v) ==> v.wf(),
    {
        match slot_get(self.radius_cache, terms) {
            Some(v) => Ok(v),
            None => {
                let v = self.calc_radius(terms)?;
                self.radius_cache = Some((terms, v));
                Ok(v)
            },
        }
    }

    /// The argument in (−π, π], from the cache when it was computed with at least `terms`
    /// terms; a fresh value is stored with its term count.
    pub fn arg(&mut self, terms: usize) -> (r: Result<Dec, Error>)
        requires
            old(self).wf(),
            terms <= usize::MAX / 4,
        ensures
            r == arg_outcome(*old(self), terms as nat),
            final(self).re == old(self).re,
            final(self).im == old(self).im,
            final(self).wf(),
            r matches Ok(v) ==> v.wf(),
            r matches Ok(v) ==> final(self).arg_cache == (if slot_hit(old(self).arg_cache, terms as nat) is Some {
                old(self).arg_cache
            } else {
                Some((terms, v))
            }),
    {
        match slot_get(self.arg_cache, terms) {
            Some(v) => Ok(v),
            None => {
                let rad = self.radius(terms)?;
                let v = if self.is_zero() {
                    rad
                } else {
                    let c = self.re.try_div(rad)?;
                    let s = self.im.try_div(rad)?;
                    atan2(c, s, terms)?
                };
                self.arg_cache = Some((terms, v));
                Ok(v)
            },
        }
    }

    /// The polar form `(|self|, arg(self))`; its Cartesian parts are cached as exact.
    pub fn to_polar(&mut self, terms: usize) -> (r: Result<Polar, Error>)
        requires
            old(self).wf(),
            terms <= usize::MAX / 4,
        ensures
            r == (match radius_outcome(*old(self), terms as nat) {
                Err(e) => Err(e),
                Ok(rad) => match arg_outcome(after_radius(*old(self), terms as nat), terms as nat) {
                    Err(e) => Err(e),
                    Ok(a) => Ok::<Polar, Error>(
                        Polar {
                            radius: rad,
                            arg: a,
                            re_cache: Some((usize::MAX, old(self).re)),
                            im_cache: Some((usize::MAX, old(self).im)),
                        },
                    ),
                },
            }),
            r matches Ok(p) ==> p.wf(),
            final(self).re == old(self).re,
            final(self).im == old(self).im,
            final(self).wf(),
    {
        let radius = self.radius(terms)?;
        let arg = self.arg(terms)?;
        Ok(Polar { radius, arg, re_cache: Some((usize::MAX, self.re)), im_cache: Some((usize::MAX, self.im)) })
    }
}

/// The Cartesian part from scratch: `radius · cos(arg)` or `radius · sin(arg)`.
pub open spec fn calc_part_spec(p: Polar, cos_part: bool, terms: nat) -> Result<Dec, Error> {
    let t = if cos_part {
        cos_spec(p.arg, terms)
    } else {
        sin_spec(p.arg, terms)
    };
    match t {
        Err(e) => Err(e),
        Ok(v) => mul_r(v, p.radius),
    }
}

/// What `re(terms)` (`cos_part`) or `im(terms)` returns: the cached part when it was computed
/// with enough terms, else a fresh one.
pub open spec fn part_outcome(p: Polar, cos_part: bool, terms: nat) -> Result<Dec, Error> {
    match slot_hit(if cos_part { p.re_cache } else { p.im_cache }, terms) {
        Some(v) => Ok(v),
        None => calc_part_spec(p, cos_part, terms),
    }
}

/// Standard form: a negative radius is made positive by turning the angle by π, the
/// angle is reduced into [−π, π] as the trigonometric engine reduces angles, and −π is
/// taken to π.
pub open spec fn to_std_spec(p: Polar) -> Result<Polar, Error> {
    let turn = if p.radius.mant < 0 {
        konst(Constant::Pi)
    } else {
        Dec::int_spec(0)
    };
    match add_r(p.arg, turn) {
        Err(e) => Err(e),
        Ok(a) => match trig_prepare_spec(a) {
            Err(e) => Err(e),
            Ok(arg) => {
                let pi = konst(Constant::Pi);
                let arg = if arg.same(pi.neg_spec()) {
                    pi
                } else {
                    arg
                };
                Ok(Polar { radius: p.radius.abs_spec(), arg, re_cache: p.re_cache, im_cache: p.im_cache })
            },
        },
    }
}

impl Polar {
    /// Radius and angle well formed, caches holding well-formed scalars.
    pub open spec fn wf(&self) -> bool {
        self.radius.wf() && self.arg.wf() && slot_wf(self.re_cache) && slot_wf(self.im_cache)
    }

    /// `radius·e^(i·arg)` with empty caches.
    pub fn new(radius: Dec, arg: Dec) -> (r: Polar)
        ensures
            r == polar(radius, arg),
    {
        Polar { radius, arg, re_cache: None, im_cache: None }
    }

    /// The radius.
    pub fn radius(&self) -> (r: Dec)
        ensures
            r == self.radius,
    {
        self.radius
    }

    /// The angle.
    pub fn arg(&self) -> (r: Dec)
        ensures
            r == self.arg,
    {
        self.arg
    }

    /// The same number with empty caches.
    pub fn reset(&self) -> (r: Polar)
        ensures
            r == polar(self.radius, self.arg),
    {
        Polar::new(self.radius, self.arg)
    }

    fn calc_part(&self, cos_part: bool, terms: usize) -> (r: Result<Dec, Error>)
        requires
            self.wf(),
            terms <= usize::MAX / 4,
        ensures
            r == calc_part_spec(*self, cos_part, terms as nat),
            r matches Ok(v) ==> v.wf(),
    {
        let t = if cos_part {
            cos(self.arg, terms)?
        } else {
            sin(self.arg, terms)?
        };
        t.try_mul(self.radius)
    }

    /// The real part.`radius · cos(arg)`, cached with its term count.
    pub fn re(&mut self, terms: usize) -> (r: Result<Dec, Error>)
        requires
            old(self).wf(),
            terms <= usize::MAX / 4,
        ensures
            r == part_outcome(*old(self), true, terms as nat),
            final(self).radius == old(self).radius,
            final(self).arg == old(self).arg,
            final(self).im_cache == old(self).im_cache,
            final(self).wf(),
            r matches Ok(v) ==> v.wf(),
    {
        match slot_get(self.re_cache, terms) {
            Some(v) => Ok(v),
            None => {
                let v = self.calc_part(true, terms)?;
                self.re_cache = Some((terms, v));
                Ok(v)
            },
        }
    }

    /// The imaginary part `radius · sin(arg)`, cached with its term count.
    pub fn im(&mut self, terms: usize) -> (r: Result<Dec, Error>)
        requires
            old(self).wf(),
            terms <= usize::MAX / 4,
        ensures
            r == part_outcome(*old(self), false, terms as nat),
            final(self).radius == old(self).radius,
            final(self).arg == old(self).arg,
            final(self).re_cache == old(self).re_cache,
            final(self).wf(),
            r matches Ok(v) ==> v.wf(),
    {
        match slot_get(self.im_cache, terms) {
            Some(v) => Ok(v),
            None => {
                let v = self.calc_part(false, terms)?;
                self.im_cache = Some((terms, v));
                Ok(v)
            },
        }
    }

    /// Brings `self` into standard form (see `to_std_spec`) and returns a copy; on an
    /// overflow `self` is left as it was.
    pub fn to_std(&mut self) -> (r: Result<Polar, Error>)
        requires
            old(self).wf(),
        ensures
            r == to_std_spec(*old(self)),
            r matches Ok(p) ==> *final(self) == p && p.wf() && p.radius.mant >= 0,
            r matches Ok(p) ==> !p.arg.same(konst(Constant::Pi).neg_spec()),
            r is Err ==> *final(self) == *old(self),
    {
        let turn = if self.radius.is_sign_negative() {
            constant(Constant::Pi)
        } else {
            Dec::zero()
        };
        let a = self.arg.try_add(turn)?;
        let arg = crate::trigonometry::reduce_angle(a)?;
        let pi = constant(Constant::Pi);
        let arg = if arg.eq_val(&pi.neg()) {
            pi
        } else {
            arg
        };
        proof {
            if arg.same(pi.neg_spec()) {
                crate::decimal::lemma_same_sign(arg, pi.neg_spec());
            }
        }
        self.radius = self.radius.abs();
        self.arg = arg;
        Ok(*self)
    }

    /// The Cartesian form of the standard form, with the polar values cached as exact.
    pub fn to_cartesian(&mut self, terms: usize) -> (r: Result<Complex, Error>)
        requires
            old(self).wf(),
            terms <= usize::MAX / 4,
        ensures
            r == (match to_std_spec(*old(self)) {
                Err(e) => Err(e),
                Ok(p) => match (part_outcome(p, true, terms as nat), part_outcome(p, false, terms as nat)) {
                    (Ok(re), Ok(im)) => Ok::<Complex, Error>(
                        Complex {
                            re,
                            im,
                            radius_cache: Some((usize::MAX, p.radius)),
                            arg_cache: Some((usize::MAX, p.arg)),
                        },
                    ),
                    (Err(e), _) => Err(e),
                    (Ok(_), Err(e)) => Err(e),
                },
            }),
            r matches Ok(c) ==> c.wf(),
            final(self).wf(),
    {
        self.to_std()?;
        let re = self.re(terms)?;
        let im = self.im(terms)?;
        Ok(Complex { re, im, radius_cache: Some((usize::MAX, self.radius)), arg_cache: Some((usize::MAX, self.arg)) })
    }

    /// Same number: both radii zero, or equal radius and angle once both are in standard
    /// form.
    pub fn eq_val(&self, o: &Polar) -> (r: Result<bool, Error>)
        requires
            self.wf(),
            o.wf(),
        ensures
            self.radius.same(Dec::int_spec(0)) ==> r == Ok::<bool, Error>(o.radius.same(Dec::int_spec(0))),
            !self.radius.same(Dec::int_spec(0)) ==> r == (match (to_std_spec(*self), to_std_spec(*o)) {
                (Ok(a), Ok(b)) => Ok::<bool, Error>(a.radius.same(b.radius) && a.arg.same(b.arg)),
                (Err(e), _) => Err(e),
                (Ok(_), Err(e)) => Err(e),
            }),
    {
        if self.radius.eq_val(&Dec::zero()) {
            return Ok(o.radius.eq_val(&Dec::zero()));
        }
        let mut a = *self;
        let mut b = *o;
        let a = a.to_std()?;
        let b = b.to_std()?;
        Ok(a.radius.eq_val(&b.radius) && a.arg.eq_val(&b.arg))
    }

    /// `−self`: the angle turned by π.
    pub fn neg(&self) -> (r: Result<Polar, Error>)
        requires
            self.wf(),
        ensures
            r == (match (if self.arg.mant <= 0 {
                add_r(self.arg, konst(Constant::Pi))
            } else {
                add_r(self.arg, konst(Constant::Pi).neg_spec())
            }) {
                Ok(a) => Ok::<Polar, Error>(polar(self.radius, a)),
                Err(e) => Err(e),
            }),
            r matches Ok(p) ==> p.wf(),
    {
        let pi = constant(Constant::Pi);
        let a = if self.arg.mant <= 0 {
            self.arg.try_add(pi)?
        } else {
            self.arg.try_add(pi.neg())?
        };
        Ok(Polar::new(self.radius, a))
    }

    /// `self · o`: radii multiplied, angles added, brought into standard form.
    pub fn mul(&self, o: &Polar) -> (r: Result<Polar, Error>)
        requires
            self.wf(),
            o.wf(),
        ensures
            r == (match (mul_r(self.radius, o.radius), add_r(self.arg, o.arg)) {
                (Ok(rad), Ok(a)) => to_std_spec(polar(rad, a)),
                (Err(e), _) => Err(e),
                (Ok(_), Err(e)) => Err(e),
            }),
    {
        let rad = self.radius.try_mul(o.radius)?;
        let a = self.arg.try_add(o.arg)?;
        let mut p = Polar::new(rad, a);
        p.to_std()
    }

    /// `self / o`: radii divided, angles subtracted, brought into standard form.
    pub fn div(&self, o: &Polar) -> (r: Result<Polar, Error>)
        requires
            self.wf(),
            o.wf(),
        ensures
            r == (match (div_r(self.radius, o.radius), sub_r(self.arg, o.arg)) {
                (Ok(rad), Ok(a)) => to_std_spec(polar(rad, a)),
                (Err(e), _) => Err(e),
                (Ok(_), Err(e)) => Err(e),
            }),
    {
        let rad = self.radius.try_div(o.radius)?;
        let a = self.arg.try_sub(o.arg)?;
        let mut p = Polar::new(rad, a);
        p.to_std()
    }
}

} // verus!
