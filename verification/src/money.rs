//! Amounts of money in whole cents, of any size and either sign.

use vstd::prelude::*;
use vstd::arithmetic::div_mod::{lemma_basic_div, lemma_div_denominator};
use vstd::arithmetic::power::{lemma_pow0, lemma_pow_positive, pow};
use vstd::std_specs::cmp::PartialEqSpecImpl;
use crate::natural::Natural;
use crate::rounding::{lemma_pow_next, round_div};
use crate::timing::ValueError;

verus! {

/// An amount in cents. It is never too large to hold.
#[derive(Debug)]
pub struct Money {
    negative: bool,
    magnitude: Natural,
}

impl View for Money {
    type V = int;

    closed spec fn view(&self) -> int {
        if self.negative {
            -(self.magnitude@ as int)
        } else {
            self.magnitude@ as int
        }
    }
}

impl PartialEq for Money {
    /// Whether both are the same amount.
    fn eq(&self, other: &Money) -> (same: bool) {
        self.is_negative() == other.is_negative() && self.magnitude.at_least(&other.magnitude)
            && other.magnitude.at_least(&self.magnitude)
    }
}

impl PartialEqSpecImpl for Money {
    open spec fn obeys_eq_spec() -> bool {
        true
    }

    open spec fn eq_spec(&self, other: &Money) -> bool {
        self@ == other@
    }
}

/// The outcome of a valuation with its amount read in cents.
pub open spec fn valued(out: Result<Money, ValueError>) -> Result<int, ValueError> {
    match out {
        Ok(amount) => Ok(amount@),
        Err(error) => Err(error),
    }
}

impl Money {
    /// The amount of `cents` cents.
    pub fn from_cents(cents: i64) -> (out: Money)
        ensures
            out@ == cents,
    {
        if cents >= 0 {
            Money { negative: false, magnitude: Natural::from_u64(cents as u64) }
        } else {
            let below: u64 = (-(cents + 1)) as u64;
            Money { negative: true, magnitude: Natural::from_u64(below + 1) }
        }
    }

    /// This amount in cents as an `i64`, where it fits.
    pub fn to_cents(&self) -> (out: Option<i64>)
        ensures
            match out {
                Some(cents) => self@ == cents,
                None => self@ < i64::MIN || self@ > i64::MAX,
            },
    {
        match self.magnitude.to_u64() {
            None => None,
            Some(size) => {
                if size <= 0x7fff_ffff_ffff_ffff {
                    let cents: i64 = size as i64;
                    if self.negative {
                        Some(-cents)
                    } else {
                        Some(cents)
                    }
                } else if self.negative && size == 0x8000_0000_0000_0000 {
                    Some(i64::MIN)
                } else {
                    None
                }
            },
        }
    }

    /// The size of this amount in cents, without its sign.
    pub fn magnitude(&self) -> (size: &Natural)
        ensures
            size@ == (if self@ < 0 {
                -self@
            } else {
                self@
            }),
    {
        &self.magnitude
    }

    /// Whether this amount is below zero.
    pub fn is_negative(&self) -> (yes: bool)
        ensures
            yes == (self@ < 0),
    {
        self.negative && !self.magnitude.is_zero()
    }

    /// Whether this amount is zero.
    pub fn is_zero(&self) -> (yes: bool)
        ensures
            yes == (self@ == 0),
    {
        self.magnitude.is_zero()
    }

    /// The sum of this amount and `other`.
    pub fn plus(&self, other: &Money) -> (out: Money)
        ensures
            out@ == self@ + other@,
    {
        if self.negative == other.negative {
            Money { negative: self.negative, magnitude: self.magnitude.plus(&other.magnitude) }
        } else if self.magnitude.at_least(&other.magnitude) {
            Money { negative: self.negative, magnitude: self.magnitude.minus(&other.magnitude) }
        } else {
            Money { negative: other.negative, magnitude: other.magnitude.minus(&self.magnitude) }
        }
    }

    /// This amount `factor` times over.
    pub fn scaled(&self, factor: u64) -> (out: Money)
        ensures
            out@ == self@ * factor,
    {
        let out = Money { negative: self.negative, magnitude: self.magnitude.scaled(factor) };
        proof {
            let m = self.magnitude@ as int;
            assert((-m) * factor == -(m * factor)) by (nonlinear_arith);
        }
        out
    }

    /// This amount `factor` times over, with the sign of `factor`.
    pub fn scaled_signed(&self, factor: i64) -> (out: Money)
        ensures
            out@ == self@ * factor,
    {
        if factor >= 0 {
            self.scaled(factor as u64)
        } else {
            let below: u64 = (-(factor + 1)) as u64;
            let size: u64 = below + 1;
            let out = Money {
                negative: !self.negative,
                magnitude: self.magnitude.scaled(size),
            };
            proof {
                let m = self.magnitude@ as int;
                let f = factor as int;
                assert(size == -f);
                assert((-m) * f == m * (-f) && m * f == -(m * (-f))) by (nonlinear_arith);
            }
            out
        }
    }

    /// This amount times `base` to the power `exponent`.
    pub fn scaled_by_power(self, base: u64, exponent: usize) -> (out: Money)
        ensures
            out@ == self@ * pow(base as int, exponent as nat),
    {
        let ghost start: int = self@;
        let mut out: Money = self;
        let mut i: usize = 0;
        proof {
            lemma_pow0(base as int);
        }
        while i < exponent
            invariant
                i <= exponent,
                out@ == start * pow(base as int, i as nat),
            decreases exponent - i,
        {
            proof {
                lemma_pow_next(base as int, i as nat);
                let high = pow(base as int, i as nat);
                assert((start * high) * base == start * (high * base)) by (nonlinear_arith);
            }
            out = out.scaled(base);
            i += 1;
        }
        out
    }

    /// This amount divided by `base` to the power `exponent` times `extra`,
    /// rounded to the nearest cent, halves away from zero.
    pub fn rounded_quotient(&self, base: u64, exponent: usize, extra: u64) -> (out: Money)
        requires
            base > 0,
            extra > 0,
        ensures
            out@ == round_div(self@, pow(base as int, exponent as nat) * extra),
    {
        let divisor: Natural = Natural::power(base, exponent).scaled(extra);
        let doubled: Natural = self.magnitude.scaled(2).plus(&divisor);
        let ghost whole: int = doubled@ as int;
        let ghost high: int = pow(base as int, exponent as nat);
        let by_power: Natural = doubled.quotient_by_power(base, exponent);
        let by_extra: Natural = by_power.quotient(extra);
        let halved: Natural = by_extra.quotient(2);
        proof {
            let size = self.magnitude@ as int;
            let d = high * extra;
            lemma_pow_positive(base as int, exponent as nat);
            assert(d > 0) by (nonlinear_arith)
                requires
                    d == high * extra,
                    high > 0,
                    extra > 0,
            ;
            assert(whole == 2 * size + d);
            lemma_div_denominator(whole, high, extra as int);
            lemma_div_denominator(whole, d, 2);
            assert(d * 2 == 2 * d);
            assert(halved@ == (2 * size + d) / (2 * d));
            if size == 0 {
                lemma_basic_div(d, 2 * d);
            }
        }
        Money { negative: self.negative, magnitude: halved }
    }
}

} // verus!
