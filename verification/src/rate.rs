//! Interest rates per period, in parts per million.

use vstd::prelude::*;

verus! {

/// How many parts make a rate of one, that is 100 % per period.
pub const RATE_SCALE: u64 = 1_000_000;

/// A rate per period: `parts()` millionths, so that 120 000 parts are 12 %.
/// A rate may be negative, but nothing is valued at a negative rate.
#[derive(PartialEq, Eq, Debug, Clone, Copy, Structural)]
pub struct Rate {
    parts: i64,
}

impl Rate {
    /// The rate in parts per million.
    pub closed spec fn spec_parts(&self) -> i64 {
        self.parts
    }

    /// Whether the rate is below zero.
    pub open spec fn negative(&self) -> bool {
        self.parts() < 0
    }

    /// What one unit grows to over one period, in parts per million: the rate
    /// plus one. One period multiplies an amount by `growth() / RATE_SCALE`.
    pub open spec fn growth(&self) -> int {
        RATE_SCALE + self.parts()
    }

    /// The rate of `parts` millionths per period.
    pub fn from_parts(parts: i64) -> (rate: Rate)
        ensures
            rate.parts() == parts,
    {
        Rate { parts }
    }

    /// The rate of `percent` per cent per period.
    pub fn from_percent(percent: i32) -> (rate: Rate)
        ensures
            rate.parts() == percent * 10_000,
    {
        let wide: i64 = percent as i64;
        Rate { parts: wide * 10_000 }
    }

    /// The rate in parts per million.
    #[verifier::when_used_as_spec(spec_parts)]
    pub fn parts(&self) -> (parts: i64)
        ensures
            parts == self.parts(),
    {
        self.parts
    }

    /// Whether the rate is below zero.
    pub fn is_negative(&self) -> (yes: bool)
        ensures
            yes == self.negative(),
    {
        self.parts < 0
    }

    /// The growth over one period of a rate that is not negative.
    pub fn growth_parts(&self) -> (growth: u64)
        requires
            !self.negative(),
        ensures
            growth == self.growth(),
            growth >= RATE_SCALE,
    {
        let parts: u64 = self.parts as u64;
        parts + RATE_SCALE
    }
}

} // verus!
