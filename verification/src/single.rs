//! One amount, paid or received once, moved through time at a fixed rate.

use vstd::prelude::*;
use crate::money::{valued, Money};
use crate::rate::{Rate, RATE_SCALE};
use crate::rounding::compound;
use crate::timing::ValueError;
use crate::valuation::TimeValue;

verus! {

/// The present value in cents of `amount` cents due after `period` periods:
/// the amount divided by the growth factor once for each period, then
/// rounded. A negative rate is refused.
pub open spec fn single_sum_present_value_spec(amount: int, rate: Rate, period: nat) -> Result<
    int,
    ValueError,
> {
    if rate.negative() {
        Err(ValueError::NegativeDiscount)
    } else {
        Ok(compound(amount, RATE_SCALE as int, rate.growth(), period))
    }
}

/// The future value in cents of `amount` cents held for `period` periods:
/// the amount multiplied by the growth factor once for each period, then
/// rounded. A negative rate is refused.
pub open spec fn single_sum_future_value_spec(amount: int, rate: Rate, period: nat) -> Result<
    int,
    ValueError,
> {
    if rate.negative() {
        Err(ValueError::NegativeDiscount)
    } else {
        Ok(compound(amount, rate.growth(), RATE_SCALE as int, period))
    }
}

/// Values today `amount` cents that are due after `period` periods.
pub fn single_sum_present_value(amount: i64, rate: Rate, period: u32) -> (out: Result<
    Money,
    ValueError,
>)
    ensures
        valued(out) == single_sum_present_value_spec(amount as int, rate, period as nat),
        rate.negative() ==> out == Err::<Money, ValueError>(ValueError::NegativeDiscount),
        !rate.negative() ==> out is Ok,
{
    if rate.is_negative() {
        return Err(ValueError::NegativeDiscount);
    }
    let growth: u64 = rate.growth_parts();
    let raised: Money = Money::from_cents(amount).scaled_by_power(RATE_SCALE, period as usize);
    Ok(raised.rounded_quotient(growth, period as usize, 1))
}

/// Values `amount` cents after they have been held for `period` periods.
pub fn single_sum_future_value(amount: i64, rate: Rate, period: u32) -> (out: Result<
    Money,
    ValueError,
>)
    ensures
        valued(out) == single_sum_future_value_spec(amount as int, rate, period as nat),
        rate.negative() ==> out == Err::<Money, ValueError>(ValueError::NegativeDiscount),
        !rate.negative() ==> out is Ok,
{
    if rate.is_negative() {
        return Err(ValueError::NegativeDiscount);
    }
    let growth: u64 = rate.growth_parts();
    let raised: Money = Money::from_cents(amount).scaled_by_power(growth, period as usize);
    Ok(raised.rounded_quotient(RATE_SCALE, period as usize, 1))
}

/// One amount with the rate and the number of periods it is valued over.
#[derive(Debug, Clone, Copy)]
pub struct SingleSum {
    amount: i64,
    rate: Rate,
    period: u32,
}

impl SingleSum {
    /// The amount in cents.
    pub closed spec fn spec_amount(&self) -> i64 {
        self.amount
    }

    /// The rate per period.
    pub closed spec fn spec_rate(&self) -> Rate {
        self.rate
    }

    /// The number of periods.
    pub closed spec fn spec_period(&self) -> u32 {
        self.period
    }

    /// A single sum of `amt` cents over `period` periods at `rate`.
    pub fn new(amt: i64, rate: Rate, period: u32) -> (sum: Self)
        ensures
            sum.amount() == amt,
            sum.rate() == rate,
            sum.period() == period,
    {
        Self { amount: amt, rate, period }
    }

    /// The amount in cents.
    #[verifier::when_used_as_spec(spec_amount)]
    pub fn amount(&self) -> (amount: i64)
        ensures
            amount == self.amount(),
    {
        self.amount
    }

    /// The rate per period.
    #[verifier::when_used_as_spec(spec_rate)]
    pub fn rate(&self) -> (rate: Rate)
        ensures
            rate == self.rate(),
    {
        self.rate
    }

    /// The number of periods.
    #[verifier::when_used_as_spec(spec_period)]
    pub fn period(&self) -> (period: u32)
        ensures
            period == self.period(),
    {
        self.period
    }

    /// Replaces the amount and leaves rate and period as they are.
    pub fn set_amount(&mut self, amt: i64)
        ensures
            final(self).amount() == amt,
            final(self).rate() == old(self).rate(),
            final(self).period() == old(self).period(),
    {
        self.amount = amt;
    }

    /// Replaces the rate and leaves amount and period as they are.
    pub fn set_rate(&mut self, rate: Rate)
        ensures
            final(self).amount() == old(self).amount(),
            final(self).rate() == rate,
            final(self).period() == old(self).period(),
    {
        self.rate = rate;
    }

    /// Replaces the number of periods and leaves amount and rate as they are.
    pub fn set_period(&mut self, period: u32)
        ensures
            final(self).amount() == old(self).amount(),
            final(self).rate() == old(self).rate(),
            final(self).period() == period,
    {
        self.period = period;
    }
}

impl TimeValue for SingleSum {
    open spec fn present_value_spec(&self) -> Result<int, ValueError> {
        single_sum_present_value_spec(self.amount() as int, self.rate(), self.period() as nat)
    }

    open spec fn future_value_spec(&self) -> Result<int, ValueError> {
        single_sum_future_value_spec(self.amount() as int, self.rate(), self.period() as nat)
    }

    fn present_value(&self) -> (out: Result<Money, ValueError>) {
        single_sum_present_value(self.amount, self.rate, self.period)
    }

    fn future_value(&self) -> (out: Result<Money, ValueError>) {
        single_sum_future_value(self.amount, self.rate, self.period)
    }
}

} // verus!
