//! What holds of every valuation, whatever the amounts, the rate and the
//! number of periods.

use vstd::prelude::*;
use vstd::arithmetic::power::{lemma_pow0, lemma_pow1, pow};
use crate::annuity::{annuity_future_value_spec, annuity_present_value_spec, series_sum, CashFlows};
use crate::rate::{Rate, RATE_SCALE};
use crate::rounding::{
    compound,
    lemma_compound_inverse,
    lemma_round_div_common_factor,
    lemma_round_div_exact,
    round_div,
};
use crate::single::{single_sum_future_value_spec, single_sum_present_value_spec};
use crate::timing::{AnnuityKind, ValueError};

verus! {

/// At a rate that is not negative, the present value of the future value of
/// an amount is that amount again: it differs from it by less than one cent,
/// and so by nothing.
pub proof fn law_present_value_recovers_amount(amount: int, rate: Rate, period: nat)
    requires
        !rate.negative(),
    ensures
        ({
            let future = compound(amount, rate.growth(), RATE_SCALE as int, period);
            let back = compound(future, RATE_SCALE as int, rate.growth(), period);
            &&& single_sum_future_value_spec(amount, rate, period) == Ok::<int, ValueError>(future)
            &&& single_sum_present_value_spec(future, rate, period) == Ok::<int, ValueError>(back)
            &&& -1 <= back - amount <= 1
            &&& back == amount
        }),
{
    lemma_compound_inverse(amount, rate.growth(), RATE_SCALE as int, period);
}

/// Over no period at all an amount is worth itself, today and later.
pub proof fn law_zero_periods(amount: int, rate: Rate)
    requires
        !rate.negative(),
    ensures
        single_sum_present_value_spec(amount, rate, 0) == Ok::<int, ValueError>(amount),
        single_sum_future_value_spec(amount, rate, 0) == Ok::<int, ValueError>(amount),
{
    lemma_pow0(rate.growth());
    lemma_pow0(RATE_SCALE as int);
    lemma_round_div_exact(amount, 1);
}

/// A negative rate is refused by all four valuations, whatever else they
/// are given.
pub proof fn law_negative_rate_refused(
    amount: int,
    flows: Seq<int>,
    rate: Rate,
    period: nat,
    kind: AnnuityKind,
)
    requires
        rate.negative(),
    ensures
        single_sum_present_value_spec(amount, rate, period) == Err::<int, ValueError>(
            ValueError::NegativeDiscount,
        ),
        single_sum_future_value_spec(amount, rate, period) == Err::<int, ValueError>(
            ValueError::NegativeDiscount,
        ),
        annuity_present_value_spec(flows, rate, kind) == Err::<int, ValueError>(
            ValueError::NegativeDiscount,
        ),
        annuity_future_value_spec(flows, rate, kind) == Err::<int, ValueError>(
            ValueError::NegativeDiscount,
        ),
{
}

/// A series without cash flows is refused by both annuity valuations, for
/// either timing, unless the rate is negative, which is refused first.
pub proof fn law_empty_series_refused(flows: Seq<int>, rate: Rate, kind: AnnuityKind)
    requires
        flows.len() == 0,
        !rate.negative(),
    ensures
        annuity_present_value_spec(flows, rate, kind) == Err::<int, ValueError>(
            ValueError::EmptyCashFlow,
        ),
        annuity_future_value_spec(flows, rate, kind) == Err::<int, ValueError>(
            ValueError::EmptyCashFlow,
        ),
{
}

/// One amount repeated over a number of periods is valued exactly as the
/// series that spells the same amount out for each period.
pub proof fn law_repeated_matches_explicit(
    amount: i64,
    count: u32,
    series: Vec<i64>,
    rate: Rate,
    kind: AnnuityKind,
)
    requires
        series@ == Seq::new(count as nat, |i: int| amount),
    ensures
        annuity_present_value_spec((CashFlows::Repeated { amount, count })@, rate, kind)
            == annuity_present_value_spec(CashFlows::Explicit(series)@, rate, kind),
        annuity_future_value_spec((CashFlows::Repeated { amount, count })@, rate, kind)
            == annuity_future_value_spec(CashFlows::Explicit(series)@, rate, kind),
{
    assert((CashFlows::Repeated { amount, count })@ =~= CashFlows::Explicit(series)@);
}

/// The present value of an annuity due is the present value of the same
/// series as a regular annuity, grown by one period and rounded again; where
/// the regular valuation is refused, the due one is refused for the same
/// reason.
pub proof fn law_due_present_value(flows: Seq<int>, rate: Rate)
    ensures
        annuity_present_value_spec(flows, rate, AnnuityKind::Due) == (match annuity_present_value_spec(
            flows,
            rate,
            AnnuityKind::Regular,
        ) {
            Ok(regular) => Ok::<int, ValueError>(
                round_div(regular * rate.growth(), RATE_SCALE as int),
            ),
            Err(error) => Err::<int, ValueError>(error),
        }),
{
}

/// A series of one cash flow is a single sum. Paid at the end of its period
/// it is discounted over one period and earns nothing; paid at the start it
/// earns one period.
pub proof fn law_one_cash_flow(amount: int, rate: Rate)
    requires
        !rate.negative(),
    ensures
        annuity_present_value_spec(seq![amount], rate, AnnuityKind::Regular)
            == single_sum_present_value_spec(amount, rate, 1),
        annuity_future_value_spec(seq![amount], rate, AnnuityKind::Regular) == Ok::<int, ValueError>(
            amount,
        ),
        annuity_future_value_spec(seq![amount], rate, AnnuityKind::Due)
            == single_sum_future_value_spec(amount, rate, 1),
{
    let flows = seq![amount];
    let p = rate.growth();
    let q = RATE_SCALE as int;
    reveal_with_fuel(series_sum, 2);
    lemma_pow0(p);
    lemma_pow1(p);
    lemma_pow1(q);
    assert(flows.len() == 1);
    assert(flows[0] == amount);
    assert(series_sum(flows, p, q, 1) == amount * pow(q, 1) * pow(p, 0));
    assert(amount * q * 1 == amount * q) by (nonlinear_arith);
    assert(series_sum(flows, p, q, 1) == amount * q);
    lemma_round_div_exact(amount, q);
    assert(pow(q, 2) == q * q) by {
        reveal_with_fuel(pow, 3);
    }
    assert(amount * q * p == (amount * p) * q) by (nonlinear_arith);
    assert(round_div((amount * p) * q, q * q) == round_div(amount * p, q)) by {
        lemma_round_div_common_factor(amount * p, q, q);
    }
}

} // verus!
