//! A series of cash flows, one per period, valued at a fixed rate with the
//! payments at the end (regular) or at the start (due) of each period.

use vstd::prelude::*;
use vstd::arithmetic::power::{lemma_pow0, pow};
use crate::money::{valued, Money};
use crate::rate::{Rate, RATE_SCALE};
use crate::rounding::{lemma_pow_next, round_div};
use crate::timing::{AnnuityKind, ValueError};
use crate::valuation::TimeValue;

verus! {

/// The cash flows of an annuity in cents, the first one in period 1.
#[derive(Debug)]
pub enum CashFlows {
    /// The same amount in each of `count` periods.
    Repeated { amount: i64, count: u32 },
    /// One amount for each period, in order.
    Explicit(Vec<i64>),
}

impl View for CashFlows {
    type V = Seq<int>;

    open spec fn view(&self) -> Seq<int> {
        match self {
            CashFlows::Repeated { amount, count } => Seq::new(
                *count as nat,
                |i: int| *amount as int,
            ),
            CashFlows::Explicit(series) => Seq::new(series@.len(), |i: int| series@[i] as int),
        }
    }
}

impl CashFlows {
    /// The number of periods.
    pub fn len(&self) -> (count: usize)
        ensures
            count == self@.len(),
    {
        match self {
            CashFlows::Repeated { amount, count } => *count as usize,
            CashFlows::Explicit(series) => series.len(),
        }
    }

    /// The cash flow of period `index + 1`.
    pub fn amount_at(&self, index: usize) -> (amount: i64)
        requires
            index < self@.len(),
        ensures
            amount == self@[index as int],
    {
        match self {
            CashFlows::Repeated { amount, count } => *amount,
            CashFlows::Explicit(series) => series[index],
        }
    }
}

/// The first `k` cash flows on the common denominator of the series: the sum
/// over `i` from 1 to `k` of `flows[i - 1] * q^i * p^(n - i)`, where `n` is
/// the length of the series.
///
/// With `p / q` the growth factor of one period, the whole sum divided by
/// `p^n` is the sum of each flow discounted over `i` periods, and divided by
/// `q^n` it is the sum of each flow compounded over `n - i` periods.
pub open spec fn series_sum(flows: Seq<int>, p: int, q: int, k: nat) -> int
    decreases k,
{
    if k == 0 {
        0
    } else {
        series_sum(flows, p, q, (k - 1) as nat) + flows[k - 1] * pow(q, k) * pow(
            p,
            (flows.len() - k) as nat,
        )
    }
}

/// The present value in cents of a series of cash flows.
///
/// Regular: the sum of each flow discounted over as many periods as its
/// place in the series, rounded. Due: the regular present value grown by one
/// period, rounded again. A negative rate is refused first, then an empty
/// series.
pub open spec fn annuity_present_value_spec(flows: Seq<int>, rate: Rate, kind: AnnuityKind)
    -> Result<int, ValueError> {
    if rate.negative() {
        Err(ValueError::NegativeDiscount)
    } else if flows.len() == 0 {
        Err(ValueError::EmptyCashFlow)
    } else {
        let regular = round_div(
            series_sum(flows, rate.growth(), RATE_SCALE as int, flows.len()),
            pow(rate.growth(), flows.len()),
        );
        match kind {
            AnnuityKind::Regular => Ok(regular),
            AnnuityKind::Due => Ok(round_div(regular * rate.growth(), RATE_SCALE as int)),
        }
    }
}

/// The future value in cents of a series of cash flows at the end of its
/// last period.
///
/// Regular: the sum of each flow compounded over the periods that follow
/// its own, so that the last flow earns nothing, rounded. Due: each flow
/// earns one period more. A negative rate is refused first, then an empty
/// series.
pub open spec fn annuity_future_value_spec(flows: Seq<int>, rate: Rate, kind: AnnuityKind)
    -> Result<int, ValueError> {
    if rate.negative() {
        Err(ValueError::NegativeDiscount)
    } else if flows.len() == 0 {
        Err(ValueError::EmptyCashFlow)
    } else {
        let total = series_sum(flows, rate.growth(), RATE_SCALE as int, flows.len());
        match kind {
            AnnuityKind::Regular => Ok(round_div(total, pow(RATE_SCALE as int, flows.len()))),
            AnnuityKind::Due => Ok(
                round_div(total * rate.growth(), pow(RATE_SCALE as int, flows.len() + 1)),
            ),
        }
    }
}

/// Adds up the whole series on its common denominator.
pub fn series_total(flows: &CashFlows, p: u64, q: u64) -> (total: Money)
    ensures
        total@ == series_sum(flows@, p as int, q as int, flows@.len()),
{
    let n: usize = flows.len();
    let mut total: Money = Money::from_cents(0);
    let mut discount: Money = Money::from_cents(1);
    let mut k: usize = 0;
    proof {
        lemma_pow0(q as int);
        assert(0 * pow(p as int, n as nat) == 0) by (nonlinear_arith);
    }
    while k < n
        invariant
            n == flows@.len(),
            k <= n,
            discount@ == pow(q as int, k as nat),
            total@ * pow(p as int, (n - k) as nat) == series_sum(
                flows@,
                p as int,
                q as int,
                k as nat,
            ),
        decreases n - k,
    {
        let amount: i64 = flows.amount_at(k);
        discount = discount.scaled(q);
        let term: Money = discount.scaled_signed(amount);
        let carried: Money = total.scaled(p);
        proof {
            lemma_pow_next(q as int, k as nat);
            lemma_pow_next(p as int, (n - k - 1) as nat);
            let high = pow(p as int, (n - k - 1) as nat);
            let low = pow(q as int, (k + 1) as nat);
            let before = total@;
            assert((before * p + low * amount) * high == before * (high * p) + amount * low * high)
                by (nonlinear_arith);
        }
        total = carried.plus(&term);
        k += 1;
    }
    proof {
        lemma_pow0(p as int);
    }
    total
}

/// Values today a series of cash flows that are paid at the end of each
/// period.
fn regular_present_value(flows: &CashFlows, rate: Rate) -> (out: Result<Money, ValueError>)
    ensures
        valued(out) == annuity_present_value_spec(flows@, rate, AnnuityKind::Regular),
{
    if rate.is_negative() {
        return Err(ValueError::NegativeDiscount);
    }
    let n: usize = flows.len();
    if n == 0 {
        return Err(ValueError::EmptyCashFlow);
    }
    let growth: u64 = rate.growth_parts();
    Ok(series_total(flows, growth, RATE_SCALE).rounded_quotient(growth, n, 1))
}

/// Values today a series of cash flows. For payments at the start of each
/// period it values the series as a regular one and lets the result grow by
/// one period.
pub fn annuity_present_value(flows: &CashFlows, rate: Rate, kind: AnnuityKind) -> (out: Result<
    Money,
    ValueError,
>)
    ensures
        valued(out) == annuity_present_value_spec(flows@, rate, kind),
        rate.negative() ==> out == Err::<Money, ValueError>(ValueError::NegativeDiscount),
        !rate.negative() && flows@.len() == 0 ==> out == Err::<Money, ValueError>(
            ValueError::EmptyCashFlow,
        ),
        !rate.negative() && flows@.len() > 0 ==> out is Ok,
{
    if rate.is_negative() {
        return Err(ValueError::NegativeDiscount);
    }
    match kind {
        AnnuityKind::Regular => regular_present_value(flows, rate),
        AnnuityKind::Due => match regular_present_value(flows, rate) {
            Err(error) => Err(error),
            Ok(regular) => {
                proof {
                    lemma_pow0(RATE_SCALE as int);
                }
                let growth: u64 = rate.growth_parts();
                Ok(regular.scaled(growth).rounded_quotient(RATE_SCALE, 0, RATE_SCALE))
            },
        },
    }
}

/// Values a series of cash flows at the end of its last period.
pub fn annuity_future_value(flows: &CashFlows, rate: Rate, kind: AnnuityKind) -> (out: Result<
    Money,
    ValueError,
>)
    ensures
        valued(out) == annuity_future_value_spec(flows@, rate, kind),
        rate.negative() ==> out == Err::<Money, ValueError>(ValueError::NegativeDiscount),
        !rate.negative() && flows@.len() == 0 ==> out == Err::<Money, ValueError>(
            ValueError::EmptyCashFlow,
        ),
        !rate.negative() && flows@.len() > 0 ==> out is Ok,
{
    if rate.is_negative() {
        return Err(ValueError::NegativeDiscount);
    }
    let n: usize = flows.len();
    if n == 0 {
        return Err(ValueError::EmptyCashFlow);
    }
    let growth: u64 = rate.growth_parts();
    let total: Money = series_total(flows, growth, RATE_SCALE);
    match kind {
        AnnuityKind::Regular => Ok(total.rounded_quotient(RATE_SCALE, n, 1)),
        AnnuityKind::Due => {
            proof {
                lemma_pow_next(RATE_SCALE as int, n as nat);
            }
            Ok(total.scaled(growth).rounded_quotient(RATE_SCALE, n, RATE_SCALE))
        },
    }
}

/// A series of cash flows with its rate and the timing of its payments.
#[derive(Debug)]
pub struct Annuity {
    cashflows: CashFlows,
    rate: Rate,
    kind: AnnuityKind,
}

impl Annuity {
    /// The cash flows in cents, period by period.
    pub closed spec fn flows(&self) -> Seq<int> {
        self.cashflows@
    }

    /// The rate per period.
    pub closed spec fn spec_rate(&self) -> Rate {
        self.rate
    }

    /// The timing of the payments.
    pub closed spec fn spec_kind(&self) -> AnnuityKind {
        self.kind
    }

    /// A regular annuity that pays `cashflows` cents in each of `period`
    /// periods.
    pub fn new(cashflows: i64, rate: Rate, period: u32) -> (annuity: Self)
        ensures
            annuity.flows() == Seq::new(period as nat, |i: int| cashflows as int),
            annuity.rate() == rate,
            annuity.kind() == AnnuityKind::Regular,
    {
        Self {
            cashflows: CashFlows::Repeated { amount: cashflows, count: period },
            rate,
            kind: AnnuityKind::Regular,
        }
    }

    /// An annuity over any cash flows, with the timing given.
    pub fn with_cash_flows(cashflows: CashFlows, rate: Rate, kind: AnnuityKind) -> (annuity: Self)
        ensures
            annuity.flows() == cashflows@,
            annuity.rate() == rate,
            annuity.kind() == kind,
    {
        Self { cashflows, rate, kind }
    }

    /// The same annuity with the timing `kind`.
    pub fn with_kind(self, kind: AnnuityKind) -> (annuity: Self)
        ensures
            annuity.flows() == self.flows(),
            annuity.rate() == self.rate(),
            annuity.kind() == kind,
    {
        Self { cashflows: self.cashflows, rate: self.rate, kind }
    }

    /// The rate per period.
    #[verifier::when_used_as_spec(spec_rate)]
    pub fn rate(&self) -> (rate: Rate)
        ensures
            rate == self.rate(),
    {
        self.rate
    }

    /// The timing of the payments.
    #[verifier::when_used_as_spec(spec_kind)]
    pub fn kind(&self) -> (kind: AnnuityKind)
        ensures
            kind == self.kind(),
    {
        self.kind
    }
}

impl TimeValue for Annuity {
    open spec fn present_value_spec(&self) -> Result<int, ValueError> {
        annuity_present_value_spec(self.flows(), self.rate(), self.kind())
    }

    open spec fn future_value_spec(&self) -> Result<int, ValueError> {
        annuity_future_value_spec(self.flows(), self.rate(), self.kind())
    }

    fn present_value(&self) -> (out: Result<Money, ValueError>) {
        annuity_present_value(&self.cashflows, self.rate, self.kind)
    }

    fn future_value(&self) -> (out: Result<Money, ValueError>) {
        annuity_future_value(&self.cashflows, self.rate, self.kind)
    }
}

} // verus!
