//! Exact time-value-of-money arithmetic on whole cents.
//!
//! Amounts are integer cents, rates are integer parts per million, and every
//! result is the mathematically exact quotient rounded once to the nearest
//! cent. Nothing overflows: results are held in an unbounded [`Money`].

pub mod annuity;
pub mod laws;
pub mod money;
pub mod natural;
pub mod rate;
pub mod rounding;
pub mod single;
pub mod timing;
pub mod valuation;

pub use annuity::{annuity_future_value, annuity_present_value, Annuity, CashFlows};
pub use money::Money;
pub use rate::{Rate, RATE_SCALE};
pub use single::{single_sum_future_value, single_sum_present_value, SingleSum};
pub use timing::{AnnuityKind, Due, Regular, ValueError};
pub use valuation::TimeValue;
