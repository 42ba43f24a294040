//! What every valuation request answers: its present and its future value.

use vstd::prelude::*;
use crate::money::{valued, Money};
use crate::timing::ValueError;

verus! {

/// A request that can be valued today and at the end of its last period.
pub trait TimeValue {
    /// The present value in cents, or the reason why there is none.
    spec fn present_value_spec(&self) -> Result<int, ValueError>;

    /// The future value in cents, or the reason why there is none.
    spec fn future_value_spec(&self) -> Result<int, ValueError>;

    /// The value today of what the request pays.
    fn present_value(&self) -> (out: Result<Money, ValueError>)
        ensures
            valued(out) == self.present_value_spec(),
    ;

    /// The value at the end of the last period of what the request pays.
    fn future_value(&self) -> (out: Result<Money, ValueError>)
        ensures
            valued(out) == self.future_value_spec(),
    ;
}

} // verus!
