//! The two ways a valuation can fail, and the timing of an annuity's payments.

use vstd::prelude::*;
use vstd::std_specs::convert::FromSpecImpl;

verus! {

/// Why a valuation was refused.
#[derive(PartialEq, Eq, Debug, Clone, Copy, Structural)]
pub enum ValueError {
    /// The rate is below zero.
    NegativeDiscount,
    /// The series of cash flows holds no payment.
    EmptyCashFlow,
}

/// When in its period a payment of an annuity falls.
#[derive(PartialEq, Eq, Debug, Clone, Copy, Structural)]
pub enum AnnuityKind {
    /// At the end of the period.
    Regular,
    /// At the start of the period.
    Due,
}

impl Default for AnnuityKind {
    fn default() -> (kind: Self)
        ensures
            kind == AnnuityKind::Regular,
    {
        AnnuityKind::Regular
    }
}

/// Marker for payments at the end of each period; converts to
/// [`AnnuityKind::Regular`].
#[derive(Debug, Clone, Copy)]
pub struct Regular {}

/// Marker for payments at the start of each period; converts to
/// [`AnnuityKind::Due`].
#[derive(Debug, Clone, Copy)]
pub struct Due {}

impl From<Regular> for AnnuityKind {
    fn from(marker: Regular) -> (kind: Self) {
        AnnuityKind::Regular
    }
}

impl FromSpecImpl<Regular> for AnnuityKind {
    open spec fn obeys_from_spec() -> bool {
        true
    }

    open spec fn from_spec(marker: Regular) -> Self {
        AnnuityKind::Regular
    }
}

impl From<Due> for AnnuityKind {
    fn from(marker: Due) -> (kind: Self) {
        AnnuityKind::Due
    }
}

impl FromSpecImpl<Due> for AnnuityKind {
    open spec fn obeys_from_spec() -> bool {
        true
    }

    open spec fn from_spec(marker: Due) -> Self {
        AnnuityKind::Due
    }
}

} // verus!
