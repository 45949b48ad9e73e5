//! The ways in which a call of this crate fails.

use vstd::prelude::*;
use vstd::string::StringExecFns;

verus! {

/// A document is not what it should be: it cannot be read, or it lacks a
/// part that the crate needs.
#[derive(Clone, Copy, Debug, PartialEq, Eq, Structural)]
pub struct ParseFailure;

/// A plan has no day for the weekday of a substitution day.
#[derive(Clone, Debug, PartialEq, Eq)]
pub struct PlanMismatch {
    pub weekday: String,
}

/// The opening words of the report of a `PlanMismatch`.
pub const PLAN_INCOMPLETE: &'static str = "plan incomplete for weekday ";

impl PlanMismatch {
    /// The report for the user: which weekday the plan lacks.
    pub fn message(&self) -> (r: String)
        ensures
            r@ == PLAN_INCOMPLETE@ + self.weekday@,
    {
        String::from_str(PLAN_INCOMPLETE).concat(self.weekday.as_str())
    }
}

/// What is said to the user of any failure that the user cannot mend.
pub const TRY_AGAIN: &'static str = "try again shortly";

/// Every way in which serving a user can fail.
#[derive(Clone, Debug, PartialEq, Eq)]
pub enum Failure {
    /// A source could not be reached; the next round tries again.
    Fetch,
    /// A source gave what cannot be read; the next round tries again.
    Parse,
    /// The days served are in use elsewhere just now.
    CacheBusy,
    /// The calendar does not know the date; the first cycle is taken.
    CalendarUnresolved,
    /// The plan of the user has no day for this weekday.
    PlanMismatch(String),
}

impl Failure {
    /// What the user is told: to try again, or what the plan lacks.
    pub fn report(&self) -> (r: String)
        ensures
            r@ == match *self {
                Failure::PlanMismatch(weekday) => PLAN_INCOMPLETE@ + weekday@,
                _ => TRY_AGAIN@,
            },
    {
        match self {
            Failure::PlanMismatch(weekday) => String::from_str(PLAN_INCOMPLETE).concat(
                weekday.as_str(),
            ),
            _ => String::from_str(TRY_AGAIN),
        }
    }

    /// The failure that a plan without the weekday is.
    pub fn of_mismatch(mismatch: PlanMismatch) -> (r: Failure)
        ensures
            r == Failure::PlanMismatch(mismatch.weekday),
    {
        Failure::PlanMismatch(mismatch.weekday)
    }
}

} // verus!
