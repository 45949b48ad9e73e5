//! Calendar dates as the crate orders them, and how a date is read from text.

use chrono::Datelike;
use vstd::prelude::*;

verus! {

/// A calendar date. Dates are ordered by year, then month, then day.
#[derive(Clone, Copy, Debug, PartialEq, Eq, Structural)]
pub struct Date {
    pub year: i32,
    pub month: u32,
    pub day: u32,
}

/// The format in which the source documents write a date: day, month and
/// year, separated by full stops.
pub const DATE_FORMAT: &'static str = "%d.%m.%Y";

/// What `chrono::NaiveDate::parse_from_str` makes of the text `s` under the
/// format `format`: the date it reads, or `None` where it reports an error.
pub uninterp spec fn parsed_date(s: Seq<char>, format: Seq<char>) -> Option<Date>;

impl Date {
    /// Whether `self` is an earlier day than `other`.
    pub open spec fn before(self, other: Date) -> bool {
        ||| self.year < other.year
        ||| self.year == other.year && self.month < other.month
        ||| self.year == other.year && self.month == other.month && self.day < other.day
    }

    /// Whether `self` is the same day as `other` or an earlier one.
    pub open spec fn at_most(self, other: Date) -> bool {
        self == other || self.before(other)
    }

    /// The date that pads a calendar: later than any day a document names.
    pub open spec fn far_future_spec() -> Date {
        Date { year: 262143, month: 12, day: 31 }
    }

    /// The date that pads a calendar: later than any day a document names.
    #[verifier::when_used_as_spec(far_future_spec)]
    pub fn far_future() -> (r: Date)
        ensures
            r == Date::far_future_spec(),
    {
        Date { year: 262143, month: 12, day: 31 }
    }

    /// Whether `self` is an earlier day than `other`.
    pub fn is_before(&self, other: &Date) -> (r: bool)
        ensures
            r == self.before(*other),
    {
        self.year < other.year || (self.year == other.year && (self.month < other.month || (
        self.month == other.month && self.day < other.day)))
    }

    /// Whether `self` is the same day as `other` or an earlier one.
    pub fn is_at_most(&self, other: &Date) -> (r: bool)
        ensures
            r == self.at_most(*other),
    {
        !other.is_before(self)
    }

    /// Reads a date written as day, month and year with `chrono`.
    pub fn parse(s: &str) -> (r: Option<Date>)
        ensures
            r == parsed_date(s@, DATE_FORMAT@),
    {
        parse_with(s, DATE_FORMAT)
    }
}

/// Calls `chrono::NaiveDate::parse_from_str` and hands back the year, month
/// and day of the date it read. The contract only names the outcome: the same
/// text under the same format always gives the same answer.
#[verifier::external_body]
fn parse_with(s: &str, format: &str) -> (r: Option<Date>)
    ensures
        r == parsed_date(s@, format@),
{
    match chrono::NaiveDate::parse_from_str(s, format) {
        Ok(d) => Some(Date { year: d.year(), month: d.month(), day: d.day() }),
        Err(_) => None,
    }
}

} // verus!
