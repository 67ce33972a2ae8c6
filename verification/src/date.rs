//! Calendar dates, and reading one from text.

use chrono::format::ParseError;
use chrono::Datelike;
use chrono::NaiveDate;
use vstd::prelude::*;

verus! {

/// A date of the calendar, without a time of day.
#[derive(Clone, Copy, Debug, PartialEq, Eq, Structural)]
pub struct CalendarDate {
    pub year: i32,
    /// The month of the year, counted from 1.
    pub month: u32,
    /// The day of the month, counted from 1.
    pub day: u32,
}

impl CalendarDate {
    /// The month and the day lie within the bounds of every calendar: this
    /// does not say that the month has that many days.
    pub open spec fn in_range(self) -> bool {
        &&& 1 <= self.month <= 12
        &&& 1 <= self.day <= 31
    }
}

/// The error that `chrono` gives for text that holds no date.
#[verifier::external_type_specification]
#[verifier::external_body]
pub struct ExParseError(ParseError);

/// The format of a statement's dates: day, month and year, as numbers with
/// a slash between them.
pub const DAY_MONTH_YEAR: &'static str = "%d/%m/%Y";

/// The date that `chrono::NaiveDate::parse_from_str` reads from `text` under
/// `format`, or `None` where it reports an error.
pub uninterp spec fn date_in_text(text: Seq<char>, format: Seq<char>) -> Option<CalendarDate>;

/// Calls `chrono::NaiveDate::parse_from_str` and takes year, month and day
/// out of the date with `chrono::Datelike`. The call reads nothing but its
/// two arguments, so its outcome is named by `date_in_text`; `chrono`
/// documents the month as 1 to 12 and the day as 1 to 31. The claim is made
/// for the day/month/year format alone.
#[verifier::external_body]
fn parse_from_str(text: &str, format: &str) -> (r: Result<CalendarDate, ParseError>)
    requires
        format@ == DAY_MONTH_YEAR@,
    ensures
        r is Ok <==> date_in_text(text@, format@) is Some,
        r matches Ok(date) ==> date_in_text(text@, format@) == Some(date) && date.in_range(),
{
    let date = NaiveDate::parse_from_str(text, format)?;
    Ok(CalendarDate { year: date.year(), month: date.month(), day: date.day() })
}

/// The date that `text` holds in day/month/year form.
pub open spec fn day_month_year(text: Seq<char>) -> Option<CalendarDate> {
    date_in_text(text, DAY_MONTH_YEAR@)
}

/// Reads a date in day/month/year form, such as `05/03/2024` for the fifth
/// of March. Text in any other form gives `None`.
pub fn parse_day_month_year(text: &str) -> (r: Option<CalendarDate>)
    ensures
        r == day_month_year(text@),
        r matches Some(date) ==> date.in_range(),
{
    match parse_from_str(text, DAY_MONTH_YEAR) {
        Ok(date) => Some(date),
        Err(_) => None,
    }
}

} // verus!
