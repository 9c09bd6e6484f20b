//! Showing an instant as a calendar date.

use vstd::prelude::*;

verus! {

/// The UTC calendar date of an instant as day, month and year with hyphens
/// between (`%d-%m-%Y`), if the calendar reaches that far.
pub uninterp spec fn day_month_year(micros: i64) -> Option<Seq<char>>;

/// Shows an instant, in microseconds since the Unix epoch, as `dd-mm-yyyy`.
///
/// Trusted: `chrono::DateTime::from_timestamp_micros` turns the number into
/// a UTC date and time, or `None` beyond chrono's range of years, and
/// `DateTime::format` with `%d-%m-%Y` prints its date. The result depends on
/// the number alone. It is named, not spelled out.
#[verifier::external_body]
pub(crate) fn format_day_month_year(micros: i64) -> (text: Option<String>)
    ensures
        text.deep_view() == day_month_year(micros),
{
    match chrono::DateTime::from_timestamp_micros(micros) {
        Some(at) => Some(at.format("%d-%m-%Y").to_string()),
        None => None,
    }
}

/// Shows an instant that may be missing. `Err` where there is an instant
/// that the calendar does not reach.
pub open spec fn shown_optional(at: Option<i64>) -> Result<Option<Seq<char>>, ()> {
    match at {
        None => Ok(None),
        Some(micros) => match day_month_year(micros) {
            Some(text) => Ok(Some(text)),
            None => Err(()),
        },
    }
}

pub(crate) fn format_optional(at: Option<i64>) -> (text: Result<Option<String>, ()>)
    ensures
        match text {
            Ok(shown) => shown_optional(at) == Ok::<Option<Seq<char>>, ()>(shown.deep_view()),
            Err(e) => shown_optional(at) == Err::<Option<Seq<char>>, ()>(e),
        },
{
    match at {
        None => Ok(None),
        Some(micros) => match format_day_month_year(micros) {
            Some(text) => Ok(Some(text)),
            None => Err(()),
        },
    }
}

} // verus!
