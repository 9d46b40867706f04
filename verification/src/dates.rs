//! Calendar dates inside the library are plain day numbers (days of the
//! common era); parsing an ISO-8601 date string into a day number is done by
//! chrono behind a trusted wrapper.

use vstd::prelude::*;

verus! {

/// The day number that an ISO-8601 date string denotes, or None when the
/// string is not a valid date.
pub uninterp spec fn parsed_date(s: Seq<char>) -> Option<i64>;

/// Relies on chrono::NaiveDate::from_str (ISO-8601 calendar date parsing) and
/// chrono::Datelike::num_days_from_ce (the day count since the common era):
/// both depend on the characters of the string alone.
#[verifier::external_body]
pub fn parse_date(s: &str) -> (r: Option<i64>)
    ensures
        r == parsed_date(s@),
{
    match <chrono::NaiveDate as core::str::FromStr>::from_str(s) {
        Ok(d) => Some(chrono::Datelike::num_days_from_ce(&d) as i64),
        Err(_) => None,
    }
}

} // verus!
