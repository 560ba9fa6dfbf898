//! Civil dates and times as seconds, computed by the `chrono` crate.

use vstd::prelude::*;

verus! {

/// The seconds from 1970-01-01 00:00:00 to a civil date and time, as
/// `chrono` counts them; `None` where `chrono` takes the date or the time
/// as invalid.
pub uninterp spec fn civil_seconds(
    year: i32,
    month: u32,
    day: u32,
    hour: u32,
    minute: u32,
    second: u32,
) -> Option<i64>;

/// `NaiveDate::from_ymd_opt`, `NaiveDate::and_hms_opt` and the timestamp of
/// the result, of the `chrono` crate. Trusted: the result depends on the
/// six numbers alone.
#[verifier::external_body]
pub(crate) fn naive_date_time(
    year: i32,
    month: u32,
    day: u32,
    hour: u32,
    minute: u32,
    second: u32,
) -> (r: Option<i64>)
    ensures
        r == civil_seconds(year, month, day, hour, minute, second),
{
    match chrono::NaiveDate::from_ymd_opt(year, month, day) {
        Some(date) => match date.and_hms_opt(hour, minute, second) {
            Some(date_time) => Some(date_time.and_utc().timestamp()),
            None => None,
        },
        None => None,
    }
}

/// The seconds from 1970-01-01 00:00:00 to a civil date and time, where
/// that is a valid one.
pub fn seconds_of(year: i32, month: u32, day: u32, hour: u32, minute: u32, second: u32) -> (r:
    Option<i64>)
    ensures
        r == civil_seconds(year, month, day, hour, minute, second),
{
    naive_date_time(year, month, day, hour, minute, second)
}

} // verus!
