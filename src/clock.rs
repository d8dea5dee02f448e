//! Calendar and clock values, and the calls into chrono that produce them.
//!
//! A calendar date is a day number counted from 1970-01-01 (day 0). An instant
//! is a count of microseconds since 1970-01-01T00:00:00, read as UTC. A clock
//! time is a count of seconds since midnight.
use vstd::prelude::*;

verus! {

/// Day number of the earliest date chrono represents (January 1 of year -262143).
pub const MIN_DAY: i32 = -96465292;

/// Day number of the latest date chrono represents (December 31 of year 262142).
pub const MAX_DAY: i32 = 95026236;

pub const SECONDS_PER_DAY: i64 = 86400;

pub const MICROS_PER_SECOND: i64 = 1000000;

pub const MICROS_PER_DAY: i64 = 86400000000;

/// A day number that chrono can represent as a date.
pub open spec fn valid_day(d: int) -> bool {
    MIN_DAY <= d <= MAX_DAY
}

/// The instant at `secs` seconds after the midnight that starts day `day`.
pub open spec fn instant_of(day: int, secs: int) -> int {
    day * MICROS_PER_DAY + secs * MICROS_PER_SECOND
}

/// What chrono reads from `s` with the format "%H:%M", as seconds since midnight.
pub uninterp spec fn parsed_clock(s: Seq<char>) -> Option<u32>;

/// What chrono reads from `s` with the format "%Y-%m-%d", as a day number.
pub uninterp spec fn parsed_date(s: Seq<char>) -> Option<i32>;

/// Relies on chrono's `NaiveTime::parse_from_str` with "%H:%M" and on
/// `Timelike::num_seconds_from_midnight`, which is below 86400.
#[verifier::external_body]
pub(crate) fn parse_clock(s: &str) -> (r: Option<u32>)
    ensures
        r == parsed_clock(s@),
        r matches Some(t) ==> t < SECONDS_PER_DAY,
{
    match chrono::NaiveTime::parse_from_str(s, "%H:%M") {
        Ok(t) => Some(chrono::Timelike::num_seconds_from_midnight(&t)),
        Err(_) => None,
    }
}

/// Relies on chrono's `NaiveDate::parse_from_str` with "%Y-%m-%d" and on
/// `NaiveDate::to_epoch_days`; every `NaiveDate` lies between `NaiveDate::MIN`
/// and `NaiveDate::MAX`.
#[verifier::external_body]
pub(crate) fn parse_date(s: &str) -> (r: Option<i32>)
    ensures
        r == parsed_date(s@),
        r matches Some(d) ==> valid_day(d as int),
{
    match chrono::NaiveDate::parse_from_str(s, "%Y-%m-%d") {
        Ok(d) => Some(d.to_epoch_days()),
        Err(_) => None,
    }
}

/// Relies on chrono's `NaiveDate::from_epoch_days` and
/// `NaiveDate::checked_add_signed`: the date `n` days after day `d`, when both
/// dates are representable.
#[verifier::external_body]
pub(crate) fn add_days(d: i32, n: i64) -> (r: Option<i32>)
    requires
        0 <= n <= 6,
    ensures
        r == (if valid_day(d as int) && valid_day(d + n) {
            Some((d + n) as i32)
        } else {
            None
        }),
{
    match chrono::NaiveDate::from_epoch_days(d) {
        Some(date) => match date.checked_add_signed(chrono::TimeDelta::days(n)) {
            Some(later) => Some(later.to_epoch_days()),
            None => None,
        },
        None => None,
    }
}

/// Relies on chrono's `Utc::now` and `DateTime::timestamp_micros`: the current
/// time, of which nothing is promised.
#[verifier::external_body]
pub(crate) fn now_micros() -> (r: i64) {
    chrono::Utc::now().timestamp_micros()
}

} // verus!
