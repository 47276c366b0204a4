//! The trusted calendar boundary.
//!
//! Everything the library needs from the Gregorian calendar beyond plain
//! arithmetic — turning a year/month/day triple into a day count, and
//! labelling a day with its ISO-8601 week and month — is computed by the
//! `chrono` crate behind the three wrappers below. Each result is a pure
//! function of the arguments, so it is given an uninterpreted name that the
//! wrappers' contracts share with the rest of the library.
//!
//! Day counts follow `chrono::Datelike::num_days_from_ce`: day 1 is
//! 0001-01-01 of the proleptic Gregorian calendar, which is a Monday. All
//! week and weekday arithmetic in the library rests on that origin.

use vstd::prelude::*;

use crate::date::Date;
use chrono::Datelike;

verus! {

/// The day count of 0001-01-01, the first day the library handles.
pub const DAY_NUM_MIN: i64 = 1;

/// The day count of 9999-12-31, the last day the library handles
/// (the 3652059 days of years 1 through 9999).
pub const DAY_NUM_MAX: i64 = 3652059;

/// The day count of the date `year`-`month`-`day`, with 0001-01-01 as day 1.
pub uninterp spec fn day_num_of(year: int, month: int, day: int) -> int;

/// The ISO-8601 (year, week number) pair of the day with count `day`.
pub uninterp spec fn iso_label_of(day: int) -> (int, int);

/// The month number (1 = January) of the day with count `day`.
pub uninterp spec fn month_of(day: int) -> int;

/// Relies on `chrono::NaiveDate::from_ymd_opt` (`Some` for every real
/// calendar day within `NaiveDate`'s year range, which covers years
/// 1..=9999) and `chrono::Datelike::num_days_from_ce` (the day's number in
/// the proleptic Gregorian calendar, with 0001-01-01 as day 1; days of years
/// 1..=9999 are therefore numbered 1..=3652059).
#[verifier::external_body]
pub(crate) fn date_day_number(d: &Date) -> (r: i64)
    requires
        d.wf(),
    ensures
        r == day_num_of(d.year as int, d.month as int, d.day as int),
        DAY_NUM_MIN <= r <= DAY_NUM_MAX,
{
    let nd = chrono::NaiveDate::from_ymd_opt(d.year, d.month as u32, d.day as u32).unwrap();
    nd.num_days_from_ce() as i64
}

/// Relies on `chrono::NaiveDate::from_num_days_from_ce_opt` (`Some` for
/// every day count naming a date within `NaiveDate`'s range, which covers
/// 1..=3652059), `chrono::Datelike::iso_week`, and `chrono::IsoWeek::year`
/// and `chrono::IsoWeek::week` (the week number ranges from 1 to 53).
#[verifier::external_body]
pub(crate) fn iso_week_label(day: i64) -> (r: (i32, u8))
    requires
        DAY_NUM_MIN <= day <= DAY_NUM_MAX,
    ensures
        r.0 == iso_label_of(day as int).0,
        r.1 == iso_label_of(day as int).1,
        1 <= r.1 <= 53,
{
    let nd = chrono::NaiveDate::from_num_days_from_ce_opt(day as i32).unwrap();
    let w = nd.iso_week();
    (w.year(), w.week() as u8)
}

/// Relies on `chrono::NaiveDate::from_num_days_from_ce_opt` (`Some` for
/// every day count naming a date within `NaiveDate`'s range, which covers
/// 1..=3652059) and `chrono::Datelike::month` (the month number starting
/// from 1).
#[verifier::external_body]
pub(crate) fn month_number(day: i64) -> (r: u8)
    requires
        DAY_NUM_MIN <= day <= DAY_NUM_MAX,
    ensures
        r == month_of(day as int),
        1 <= r <= 12,
{
    let nd = chrono::NaiveDate::from_num_days_from_ce_opt(day as i32).unwrap();
    nd.month() as u8
}

} // verus!
