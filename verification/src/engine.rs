//! The calls into `chrono`: the clock, the day of the week, moving a date by
//! whole days, and the strftime formatter.
//!
//! Verus does not look into `chrono`.  Each function here states what is
//! taken on trust about one call; everything else in the crate is proved
//! from these statements.

use chrono::{Datelike, Local, NaiveDate, TimeDelta, Timelike, Utc};
use vstd::prelude::*;
use crate::calendar::{
    day_number, days_in_month, is_calendar_day, is_time_of_day, weekday_number,
};
use crate::decimal::padded_text;

verus! {

/// The calendar day that lies `days` days after the given one, as `chrono`
/// computes it; `None` where `chrono` has no such day.
pub uninterp spec fn date_after_days(year: int, month: int, day: int, days: int) -> Option<
    (int, int, int),
>;

/// What `chrono` writes for a UTC instant under a strftime template; `None`
/// where it refuses the template.
pub uninterp spec fn strftime_text(
    year: int,
    month: int,
    day: int,
    hour: int,
    minute: int,
    second: int,
    nanosecond: int,
    template: Seq<char>,
) -> Option<Seq<char>>;

/// `Utc::now` of `chrono`, taken apart into year, month, day, hour, minute,
/// second and nanoseconds.  Nothing is claimed of the values: they are
/// whatever the system clock says.
#[verifier::external_body]
pub(crate) fn utc_now() -> (fields: (i32, u32, u32, u32, u32, u32, u32)) {
    let now = Utc::now();
    (
        now.year(),
        now.month(),
        now.day(),
        now.hour(),
        now.minute(),
        now.second(),
        now.timestamp_subsec_nanos(),
    )
}

/// The year of `Local::now` of `chrono`.  Nothing is claimed of the value.
#[verifier::external_body]
pub(crate) fn local_year() -> (year: i32) {
    Local::now().year()
}

/// `NaiveDate::weekday` of `chrono`, as `Weekday::num_days_from_monday`
/// numbers it.  Claimed: `chrono` knows every day of a four-digit year, and
/// its weekday is the one that the count of days from the first of
/// January of year 0, a Saturday, gives in the proleptic Gregorian
/// calendar.
#[verifier::external_body]
pub(crate) fn weekday_from_monday(year: i32, month: u32, day: u32) -> (n: u32)
    requires
        is_calendar_day(year as int, month as int, day as int),
    ensures
        n == weekday_number(year as int, month as int, day as int),
{
    NaiveDate::from_ymd_opt(year, month, day).unwrap().weekday().num_days_from_monday()
}

/// `NaiveDate::checked_add_signed` of `chrono` with a `TimeDelta` of whole
/// days.  Claimed: the outcome depends on the day and the count alone, and
/// a day that comes out is a day of the proleptic Gregorian calendar that
/// lies `days` days after the given one.
#[verifier::external_body]
pub(crate) fn shift_days(year: i32, month: u32, day: u32, days: i32) -> (r: Option<
    (i32, u32, u32),
>)
    requires
        is_calendar_day(year as int, month as int, day as int),
    ensures
        r matches Some(moved) ==> date_after_days(
            year as int,
            month as int,
            day as int,
            days as int,
        ) == Some((moved.0 as int, moved.1 as int, moved.2 as int)),
        r is None ==> date_after_days(year as int, month as int, day as int, days as int) is None,
        r matches Some(moved) ==> (1 <= moved.1 <= 12 && 1 <= moved.2 <= days_in_month(
            moved.0 as int,
            moved.1 as int,
        )),
        r matches Some(moved) ==> day_number(moved.0 as int, moved.1 as int, moved.2 as int)
            == day_number(year as int, month as int, day as int) + days,
{
    let date = NaiveDate::from_ymd_opt(year, month, day).unwrap();
    let moved = date.checked_add_signed(TimeDelta::days(days as i64))?;
    Some((moved.year(), moved.month(), moved.day()))
}

/// `DateTime::<Utc>::format` of `chrono`, written out with
/// `DelayedFormat::write_to`.  Claimed: the text depends on the instant and
/// the template alone; a template that `chrono` refuses gives `None`; and
/// the template `%Y` is never refused and gives the year of a four-digit
/// year as four digits, with zeros in front.
#[verifier::external_body]
pub(crate) fn strftime(
    year: i32,
    month: u32,
    day: u32,
    hour: u32,
    minute: u32,
    second: u32,
    nanosecond: u32,
    template: &str,
) -> (r: Option<String>)
    requires
        is_calendar_day(year as int, month as int, day as int),
        is_time_of_day(hour as int, minute as int, second as int, nanosecond as int),
    ensures
        r matches Some(text) ==> strftime_text(
            year as int,
            month as int,
            day as int,
            hour as int,
            minute as int,
            second as int,
            nanosecond as int,
            template@,
        ) == Some(text@),
        r is None ==> strftime_text(
            year as int,
            month as int,
            day as int,
            hour as int,
            minute as int,
            second as int,
            nanosecond as int,
            template@,
        ) is None,
        r is Some || template@ != "%Y"@,
        r matches Some(text) ==> (template@ == "%Y"@ ==> text@ == padded_text(year as nat, 4)),
{
    let date = NaiveDate::from_ymd_opt(year, month, day).unwrap();
    let instant = date.and_hms_nano_opt(hour, minute, second, nanosecond).unwrap().and_utc();
    let mut text = String::new();
    match instant.format(template).write_to(&mut text) {
        Ok(()) => Some(text),
        Err(_) => None,
    }
}

} // verus!
