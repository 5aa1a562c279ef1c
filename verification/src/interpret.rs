//! The interpreter: from a free-form date expression to a timestamp.
//!
//! An expression is read in one of two ways, never both.  A keyword stands
//! for a day near today and is resolved against the clock; the era marker
//! plays no part in it.  Any other text is searched for a numeric date and
//! a numeric time, each on its own, and what is not found is zero.

use vstd::prelude::*;
use crate::calendar::{DateFields, InterpretError, ParsedDate};
use crate::engine::{date_after_days, shift_days, utc_now};
use crate::grammar::{
    era_marker, find, first_captures, has_era_marker, keyword_days, keyword_offset, Numerals,
    Pattern,
};
use crate::text::{chars_of, trim, trimmed};

verus! {

/// The year, month and day of the first numeric date in `text`: the
/// leftmost `MM/DD/YYYY`, or, where there is none, the leftmost
/// `YYYY/MM/DD`.
pub open spec fn first_date(text: Seq<char>) -> Option<(int, int, int)> {
    match first_captures(Pattern::MonthDayYear, text) {
        Some(mdy) => Some((mdy.2, mdy.0, mdy.1)),
        None => first_captures(Pattern::YearMonthDay, text),
    }
}

/// The hour, minute and second of the leftmost `HH:MM:SS` in `text`.
pub open spec fn first_time(text: Seq<char>) -> Option<(int, int, int)> {
    first_captures(Pattern::Time, text)
}

/// The fields that a numeric date and a numeric time give together, with
/// zeros for what was not found.
pub open spec fn zero_filled(
    date: Option<(int, int, int)>,
    time: Option<(int, int, int)>,
    is_bce: bool,
) -> DateFields {
    let ymd = match date {
        Some(found) => found,
        None => (0, 0, 0),
    };
    let hms = match time {
        Some(found) => found,
        None => (0, 0, 0),
    };
    DateFields {
        year: ymd.0,
        month: ymd.1,
        day: ymd.2,
        hour: hms.0,
        minute: hms.1,
        second: hms.2,
        nanosecond: 0,
        is_bce,
    }
}

/// What the numerals in `text` say.
pub open spec fn numeric_reading(text: Seq<char>) -> Result<DateFields, InterpretError> {
    let date = first_date(text);
    let time = first_time(text);
    let fields = zero_filled(date, time, has_era_marker(text));
    if date is None && time is None {
        Err(InterpretError::NoDateOrTimeFound)
    } else if fields.is_valid() {
        Ok(fields)
    } else {
        Err(InterpretError::InvalidCalendarValue)
    }
}

/// The instant `days` days from `now`, at the same time of day and in the
/// common era.
pub open spec fn keyword_reading(now: DateFields, days: int) -> Result<
    DateFields,
    InterpretError,
> {
    let moved = if days == 0 {
        Some((now.year, now.month, now.day))
    } else {
        date_after_days(now.year, now.month, now.day, days)
    };
    match moved {
        Some(ymd) => {
            let fields = DateFields {
                year: ymd.0,
                month: ymd.1,
                day: ymd.2,
                hour: now.hour,
                minute: now.minute,
                second: now.second,
                nanosecond: now.nanosecond,
                is_bce: false,
            };
            if fields.is_valid() {
                Ok(fields)
            } else {
                Err(InterpretError::InvalidCalendarValue)
            }
        },
        None => Err(InterpretError::InvalidCalendarValue),
    }
}

/// What the numerals in `text` say, marked as not taken from the clock.
pub open spec fn numerals_alone(text: Seq<char>) -> Result<(DateFields, bool), InterpretError> {
    match numeric_reading(text) {
        Ok(fields) => Ok((fields, false)),
        Err(e) => Err(e),
    }
}

/// What `input` means at the instant `now`: the timestamp, and whether it
/// was taken from the clock rather than from numerals.
pub open spec fn interpretation(input: Seq<char>, now: DateFields) -> Result<
    (DateFields, bool),
    InterpretError,
> {
    let text = trim(input);
    match keyword_offset(text) {
        Some(days) => match keyword_reading(now, days) {
            Ok(fields) => Ok((fields, true)),
            Err(e) => Err(e),
        },
        None => numerals_alone(text),
    }
}

/// The year, month and day that `found` holds under `pattern`.
fn as_date(pattern: Pattern, found: Numerals) -> (ymd: (u32, u32, u32))
    requires
        pattern != Pattern::Time,
    ensures
        pattern == Pattern::MonthDayYear ==> (ymd.0 as int, ymd.1 as int, ymd.2 as int) == (
            found@.2,
            found@.0,
            found@.1,
        ),
        pattern == Pattern::YearMonthDay ==> (ymd.0 as int, ymd.1 as int, ymd.2 as int) == found@,
{
    match pattern {
        Pattern::MonthDayYear => (found.third, found.first, found.second),
        _ => (found.first, found.second, found.third),
    }
}

/// Reads the numerals of `text`, which is taken as it stands.
pub fn read_numerals(text: &[char]) -> (r: Result<ParsedDate, InterpretError>)
    ensures
        r matches Ok(date) ==> numeric_reading(text@) == Ok::<DateFields, InterpretError>(date@),
        r matches Err(e) ==> numeric_reading(text@) == Err::<DateFields, InterpretError>(e),
        first_date(text@) is None && first_time(text@) is None ==> r == Err::<
            ParsedDate,
            InterpretError,
        >(InterpretError::NoDateOrTimeFound),
{
    let is_bce = era_marker(text);
    let date = match find(Pattern::MonthDayYear, text) {
        Some(found) => Some(as_date(Pattern::MonthDayYear, found)),
        None => match find(Pattern::YearMonthDay, text) {
            Some(found) => Some(as_date(Pattern::YearMonthDay, found)),
            None => None,
        },
    };
    let time = find(Pattern::Time, text);
    if date.is_none() && time.is_none() {
        return Err(InterpretError::NoDateOrTimeFound);
    }
    let (year, month, day) = match date {
        Some(ymd) => ymd,
        None => (0, 0, 0),
    };
    let (hour, minute, second) = match time {
        Some(hms) => (hms.first, hms.second, hms.third),
        None => (0, 0, 0),
    };
    ParsedDate::new(year as i32, month, day, hour, minute, second, 0, is_bce)
}

/// The instant `days` days from `now`, in the common era: the day that
/// lies that many days on in the calendar, at the same time of day.
pub fn resolve_keyword(now: &ParsedDate, days: i32) -> (r: Result<ParsedDate, InterpretError>)
    ensures
        r matches Ok(date) ==> keyword_reading(now@, days as int) == Ok::<
            DateFields,
            InterpretError,
        >(date@),
        r matches Err(e) ==> keyword_reading(now@, days as int) == Err::<
            DateFields,
            InterpretError,
        >(e),
        r matches Ok(date) ==> date@.day_number() == now@.day_number() + days,
{
    let moved = if days == 0 {
        Some((now.year(), now.month(), now.day()))
    } else {
        shift_days(now.year(), now.month(), now.day(), days)
    };
    match moved {
        Some(ymd) => ParsedDate::new(
            ymd.0,
            ymd.1,
            ymd.2,
            now.hour(),
            now.minute(),
            now.second(),
            now.nanosecond(),
            false,
        ),
        None => Err(InterpretError::InvalidCalendarValue),
    }
}

/// The mathematical content of an interpreter's answer.
pub open spec fn reading_of(r: Result<(ParsedDate, bool), InterpretError>) -> Result<
    (DateFields, bool),
    InterpretError,
> {
    match r {
        Ok(found) => Ok((found.0@, found.1)),
        Err(e) => Err(e),
    }
}

/// Whether `text` holds nothing that the interpreter reads: no keyword, no
/// numeric date and no numeric time.
pub open spec fn nothing_recognised(text: Seq<char>) -> bool {
    &&& keyword_offset(text) is None
    &&& first_captures(Pattern::MonthDayYear, text) is None
    &&& first_captures(Pattern::YearMonthDay, text) is None
    &&& first_captures(Pattern::Time, text) is None
}

/// Interprets `input` as of the instant `now`.
///
/// Returns the timestamp and whether it was taken from `now` (a keyword)
/// rather than from numerals.  Text that holds nothing recognisable is an
/// error, never a silent `now`.
pub fn interpret_at(input: &str, now: &ParsedDate) -> (r: Result<
    (ParsedDate, bool),
    InterpretError,
>)
    ensures
        reading_of(r) == interpretation(input@, now@),
        nothing_recognised(trim(input@)) ==> r == Err::<(ParsedDate, bool), InterpretError>(
            InterpretError::NoDateOrTimeFound,
        ),
        keyword_offset(trim(input@)) is Some ==> (r matches Ok(found) ==> found.0@.day_number()
            == now@.day_number() + keyword_offset(trim(input@)).unwrap()),
{
    let chars = chars_of(input);
    let text = trimmed(chars.as_slice());
    match keyword_days(text.as_slice()) {
        Some(days) => match resolve_keyword(now, days) {
            Ok(date) => Ok((date, true)),
            Err(e) => Err(e),
        },
        None => match read_numerals(text.as_slice()) {
            Ok(date) => Ok((date, false)),
            Err(e) => Err(e),
        },
    }
}

/// Interprets `input` as of the system clock, which is read only where
/// `input` is a keyword.
///
/// Numerals are read as [`interpret_at`] reads them, whatever the clock
/// says.  A keyword gives an instant of the common era that is marked as
/// taken from the clock, or `InvalidCalendarValue` where the clock or the
/// day it leads to lies outside the four-digit years.
pub fn interpret(input: &str) -> (r: Result<(ParsedDate, bool), InterpretError>)
    ensures
        keyword_offset(trim(input@)) is None ==> reading_of(r) == numerals_alone(trim(input@)),
        keyword_offset(trim(input@)) is Some ==> match r {
            Ok(found) => found.1 && !found.0@.is_bce && found.0@.is_valid(),
            Err(e) => e == InterpretError::InvalidCalendarValue,
        },
        nothing_recognised(trim(input@)) ==> r == Err::<(ParsedDate, bool), InterpretError>(
            InterpretError::NoDateOrTimeFound,
        ),
{
    let chars = chars_of(input);
    let text = trimmed(chars.as_slice());
    match keyword_days(text.as_slice()) {
        Some(days) => {
            let clock = utc_now();
            let now = ParsedDate::new(
                clock.0,
                clock.1,
                clock.2,
                clock.3,
                clock.4,
                clock.5,
                clock.6,
                false,
            );
            match now {
                Ok(now) => match resolve_keyword(&now, days) {
                    Ok(date) => Ok((date, true)),
                    Err(e) => Err(e),
                },
                Err(e) => Err(e),
            }
        },
        None => match read_numerals(text.as_slice()) {
            Ok(date) => Ok((date, false)),
            Err(e) => Err(e),
        },
    }
}

} // verus!
