//! The calendar timestamp that the interpreter produces and the formatter
//! consumes, with the rules that make one valid.

use vstd::prelude::*;

verus! {

/// Why a date expression could not be turned into a timestamp.
#[derive(Clone, Copy, Debug, PartialEq, Eq)]
pub enum InterpretError {
    /// The text holds no numeric date, no numeric time, and is no keyword.
    NoDateOrTimeFound,
    /// The numerals found do not name a day of the calendar or a time of day.
    InvalidCalendarValue,
}

impl InterpretError {
    /// A sentence for the person who typed the expression.
    pub fn message(&self) -> (text: &'static str)
        ensures
            text@ == match *self {
                InterpretError::NoDateOrTimeFound => "No date or time found."@,
                InterpretError::InvalidCalendarValue => "No such calendar date or time of day."@,
            },
    {
        match self {
            InterpretError::NoDateOrTimeFound => "No date or time found.",
            InterpretError::InvalidCalendarValue => "No such calendar date or time of day.",
        }
    }
}

/// Whether `year` has a 29th of February in the proleptic Gregorian calendar.
pub open spec fn is_leap_year(year: int) -> bool {
    year % 4 == 0 && (year % 100 != 0 || year % 400 == 0)
}

/// The number of days of `month` in `year`; 0 where `month` is no month.
pub open spec fn days_in_month(year: int, month: int) -> int {
    if month == 2 {
        if is_leap_year(year) {
            29
        } else {
            28
        }
    } else if month == 4 || month == 6 || month == 9 || month == 11 {
        30
    } else if 1 <= month <= 12 {
        31
    } else {
        0
    }
}

/// Whether `year`, `month`, `day` name a day of a four-digit year.
pub open spec fn is_calendar_day(year: int, month: int, day: int) -> bool {
    &&& 0 <= year <= 9999
    &&& 1 <= month <= 12
    &&& 1 <= day <= days_in_month(year, month)
}

/// The number of leap years from year 0 up to `year`, `year` itself left
/// out.
pub open spec fn leap_years_before(year: int) -> int {
    (year + 3) / 4 - (year + 99) / 100 + (year + 399) / 400
}

/// The number of days of `year` that lie before its month `month`.
pub open spec fn days_before_month(year: int, month: int) -> int
    decreases month,
{
    if month <= 1 {
        0
    } else {
        days_before_month(year, month - 1) + days_in_month(year, month - 1)
    }
}

/// The number of days from the first of January of year 0 to the given
/// day.
pub open spec fn day_number(year: int, month: int, day: int) -> int {
    365 * year + leap_years_before(year) + days_before_month(year, month) + day - 1
}

/// The day of the week of a calendar day: 0 for Monday up to 6 for Sunday.
/// The first of January of year 0 is a Saturday.
pub open spec fn weekday_number(year: int, month: int, day: int) -> int {
    (day_number(year, month, day) + 5) % 7
}

/// Whether `hour`, `minute`, `second`, `nanosecond` name a time of day.
pub open spec fn is_time_of_day(hour: int, minute: int, second: int, nanosecond: int) -> bool {
    &&& 0 <= hour <= 23
    &&& 0 <= minute <= 59
    &&& 0 <= second <= 59
    &&& 0 <= nanosecond <= 999_999_999
}

/// The mathematical content of a [`ParsedDate`].
pub struct DateFields {
    pub year: int,
    pub month: int,
    pub day: int,
    pub hour: int,
    pub minute: int,
    pub second: int,
    pub nanosecond: int,
    pub is_bce: bool,
}

impl DateFields {
    /// The number of days from the first of January of year 0 to the day
    /// of the fields.
    pub open spec fn day_number(self) -> int {
        day_number(self.year, self.month, self.day)
    }

    /// Whether the fields name an instant of the calendar.
    pub open spec fn is_valid(self) -> bool {
        &&& is_calendar_day(self.year, self.month, self.day)
        &&& is_time_of_day(self.hour, self.minute, self.second, self.nanosecond)
    }
}

/// Decides [`is_leap_year`].
pub fn leap_year(year: i32) -> (r: bool)
    ensures
        r == is_leap_year(year as int),
{
    year % 4 == 0 && (year % 100 != 0 || year % 400 == 0)
}

/// Computes [`days_in_month`].
pub fn month_length(year: i32, month: u32) -> (r: u32)
    ensures
        r == days_in_month(year as int, month as int),
{
    if month == 2 {
        if leap_year(year) {
            29
        } else {
            28
        }
    } else if month == 4 || month == 6 || month == 9 || month == 11 {
        30
    } else if 1 <= month && month <= 12 {
        31
    } else {
        0
    }
}

/// A UTC calendar timestamp with an era flag.
///
/// Every value names an existing instant: the year has at most four digits,
/// the day exists in its month, and the time of day is in range.
#[derive(Clone, Copy, Debug, PartialEq, Eq)]
pub struct ParsedDate {
    year: i32,
    month: u32,
    day: u32,
    hour: u32,
    minute: u32,
    second: u32,
    nanosecond: u32,
    is_bce: bool,
}

impl View for ParsedDate {
    type V = DateFields;

    closed spec fn view(&self) -> DateFields {
        DateFields {
            year: self.year as int,
            month: self.month as int,
            day: self.day as int,
            hour: self.hour as int,
            minute: self.minute as int,
            second: self.second as int,
            nanosecond: self.nanosecond as int,
            is_bce: self.is_bce,
        }
    }
}

impl ParsedDate {
    #[verifier::type_invariant]
    spec fn well_formed(self) -> bool {
        self@.is_valid()
    }

    /// The timestamp with the given fields, where they name an instant.
    pub fn new(
        year: i32,
        month: u32,
        day: u32,
        hour: u32,
        minute: u32,
        second: u32,
        nanosecond: u32,
        is_bce: bool,
    ) -> (r: Result<ParsedDate, InterpretError>)
        ensures
            match r {
                Ok(date) => date@ == (DateFields {
                    year: year as int,
                    month: month as int,
                    day: day as int,
                    hour: hour as int,
                    minute: minute as int,
                    second: second as int,
                    nanosecond: nanosecond as int,
                    is_bce,
                }) && date@.is_valid(),
                Err(e) => e == InterpretError::InvalidCalendarValue && !(is_calendar_day(
                    year as int,
                    month as int,
                    day as int,
                ) && is_time_of_day(
                    hour as int,
                    minute as int,
                    second as int,
                    nanosecond as int,
                )),
            },
    {
        if 0 <= year && year <= 9999 && 1 <= month && month <= 12 && 1 <= day && day
            <= month_length(year, month) && hour <= 23 && minute <= 59 && second <= 59
            && nanosecond <= 999_999_999 {
            Ok(ParsedDate { year, month, day, hour, minute, second, nanosecond, is_bce })
        } else {
            Err(InterpretError::InvalidCalendarValue)
        }
    }

    /// The Gregorian year numeral, 0 to 9999.
    pub fn year(&self) -> (r: i32)
        ensures
            r == self@.year,
            self@.is_valid(),
    {
        proof {
            use_type_invariant(self);
        }
        self.year
    }

    /// The month, 1 to 12.
    pub fn month(&self) -> (r: u32)
        ensures
            r == self@.month,
            self@.is_valid(),
    {
        proof {
            use_type_invariant(self);
        }
        self.month
    }

    /// The day of the month, from 1.
    pub fn day(&self) -> (r: u32)
        ensures
            r == self@.day,
            self@.is_valid(),
    {
        proof {
            use_type_invariant(self);
        }
        self.day
    }

    /// The hour, 0 to 23.
    pub fn hour(&self) -> (r: u32)
        ensures
            r == self@.hour,
            self@.is_valid(),
    {
        proof {
            use_type_invariant(self);
        }
        self.hour
    }

    /// The minute, 0 to 59.
    pub fn minute(&self) -> (r: u32)
        ensures
            r == self@.minute,
            self@.is_valid(),
    {
        proof {
            use_type_invariant(self);
        }
        self.minute
    }

    /// The second, 0 to 59.
    pub fn second(&self) -> (r: u32)
        ensures
            r == self@.second,
            self@.is_valid(),
    {
        proof {
            use_type_invariant(self);
        }
        self.second
    }

    /// The nanoseconds past the second, below one thousand million.
    pub fn nanosecond(&self) -> (r: u32)
        ensures
            r == self@.nanosecond,
            self@.is_valid(),
    {
        proof {
            use_type_invariant(self);
        }
        self.nanosecond
    }

    /// Whether the year numeral counts backward from the common era.
    pub fn is_bce(&self) -> (r: bool)
        ensures
            r == self@.is_bce,
            self@.is_valid(),
    {
        proof {
            use_type_invariant(self);
        }
        self.is_bce
    }
}

} // verus!
