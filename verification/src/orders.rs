//! The two orders in which a numeric date can be written, and the proof
//! that the interpreter reads both as the same day.

use vstd::prelude::*;
use crate::calendar::{DateFields, InterpretError};
use crate::decimal::{all_digits, decimal_value, is_digit};
use crate::grammar::{
    bc_at, captures_at, first_captures, first_match_from, four_digits, has_era_marker,
    keyword_offset, lead_width, lemma_first_match_is_leftmost, tail_width, Pattern,
};
use crate::interpret::{first_date, first_time, interpretation};
use crate::text::{is_space, trim, trim_end, trim_start};

verus! {

/// Whether `s` is a month or a day: one or two digits.
pub open spec fn is_short_field(s: Seq<char>) -> bool {
    1 <= s.len() <= 2 && all_digits(s)
}

/// Whether `s` is a year: four digits.
pub open spec fn is_year_field(s: Seq<char>) -> bool {
    s.len() == 4 && all_digits(s)
}

/// The date written month first: `MM/DD/YYYY`.
pub open spec fn month_first(month: Seq<char>, day: Seq<char>, year: Seq<char>) -> Seq<char> {
    month + seq!['/'] + day + seq!['/'] + year
}

/// The date written year first: `YYYY/MM/DD`.
pub open spec fn year_first(month: Seq<char>, day: Seq<char>, year: Seq<char>) -> Seq<char> {
    year + seq!['/'] + month + seq!['/'] + day
}

/// The reading of a date that stands alone: midnight of the day that the
/// three numerals name, in the common era, or an error where there is no
/// such day.
pub open spec fn bare_date(month: Seq<char>, day: Seq<char>, year: Seq<char>) -> Result<
    (DateFields, bool),
    InterpretError,
> {
    let fields = DateFields {
        year: decimal_value(year),
        month: decimal_value(month),
        day: decimal_value(day),
        hour: 0,
        minute: 0,
        second: 0,
        nanosecond: 0,
        is_bce: false,
    };
    if fields.is_valid() {
        Ok((fields, false))
    } else {
        Err(InterpretError::InvalidCalendarValue)
    }
}

/// Whether `s` is made of digits and slashes, and begins and ends with a
/// digit.
spec fn is_plain_date(s: Seq<char>) -> bool {
    &&& s.len() > 0
    &&& is_digit(s[0])
    &&& is_digit(s.last())
    &&& forall|i: int| 0 <= i < s.len() ==> is_digit(#[trigger] s[i]) || s[i] == '/'
}

/// A text of digits and slashes is its own trimmed form, is no keyword,
/// and holds neither a time nor an era marker.
proof fn lemma_plain_date(s: Seq<char>)
    requires
        is_plain_date(s),
    ensures
        trim(s) == s,
        keyword_offset(s) is None,
        first_time(s) is None,
        !has_era_marker(s),
{
    assert(!is_space(s[0]));
    assert(!is_space(s.last()));
    assert(trim_start(s) == s);
    assert(trim_end(s) == s);
    reveal_strlit("now");
    reveal_strlit("today");
    reveal_strlit("yesterday");
    reveal_strlit("tomorrow");
    reveal_strlit("fortnight");
    assert(s != "now"@) by {
        assert("now"@[0] == 'n');
    }
    assert(s != "today"@) by {
        assert("today"@[0] == 't');
    }
    assert(s != "yesterday"@) by {
        assert("yesterday"@[0] == 'y');
    }
    assert(s != "tomorrow"@) by {
        assert("tomorrow"@[0] == 't');
    }
    assert(s != "fortnight"@) by {
        assert("fortnight"@[0] == 'f');
    }
    assert forall|j: int| 0 <= j < s.len() implies captures_at(Pattern::Time, s, j) is None by {
        if lead_width(s, j, ':') == 2 {
            assert(is_digit(s[j + 2]) || s[j + 2] == '/');
        } else if lead_width(s, j, ':') == 1 {
            assert(is_digit(s[j + 1]) || s[j + 1] == '/');
        }
    }
    lemma_first_match_is_leftmost(Pattern::Time, s, 0);
    assert forall|i: int| !bc_at(s, i) by {
        if 0 <= i < s.len() {
            assert(is_digit(s[i]) || s[i] == '/');
        }
    }
}

/// A date alone, written month first or year first with the same numerals,
/// is read as the same day at midnight; where the numerals name no day,
/// both readings fail alike.
pub proof fn lemma_date_orders_agree(
    month: Seq<char>,
    day: Seq<char>,
    year: Seq<char>,
    now: DateFields,
)
    requires
        is_short_field(month),
        is_short_field(day),
        is_year_field(year),
    ensures
        interpretation(month_first(month, day, year), now) == bare_date(month, day, year),
        interpretation(year_first(month, day, year), now) == bare_date(month, day, year),
{
    lemma_month_first(month, day, year, now);
    lemma_year_first(month, day, year, now);
}

/// The month-first half of [`lemma_date_orders_agree`].
proof fn lemma_month_first(month: Seq<char>, day: Seq<char>, year: Seq<char>, now: DateFields)
    requires
        is_short_field(month),
        is_short_field(day),
        is_year_field(year),
    ensures
        interpretation(month_first(month, day, year), now) == bare_date(month, day, year),
{
    let s = month_first(month, day, year);
    let a = month.len() as int;
    let b = day.len() as int;
    let j = a + 1;
    let k = j + b + 1;
    assert(s.len() == a + b + 6);
    assert forall|i: int| 0 <= i < s.len() implies is_digit(#[trigger] s[i]) || s[i] == '/' by {
        if i < a {
            assert(s[i] == month[i]);
        } else if i == a {
        } else if i < j + b {
            assert(s[i] == day[i - j]);
        } else if i == j + b {
        } else {
            assert(s[i] == year[i - k]);
        }
    }
    assert(s[0] == month[0]);
    assert(s.last() == year[3]);
    assert(s[a] == '/');
    assert(s[j + b] == '/');
    assert(s[j] == day[0]);
    assert(forall|i: int| 0 <= i < a ==> s[i] == month[i]);
    assert(forall|i: int| 0 <= i < b ==> s[j + i] == day[i]);
    assert(forall|i: int| 0 <= i < 4 ==> s[k + i] == year[i]);
    lemma_plain_date(s);
    assert(lead_width(s, 0, '/') == a);
    assert(lead_width(s, j, '/') == b);
    assert(four_digits(s, k));
    assert(s.subrange(0, a) =~= month);
    assert(s.subrange(j, j + b) =~= day);
    assert(s.subrange(k, k + 4) =~= year);
    assert(captures_at(Pattern::MonthDayYear, s, 0) == Some(
        (decimal_value(month), decimal_value(day), decimal_value(year)),
    ));
    assert(first_match_from(Pattern::MonthDayYear, s, 0) == Some(0int));
    assert(first_date(s) == Some((decimal_value(year), decimal_value(month), decimal_value(day))));
}

/// The year-first half of [`lemma_date_orders_agree`].
proof fn lemma_year_first(month: Seq<char>, day: Seq<char>, year: Seq<char>, now: DateFields)
    requires
        is_short_field(month),
        is_short_field(day),
        is_year_field(year),
    ensures
        interpretation(year_first(month, day, year), now) == bare_date(month, day, year),
{
    let s = year_first(month, day, year);
    let a = month.len() as int;
    let b = day.len() as int;
    let j = 5int;
    let k = j + a + 1;
    assert(s.len() == a + b + 6);
    assert(forall|i: int| 0 <= i < 4 ==> s[i] == year[i]);
    assert(forall|i: int| 0 <= i < a ==> s[j + i] == month[i]);
    assert(forall|i: int| 0 <= i < b ==> s[k + i] == day[i]);
    assert(s[4] == '/');
    assert(s[j + a] == '/');
    assert forall|i: int| 0 <= i < s.len() implies (is_digit(#[trigger] s[i]) || s[i] == '/') && (
    s[i] == '/' ==> i == 4 || i == j + a) by {
        if i < 4 {
            assert(s[i] == year[i]);
        } else if i == 4 {
        } else if i < j + a {
            assert(s[i] == month[i - j]);
        } else if i == j + a {
        } else {
            assert(s[i] == day[i - k]);
        }
    }
    assert(s[0] == year[0]);
    assert(s.last() == day[b - 1]);
    lemma_plain_date(s);
    assert forall|i: int| 0 <= i < s.len() implies captures_at(
        Pattern::MonthDayYear,
        s,
        i,
    ) is None by {
        let w = lead_width(s, i, '/');
        if w > 0 {
            assert(s[i + w] == '/');
            let next = i + w + 1;
            let v = lead_width(s, next, '/');
            if v > 0 {
                assert(s[next + v] == '/');
                assert(i + w == 4 && next + v == j + a);
                assert(!four_digits(s, next + v + 1));
            }
        }
    }
    lemma_first_match_is_leftmost(Pattern::MonthDayYear, s, 0);
    assert(first_captures(Pattern::MonthDayYear, s) is None);
    assert(four_digits(s, 0));
    assert(lead_width(s, j, '/') == a);
    assert(tail_width(s, k) == b);
    assert(s.subrange(0, 4) =~= year);
    assert(s.subrange(j, j + a) =~= month);
    assert(s.subrange(k, k + b) =~= day);
    assert(captures_at(Pattern::YearMonthDay, s, 0) == Some(
        (decimal_value(year), decimal_value(month), decimal_value(day)),
    ));
    assert(first_match_from(Pattern::YearMonthDay, s, 0) == Some(0int));
    assert(first_date(s) == Some((decimal_value(year), decimal_value(month), decimal_value(day))));
}

} // verus!
