//! Relative offsets: `+3 days`, `-1 year`, `next week`, `last month`.
//!
//! The forms are recognised and taken apart here, but the interpreter gives
//! them no meaning: an expression that is a relative offset holds no date
//! and no time, and is answered like any other text that holds neither.

use vstd::prelude::*;
use crate::calendar::{DateFields, InterpretError};
use crate::decimal::{decimal_value, is_ascii_digit, is_digit};
use crate::grammar::{
    captures_at, keyword_offset, lead_width, lemma_first_match_is_leftmost, Pattern,
};
use crate::interpret::{interpretation, nothing_recognised};
use crate::substitute::{occurs_at, starts_with};
use crate::text::{chars_of, is_space, is_whitespace, trim, trimmed};

verus! {

/// A unit of time that an offset counts in.
#[derive(Clone, Copy, Debug, PartialEq, Eq)]
pub enum Unit {
    Second,
    Minute,
    Hour,
    Day,
    Week,
    Month,
    Year,
}

/// A relative offset taken apart.
#[derive(Clone, Copy, Debug, PartialEq, Eq)]
pub struct RelativeOffset {
    /// Whether the offset points to the future: `+` and `next` do.
    pub forward: bool,
    /// How many units; `None` where the numeral is too large for 64 bits.
    pub amount: Option<u64>,
    /// The unit counted in.
    pub unit: Unit,
}

/// A relative offset as the text states it, with its amount at full size.
pub struct OffsetForm {
    pub forward: bool,
    pub amount: int,
    pub unit: Unit,
}

/// The singular name of `unit`.
pub open spec fn unit_word(unit: Unit) -> Seq<char> {
    match unit {
        Unit::Second => "second"@,
        Unit::Minute => "minute"@,
        Unit::Hour => "hour"@,
        Unit::Day => "day"@,
        Unit::Week => "week"@,
        Unit::Month => "month"@,
        Unit::Year => "year"@,
    }
}

/// Whether `phrase` is the name of `unit`, singular or with a closing `s`.
pub open spec fn names_unit(phrase: Seq<char>, unit: Unit) -> bool {
    phrase == unit_word(unit) || phrase == unit_word(unit).push('s')
}

/// The unit that `phrase` names.
pub open spec fn unit_named(phrase: Seq<char>) -> Option<Unit> {
    if names_unit(phrase, Unit::Second) {
        Some(Unit::Second)
    } else if names_unit(phrase, Unit::Minute) {
        Some(Unit::Minute)
    } else if names_unit(phrase, Unit::Hour) {
        Some(Unit::Hour)
    } else if names_unit(phrase, Unit::Day) {
        Some(Unit::Day)
    } else if names_unit(phrase, Unit::Week) {
        Some(Unit::Week)
    } else if names_unit(phrase, Unit::Month) {
        Some(Unit::Month)
    } else if names_unit(phrase, Unit::Year) {
        Some(Unit::Year)
    } else {
        None
    }
}

/// The place after the digits that stand in `s` from `from` on.
pub open spec fn digits_end(s: Seq<char>, from: int) -> int
    decreases s.len() - from,
{
    if 0 <= from < s.len() && is_digit(s[from]) {
        digits_end(s, from + 1)
    } else {
        from
    }
}

/// The place after the white space that stands in `s` from `from` on.
pub open spec fn spaces_end(s: Seq<char>, from: int) -> int
    decreases s.len() - from,
{
    if 0 <= from < s.len() && is_space(s[from]) {
        spaces_end(s, from + 1)
    } else {
        from
    }
}

/// The opening of a relative offset: its direction, its amount, and the
/// place where it ends.  It is a sign and a numeral, or `next`, or `last`;
/// the two words count one unit.
pub open spec fn opening(s: Seq<char>) -> Option<(bool, int, int)> {
    if s.len() > 0 && (s[0] == '+' || s[0] == '-') && digits_end(s, 1) > 1 {
        Some((s[0] == '+', decimal_value(s.subrange(1, digits_end(s, 1))), digits_end(s, 1)))
    } else if starts_with(s, "next"@) {
        Some((true, 1, "next"@.len() as int))
    } else if starts_with(s, "last"@) {
        Some((false, 1, "last"@.len() as int))
    } else {
        None
    }
}

/// The relative offset that `text` is, leading and trailing white space
/// aside: an opening, white space, and the name of a unit, with nothing
/// after it.
pub open spec fn relative_form(text: Seq<char>) -> Option<OffsetForm> {
    let s = trim(text);
    match opening(s) {
        Some((forward, amount, end)) => {
            let start = spaces_end(s, end);
            match unit_named(s.skip(start)) {
                Some(unit) => if start > end {
                    Some(OffsetForm { forward, amount, unit })
                } else {
                    None
                },
                None => None,
            }
        },
        None => None,
    }
}

/// Whether `text` from `from` on spells `word`, with or without a closing
/// `s`.
fn names(text: &[char], from: usize, word: &str, unit: Ghost<Unit>) -> (r: bool)
    requires
        from <= text.len(),
        word@ == unit_word(unit@),
    ensures
        r == names_unit(text@.skip(from as int), unit@),
{
    let letters = chars_of(word);
    let rest = text.len() - from;
    let ghost phrase = text@.skip(from as int);
    assert(phrase.len() == rest);
    assert(letters@.push('s').len() == letters.len() + 1);
    if rest < letters.len() || rest - letters.len() > 1 {
        return false;
    }
    let mut k: usize = 0;
    while k < letters.len()
        invariant
            k <= letters.len() <= rest,
            rest == text.len() - from,
            phrase == text@.skip(from as int),
            letters@ == unit_word(unit@),
            phrase.take(k as int) == letters@.take(k as int),
        decreases letters.len() - k,
    {
        if text[from + k] != letters[k] {
            assert(phrase[k as int] != letters@[k as int]);
            assert(letters@.push('s')[k as int] == letters@[k as int]);
            return false;
        }
        assert(phrase.take(k + 1) =~= phrase.take(k as int).push(phrase[k as int]));
        assert(letters@.take(k + 1) =~= letters@.take(k as int).push(letters@[k as int]));
        k += 1;
    }
    assert(letters@.take(letters.len() as int) =~= letters@);
    if rest == letters.len() {
        assert(phrase.take(rest as int) =~= phrase);
        true
    } else {
        let last = text[from + letters.len()];
        assert(phrase[letters.len() as int] == last);
        if last == 's' {
            assert(phrase =~= letters@.push('s'));
            true
        } else {
            assert(letters@.push('s')[letters.len() as int] == 's');
            false
        }
    }
}

/// The characters from `from` up to [`digits_end`] are digits.
proof fn lemma_digits_run(s: Seq<char>, from: int)
    requires
        0 <= from <= s.len(),
    ensures
        from <= digits_end(s, from) <= s.len(),
        forall|k: int| from <= k < digits_end(s, from) ==> is_digit(#[trigger] s[k]),
    decreases s.len() - from,
{
    if from < s.len() && is_digit(s[from]) {
        lemma_digits_run(s, from + 1);
    }
}

/// The characters from `from` up to [`spaces_end`] are white space.
proof fn lemma_spaces_run(s: Seq<char>, from: int)
    requires
        0 <= from <= s.len(),
    ensures
        from <= spaces_end(s, from) <= s.len(),
        forall|k: int| from <= k < spaces_end(s, from) ==> is_space(#[trigger] s[k]),
    decreases s.len() - from,
{
    if from < s.len() && is_space(s[from]) {
        lemma_spaces_run(s, from + 1);
    }
}

/// Whether `c` is a small letter of the ASCII alphabet.
spec fn is_small_letter(c: char) -> bool {
    'a' <= c <= 'z'
}

/// The names of the units are written in small letters.
proof fn lemma_unit_letters(unit: Unit)
    ensures
        1 <= unit_word(unit).len() <= 6,
        forall|k: int|
            0 <= k < unit_word(unit).len() ==> is_small_letter(#[trigger] unit_word(unit)[k]),
{
    reveal_strlit("second");
    reveal_strlit("minute");
    reveal_strlit("hour");
    reveal_strlit("day");
    reveal_strlit("week");
    reveal_strlit("month");
    reveal_strlit("year");
    let word = unit_word(unit);
    assert forall|k: int| 0 <= k < word.len() implies is_small_letter(#[trigger] word[k]) by {
        if k == 0 {
        } else if k == 1 {
        } else if k == 2 {
        } else if k == 3 {
        } else if k == 4 {
        } else {
            assert(k == 5);
        }
    }
}

/// Whether `c` can stand in a relative offset: it is no separator of a
/// numeric date or time.
spec fn is_no_separator(c: char) -> bool {
    c != '/' && c != ':'
}

/// A relative offset holds nothing that the interpreter reads: it is no
/// keyword and holds no numeric date or time, so its interpretation is the
/// error for text without a date or a time.
pub proof fn lemma_relative_offset_is_not_read(text: Seq<char>, now: DateFields)
    requires
        relative_form(text) is Some,
    ensures
        nothing_recognised(trim(text)),
        interpretation(text, now) == Err::<(DateFields, bool), InterpretError>(
            InterpretError::NoDateOrTimeFound,
        ),
{
    let s = trim(text);
    let found = opening(s)->0;
    let end = found.2;
    let start = spaces_end(s, end);
    let phrase = s.skip(start);
    let unit = unit_named(phrase)->0;
    reveal_strlit("next");
    reveal_strlit("last");
    if s.len() > 0 && (s[0] == '+' || s[0] == '-') && digits_end(s, 1) > 1 {
        lemma_digits_run(s, 1);
    } else {
        assert(forall|k: int| 0 <= k < 4 ==> s[k] == s.take(4)[k]);
    }
    assert(1 <= end <= s.len());
    lemma_spaces_run(s, end);
    lemma_unit_letters(unit);
    assert(names_unit(phrase, unit));
    assert forall|i: int| 0 <= i < s.len() implies is_no_separator(#[trigger] s[i]) by {
        if i < end {
        } else if i < start {
            assert(is_space(s[i]));
        } else {
            let k = i - start;
            assert(s[i] == phrase[k]);
            if k < unit_word(unit).len() {
                assert(phrase[k] == unit_word(unit)[k]);
                assert(is_small_letter(unit_word(unit)[k]));
            } else {
                assert(phrase == unit_word(unit).push('s'));
                assert(k < phrase.len());
                assert(k == unit_word(unit).len());
                assert(phrase[k] == 's');
            }
        }
    }
    assert forall|j: int| 0 <= j < s.len() implies captures_at(Pattern::MonthDayYear, s, j) is None
        && captures_at(Pattern::YearMonthDay, s, j) is None && captures_at(
        Pattern::Time,
        s,
        j,
    ) is None by {
        if lead_width(s, j, '/') == 2 {
            assert(is_no_separator(s[j + 2]));
        } else if lead_width(s, j, '/') == 1 {
            assert(is_no_separator(s[j + 1]));
        }
        if lead_width(s, j, ':') == 2 {
            assert(is_no_separator(s[j + 2]));
        } else if lead_width(s, j, ':') == 1 {
            assert(is_no_separator(s[j + 1]));
        }
        if j + 4 < s.len() {
            assert(is_no_separator(s[j + 4]));
        }
    }
    lemma_first_match_is_leftmost(Pattern::MonthDayYear, s, 0);
    lemma_first_match_is_leftmost(Pattern::YearMonthDay, s, 0);
    lemma_first_match_is_leftmost(Pattern::Time, s, 0);
    reveal_strlit("now");
    reveal_strlit("today");
    reveal_strlit("yesterday");
    reveal_strlit("tomorrow");
    reveal_strlit("fortnight");
    assert(s[0] == '+' || s[0] == '-' || (s[0] == 'n' && s[1] == 'e') || s[0] == 'l');
    assert(s != "now"@) by {
        assert("now"@[0] == 'n' && "now"@[1] == 'o');
    }
    assert(s != "today"@) by {
        assert("today"@[0] == 't');
    }
    assert(s != "yesterday"@) by {
        assert("yesterday"@[0] == 'y');
    }
    assert(s != "tomorrow"@) by {
        assert("tomorrow"@[0] == 't');
    }
    assert(s != "fortnight"@) by {
        assert("fortnight"@[0] == 'f');
    }
    assert(keyword_offset(s) is None);
}

/// The amount as 64 bits hold it, where they can.
pub open spec fn fitting(amount: int) -> Option<u64> {
    if 0 <= amount <= u64::MAX {
        Some(amount as u64)
    } else {
        None
    }
}

/// The unit that `text` names from `from` on.
fn unit_at(text: &[char], from: usize) -> (r: Option<Unit>)
    requires
        from <= text.len(),
    ensures
        r == unit_named(text@.skip(from as int)),
{
    if names(text, from, "second", Ghost(Unit::Second)) {
        Some(Unit::Second)
    } else if names(text, from, "minute", Ghost(Unit::Minute)) {
        Some(Unit::Minute)
    } else if names(text, from, "hour", Ghost(Unit::Hour)) {
        Some(Unit::Hour)
    } else if names(text, from, "day", Ghost(Unit::Day)) {
        Some(Unit::Day)
    } else if names(text, from, "week", Ghost(Unit::Week)) {
        Some(Unit::Week)
    } else if names(text, from, "month", Ghost(Unit::Month)) {
        Some(Unit::Month)
    } else if names(text, from, "year", Ghost(Unit::Year)) {
        Some(Unit::Year)
    } else {
        None
    }
}

/// Reads the digits that stand in `text` from `from` on: the place after
/// them and their value.
fn numeral(text: &[char], from: usize) -> (r: (usize, Option<u64>))
    requires
        from <= text.len(),
    ensures
        r.0 == digits_end(text@, from as int),
        from <= r.0 <= text.len(),
        r.1 == fitting(decimal_value(text@.subrange(from as int, r.0 as int))),
{
    let mut i: usize = from;
    let mut value: Option<u64> = Some(0);
    assert(text@.subrange(from as int, from as int) =~= Seq::<char>::empty());
    while i < text.len() && is_ascii_digit(text[i])
        invariant
            from <= i <= text.len(),
            digits_end(text@, from as int) == digits_end(text@, i as int),
            decimal_value(text@.subrange(from as int, i as int)) >= 0,
            value == fitting(decimal_value(text@.subrange(from as int, i as int))),
        decreases text.len() - i,
    {
        let digit: u64 = (text[i] as u32 - '0' as u32) as u64;
        proof {
            let longer = text@.subrange(from as int, i + 1);
            assert(longer.drop_last() =~= text@.subrange(from as int, i as int));
            assert(longer.last() == text@[i as int]);
        }
        value = match value {
            Some(v) => match v.checked_mul(10) {
                Some(tens) => tens.checked_add(digit),
                None => None,
            },
            None => None,
        };
        i += 1;
    }
    (i, value)
}

/// The place after the white space that stands in `text` from `from` on.
fn skip_spaces(text: &[char], from: usize) -> (end: usize)
    requires
        from <= text.len(),
    ensures
        end == spaces_end(text@, from as int),
        from <= end <= text.len(),
{
    let mut i: usize = from;
    while i < text.len() && is_whitespace(text[i])
        invariant
            from <= i <= text.len(),
            spaces_end(text@, from as int) == spaces_end(text@, i as int),
        decreases text.len() - i,
    {
        i += 1;
    }
    i
}

/// Whether `text` begins with `word`.
fn begins_with(text: &[char], word: &str) -> (r: (bool, usize))
    ensures
        r.0 == starts_with(text@, word@),
        r.1 == word@.len(),
        r.0 ==> r.1 <= text.len(),
{
    let letters = chars_of(word);
    assert(text@.skip(0) =~= text@);
    (occurs_at(text, 0, letters.as_slice()), letters.len())
}

/// Takes the opening of a relative offset off `text`: the direction, the
/// amount and the place where the opening ends.
fn read_opening(text: &[char]) -> (r: Option<(bool, Option<u64>, usize)>)
    ensures
        match opening(text@) {
            Some(found) => r == Some((found.0, fitting(found.1), found.2 as usize)) && found.2
                <= text.len(),
            None => r is None,
        },
{
    if text.len() > 0 && (text[0] == '+' || text[0] == '-') {
        let (end, amount) = numeral(text, 1);
        if end > 1 {
            return Some((text[0] == '+', amount, end));
        }
    }
    let next = begins_with(text, "next");
    if next.0 {
        return Some((true, Some(1), next.1));
    }
    let last = begins_with(text, "last");
    if last.0 {
        return Some((false, Some(1), last.1));
    }
    None
}

/// Takes `text` apart as a relative offset.
///
/// Returns the offset where `text` is one, with its amount where 64 bits
/// hold it, and `None` for any other text.
pub fn relative_offset(text: &str) -> (r: Option<RelativeOffset>)
    ensures
        match relative_form(text@) {
            Some(form) => r == Some(
                RelativeOffset {
                    forward: form.forward,
                    amount: fitting(form.amount),
                    unit: form.unit,
                },
            ),
            None => r is None,
        },
{
    let letters = chars_of(text);
    let s = trimmed(letters.as_slice());
    match read_opening(s.as_slice()) {
        Some((forward, amount, end)) => {
            let start = skip_spaces(s.as_slice(), end);
            match unit_at(s.as_slice(), start) {
                Some(unit) => if start > end {
                    Some(RelativeOffset { forward, amount, unit })
                } else {
                    None
                },
                None => None,
            }
        },
        None => None,
    }
}

} // verus!
