//! The shapes that the interpreter looks for in a date expression: numeric
//! dates and times, the era marker, and the keywords for days near today.
//!
//! A numeric pattern may start anywhere in the text.  Where it fits at more
//! than one place the leftmost place counts, and a field of one or two
//! digits takes two whenever the pattern still fits.

use vstd::prelude::*;
use crate::decimal::{
    decimal_value, is_ascii_digit, is_digit, lemma_pow10_bounds, number_at, pow10,
};
use crate::text::{chars_of, same_chars};

verus! {

/// The numeric patterns, named by the order of their fields.
#[derive(Clone, Copy, Debug, PartialEq, Eq)]
pub enum Pattern {
    /// `MM/DD/YYYY`: month and day of one or two digits, year of four.
    MonthDayYear,
    /// `YYYY/MM/DD`: year of four digits, month and day of one or two.
    YearMonthDay,
    /// `HH:MM:SS`: each field of one or two digits.
    Time,
}

/// The three numbers of a matched pattern, in the order of the text.
#[derive(Clone, Copy, Debug, PartialEq, Eq)]
pub struct Numerals {
    pub first: u32,
    pub second: u32,
    pub third: u32,
}

impl Numerals {
    /// Whether each number is one that at most four digits can write.
    pub open spec fn in_range(self) -> bool {
        self.first <= 9999 && self.second <= 9999 && self.third <= 9999
    }
}

impl View for Numerals {
    type V = (int, int, int);

    open spec fn view(&self) -> (int, int, int) {
        (self.first as int, self.second as int, self.third as int)
    }
}

/// The width of a field of one or two digits that starts at `i` and is
/// followed by `sep`; 0 where there is none.
pub open spec fn lead_width(s: Seq<char>, i: int, sep: char) -> int {
    if 0 <= i && i + 2 < s.len() && is_digit(s[i]) && is_digit(s[i + 1]) && s[i + 2] == sep {
        2
    } else if 0 <= i && i + 1 < s.len() && is_digit(s[i]) && s[i + 1] == sep {
        1
    } else {
        0
    }
}

/// The width of a closing field of one or two digits that starts at `i`;
/// 0 where there is none.
pub open spec fn tail_width(s: Seq<char>, i: int) -> int {
    if 0 <= i && i + 1 < s.len() && is_digit(s[i]) && is_digit(s[i + 1]) {
        2
    } else if 0 <= i && i < s.len() && is_digit(s[i]) {
        1
    } else {
        0
    }
}

/// Whether four digits start at `i`.
pub open spec fn four_digits(s: Seq<char>, i: int) -> bool {
    &&& 0 <= i
    &&& i + 4 <= s.len()
    &&& is_digit(s[i])
    &&& is_digit(s[i + 1])
    &&& is_digit(s[i + 2])
    &&& is_digit(s[i + 3])
}

/// The number written by the `width` characters of `s` from `i` on.
pub open spec fn number(s: Seq<char>, i: int, width: int) -> int {
    decimal_value(s.subrange(i, i + width))
}

/// The separator between the fields of `pattern`.
pub open spec fn separator(pattern: Pattern) -> char {
    match pattern {
        Pattern::Time => ':',
        _ => '/',
    }
}

/// The numbers of `pattern` where it fits `s` from `i` on, in the order of
/// the text; `None` where it does not fit there.
pub open spec fn captures_at(pattern: Pattern, s: Seq<char>, i: int) -> Option<(int, int, int)> {
    let sep = separator(pattern);
    match pattern {
        Pattern::MonthDayYear => {
            let a = lead_width(s, i, sep);
            let j = i + a + 1;
            let b = lead_width(s, j, sep);
            let k = j + b + 1;
            if a > 0 && b > 0 && four_digits(s, k) {
                Some((number(s, i, a), number(s, j, b), number(s, k, 4)))
            } else {
                None
            }
        },
        Pattern::YearMonthDay => {
            let j = i + 5;
            let b = lead_width(s, j, sep);
            let k = j + b + 1;
            let c = tail_width(s, k);
            if four_digits(s, i) && i + 4 < s.len() && s[i + 4] == sep && b > 0 && c > 0 {
                Some((number(s, i, 4), number(s, j, b), number(s, k, c)))
            } else {
                None
            }
        },
        Pattern::Time => {
            let a = lead_width(s, i, sep);
            let j = i + a + 1;
            let b = lead_width(s, j, sep);
            let k = j + b + 1;
            let c = tail_width(s, k);
            if a > 0 && b > 0 && c > 0 {
                Some((number(s, i, a), number(s, j, b), number(s, k, c)))
            } else {
                None
            }
        },
    }
}

/// The leftmost place at or after `from` where `pattern` fits `s`.
pub open spec fn first_match_from(pattern: Pattern, s: Seq<char>, from: int) -> Option<int>
    decreases s.len() - from,
{
    if from >= s.len() {
        None
    } else if captures_at(pattern, s, from) is Some {
        Some(from)
    } else {
        first_match_from(pattern, s, from + 1)
    }
}

/// The numbers of `pattern` at the leftmost place where it fits `s`.
pub open spec fn first_captures(pattern: Pattern, s: Seq<char>) -> Option<(int, int, int)> {
    match first_match_from(pattern, s, 0) {
        Some(i) => captures_at(pattern, s, i),
        None => None,
    }
}

/// What [`first_match_from`] finds is a place where the pattern fits, with
/// no such place before it; and it finds nothing only where there is none.
pub proof fn lemma_first_match_is_leftmost(pattern: Pattern, s: Seq<char>, from: int)
    requires
        0 <= from,
    ensures
        match first_match_from(pattern, s, from) {
            Some(i) => {
                &&& from <= i < s.len()
                &&& captures_at(pattern, s, i) is Some
                &&& forall|j: int| from <= j < i ==> captures_at(pattern, s, j) is None
            },
            None => forall|j: int| from <= j < s.len() ==> captures_at(pattern, s, j) is None,
        },
    decreases s.len() - from,
{
    if from < s.len() && captures_at(pattern, s, from) is None {
        lemma_first_match_is_leftmost(pattern, s, from + 1);
    }
}

/// Computes [`lead_width`].
fn lead(v: &[char], i: usize, sep: char) -> (w: usize)
    requires
        i <= v.len(),
    ensures
        w == lead_width(v@, i as int, sep),
        w <= 2,
        w > 0 ==> i + w < v.len(),
{
    let rest = v.len() - i;
    if rest > 2 && is_ascii_digit(v[i]) && is_ascii_digit(v[i + 1]) && v[i + 2] == sep {
        2
    } else if rest > 1 && is_ascii_digit(v[i]) && v[i + 1] == sep {
        1
    } else {
        0
    }
}

/// Computes [`tail_width`].
fn tail(v: &[char], i: usize) -> (w: usize)
    requires
        i <= v.len(),
    ensures
        w == tail_width(v@, i as int),
        w <= 2,
        i + w <= v.len(),
{
    let rest = v.len() - i;
    if rest > 1 && is_ascii_digit(v[i]) && is_ascii_digit(v[i + 1]) {
        2
    } else if rest > 0 && is_ascii_digit(v[i]) {
        1
    } else {
        0
    }
}

/// Decides [`four_digits`].
fn has_four_digits(v: &[char], i: usize) -> (r: bool)
    requires
        i <= v.len(),
    ensures
        r == four_digits(v@, i as int),
{
    v.len() - i >= 4 && is_ascii_digit(v[i]) && is_ascii_digit(v[i + 1]) && is_ascii_digit(
        v[i + 2],
    ) && is_ascii_digit(v[i + 3])
}

/// Reads a field of `width` digits that is known to start at `i`.
fn field(v: &[char], i: usize, width: usize) -> (n: u32)
    requires
        1 <= width <= 4,
        i + width <= v.len(),
        forall|k: int| i <= k < i + width ==> is_digit(#[trigger] v@[k]),
    ensures
        n == number(v@, i as int, width as int),
        n <= 9999,
{
    proof {
        lemma_pow10_bounds(width as nat);
        reveal_with_fuel(pow10, 5);
    }
    number_at(v, i, width)
}

/// The numbers of `pattern` where it fits `v` from `i` on.
pub fn captures(pattern: Pattern, v: &[char], i: usize) -> (r: Option<Numerals>)
    ensures
        r matches Some(n) ==> captures_at(pattern, v@, i as int) == Some(n@) && n.in_range(),
        r is None ==> captures_at(pattern, v@, i as int) is None,
{
    if i >= v.len() {
        return None;
    }
    match pattern {
        Pattern::MonthDayYear => {
            let a = lead(v, i, '/');
            if a == 0 {
                return None;
            }
            let j = i + a + 1;
            let b = lead(v, j, '/');
            if b == 0 {
                return None;
            }
            let k = j + b + 1;
            if !has_four_digits(v, k) {
                return None;
            }
            Some(Numerals { first: field(v, i, a), second: field(v, j, b), third: field(v, k, 4) })
        },
        Pattern::YearMonthDay => {
            if !has_four_digits(v, i) || v.len() - i <= 4 || v[i + 4] != '/' {
                return None;
            }
            let j = i + 5;
            let b = lead(v, j, '/');
            if b == 0 {
                return None;
            }
            let k = j + b + 1;
            let c = tail(v, k);
            if c == 0 {
                return None;
            }
            Some(Numerals { first: field(v, i, 4), second: field(v, j, b), third: field(v, k, c) })
        },
        Pattern::Time => {
            let a = lead(v, i, ':');
            if a == 0 {
                return None;
            }
            let j = i + a + 1;
            let b = lead(v, j, ':');
            if b == 0 {
                return None;
            }
            let k = j + b + 1;
            let c = tail(v, k);
            if c == 0 {
                return None;
            }
            Some(Numerals { first: field(v, i, a), second: field(v, j, b), third: field(v, k, c) })
        },
    }
}

/// The numbers of `pattern` at the leftmost place where it fits `v`.
pub fn find(pattern: Pattern, v: &[char]) -> (r: Option<Numerals>)
    ensures
        r matches Some(n) ==> first_captures(pattern, v@) == Some(n@) && n.in_range(),
        r is None ==> first_captures(pattern, v@) is None,
{
    let mut i: usize = 0;
    while i < v.len()
        invariant
            i <= v.len(),
            first_match_from(pattern, v@, 0) == first_match_from(pattern, v@, i as int),
        decreases v.len() - i,
    {
        let here = captures(pattern, v, i);
        if here.is_some() {
            return here;
        }
        i += 1;
    }
    None
}

/// Whether the character of `s` at `i` is the letter given in its two cases.
pub open spec fn letter_at(s: Seq<char>, i: int, lower: char, upper: char) -> bool {
    0 <= i < s.len() && (s[i] == lower || s[i] == upper)
}

/// Whether the letters `BC` start at `i`, in either case.
pub open spec fn bc_at(s: Seq<char>, i: int) -> bool {
    letter_at(s, i, 'b', 'B') && letter_at(s, i + 1, 'c', 'C')
}

/// Whether the letters `BCE` start at `i`, in either case.
pub open spec fn bce_at(s: Seq<char>, i: int) -> bool {
    bc_at(s, i) && letter_at(s, i + 2, 'e', 'E')
}

/// Whether `s` holds the era marker `BCE` or `BC` anywhere, in either case.
/// The marker need not stand alone as a word.
pub open spec fn has_era_marker(s: Seq<char>) -> bool {
    exists|i: int| #![trigger bc_at(s, i)] bce_at(s, i) || bc_at(s, i)
}

/// Decides [`has_era_marker`].
pub fn era_marker(v: &[char]) -> (r: bool)
    ensures
        r == has_era_marker(v@),
{
    let mut i: usize = 0;
    while i < v.len()
        invariant
            i <= v.len(),
            forall|j: int| 0 <= j < i ==> !bc_at(v@, j),
        decreases v.len() - i,
    {
        if v.len() - i > 1 && (v[i] == 'b' || v[i] == 'B') && (v[i + 1] == 'c' || v[i + 1] == 'C') {
            assert(bc_at(v@, i as int));
            return true;
        }
        i += 1;
    }
    false
}

/// The number of days from today that a keyword stands for: `now` and
/// `today` for none, `yesterday` for one back, `tomorrow` for one ahead,
/// `fortnight` for fourteen ahead.  `None` where `text` is no keyword; a
/// keyword is the whole text, in lower case.
pub open spec fn keyword_offset(text: Seq<char>) -> Option<int> {
    if text == "now"@ || text == "today"@ {
        Some(0)
    } else if text == "yesterday"@ {
        Some(-1)
    } else if text == "tomorrow"@ {
        Some(1)
    } else if text == "fortnight"@ {
        Some(14)
    } else {
        None
    }
}

/// Whether `text` spells `word`.
fn spells(text: &[char], word: &str) -> (r: bool)
    ensures
        r == (text@ == word@),
{
    let letters = chars_of(word);
    same_chars(text, letters.as_slice())
}

/// Computes [`keyword_offset`].
pub fn keyword_days(text: &[char]) -> (r: Option<i32>)
    ensures
        r matches Some(days) ==> keyword_offset(text@) == Some(days as int),
        r is None ==> keyword_offset(text@) is None,
{
    if spells(text, "now") || spells(text, "today") {
        Some(0)
    } else if spells(text, "yesterday") {
        Some(-1)
    } else if spells(text, "tomorrow") {
        Some(1)
    } else if spells(text, "fortnight") {
        Some(14)
    } else {
        None
    }
}

} // verus!
