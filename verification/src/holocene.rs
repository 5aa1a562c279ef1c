//! Years of the Human Era.
//!
//! Two counts are kept apart.  [`holocene_year`] writes the numeral of a
//! Gregorian year moved on by 10 001.  The lines that the formatter prints
//! carry the [`displayed_year`]: a year of the common era moved on by
//! 10 000, and a year marked BCE counted back from the current year, by a
//! rule whose answer the current year cancels out of.

use vstd::prelude::*;
use crate::calendar::{DateFields, ParsedDate};
use crate::decimal::{decimal_value, integer_text, lemma_decimal_round_trip, push_integer};
use crate::text::string_of;

verus! {

/// The Holocene year of a Gregorian year.
pub open spec fn holocene_year_of(year: int) -> int {
    year + 10_000 + 1
}

/// The numeral of the Holocene year of a Gregorian year.
pub open spec fn holocene_numeral(year: int) -> Seq<char> {
    integer_text(holocene_year_of(year))
}

/// Writes the Holocene year of the Gregorian year `year`.
///
/// The answer depends on the year alone and is right for every year that
/// 32 bits hold.
pub fn holocene_year(year: i32) -> (numeral: String)
    ensures
        numeral@ == holocene_numeral(year as int),
{
    let mut out: Vec<char> = Vec::new();
    push_integer(&mut out, year as i64 + 10_000 + 1);
    assert(out@ =~= holocene_numeral(year as int));
    string_of(out.as_slice())
}

/// The numeral of a Holocene year that is not negative reads back as the
/// Gregorian year and 10 001 more; so a later year has a larger numeral,
/// and no two years share one.
pub proof fn lemma_holocene_numeral_reads_back(year: int)
    requires
        year >= -10_001,
    ensures
        decimal_value(holocene_numeral(year)) == year + 10_001,
{
    lemma_decimal_round_trip((year + 10_001) as nat);
}

/// The year shown for a year numeral marked BCE, as counted in
/// `current_year`.
pub open spec fn bce_displayed_year(current_year: int, numeral: int) -> int {
    (current_year + 10_000) - (current_year + numeral - 1)
}

/// The year that the formatter shows for a timestamp, as counted in
/// `current_year`.
pub open spec fn displayed_year_of(fields: DateFields, current_year: int) -> int {
    if fields.is_bce {
        bce_displayed_year(current_year, fields.year)
    } else {
        fields.year + 10_000
    }
}

/// The displayed year with the current year cancelled out: a BCE numeral
/// `n` is shown as `10001 - n`, a year `y` of the common era as
/// `y + 10000`.
pub open spec fn shown_year(fields: DateFields) -> int {
    if fields.is_bce {
        10_001 - fields.year
    } else {
        fields.year + 10_000
    }
}

/// Computes [`displayed_year_of`].
pub fn displayed_year(date: &ParsedDate, current_year: i32) -> (shown: i32)
    ensures
        shown == displayed_year_of(date@, current_year as int),
        shown == shown_year(date@),
        2 <= shown <= 19_999,
{
    let year: i64 = date.year() as i64;
    if date.is_bce() {
        let now: i64 = current_year as i64;
        ((now + 10_000) - (now + year - 1)) as i32
    } else {
        (year + 10_000) as i32
    }
}

/// The displayed year does not depend on the year in which it is counted.
pub proof fn lemma_displayed_year_is_timeless(
    fields: DateFields,
    current_year: int,
    other_year: int,
)
    ensures
        displayed_year_of(fields, current_year) == displayed_year_of(fields, other_year),
        displayed_year_of(fields, current_year) == shown_year(fields),
{
}

/// The displayed year of a valid timestamp is positive and has at most
/// five digits.
pub proof fn lemma_displayed_year_range(fields: DateFields, current_year: int)
    requires
        fields.is_valid(),
    ensures
        2 <= displayed_year_of(fields, current_year) <= 19_999,
        fields.is_bce ==> displayed_year_of(fields, current_year) <= 10_001,
        !fields.is_bce ==> displayed_year_of(fields, current_year) >= 10_000,
{
}

} // verus!
