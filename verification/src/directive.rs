//! The directives that the formatter renders itself, before the strftime
//! engine sees the template.
//!
//! A table maps the letter after `%` to a way of rendering.  The table can
//! grow: a later entry for a letter takes the place of an earlier one.  It
//! is a hash map keyed by the letter's code point.

use std::collections::HashMap;
use vstd::prelude::*;
use crate::calendar::{DateFields, ParsedDate};
use crate::decimal::{decimal_text, padded_text, push_decimal};
use crate::text::push_str;

verus! {

/// A way of rendering a directive from a timestamp.
#[derive(Clone, Copy, Debug, PartialEq, Eq)]
pub enum Directive {
    /// The nanoseconds past the second, as nine digits.
    Nanoseconds,
    /// The suffix `HE` of the Human Era.
    EraSuffix,
}

/// What `directive` writes for a timestamp.
pub open spec fn directive_text(directive: Directive, fields: DateFields) -> Seq<char> {
    match directive {
        Directive::Nanoseconds => padded_text(fields.nanosecond as nat, 9),
        Directive::EraSuffix => "HE"@,
    }
}

/// The mapping of the standard table: `%N` and `%E`.
pub open spec fn standard_map() -> Map<char, Directive> {
    Map::empty().insert('N', Directive::Nanoseconds).insert('E', Directive::EraSuffix)
}

/// The number of a letter, by which the table finds it.
pub open spec fn code_point(letter: char) -> u32 {
    letter as u32
}

/// Two letters with one number are one letter.
proof fn lemma_code_points_differ(a: char, b: char)
    requires
        a as u32 == b as u32,
    ensures
        a == b,
{
}

/// A mapping from directive letters to ways of rendering.
pub struct DirectiveTable {
    entries: HashMap<u32, Directive>,
}

impl View for DirectiveTable {
    type V = Map<char, Directive>;

    closed spec fn view(&self) -> Map<char, Directive> {
        Map::new(
            |letter: char| self.entries@.dom().contains(code_point(letter)),
            |letter: char| self.entries@[code_point(letter)],
        )
    }
}

impl DirectiveTable {
    /// A table without entries.
    pub fn new() -> (table: DirectiveTable)
        ensures
            table@ == Map::<char, Directive>::empty(),
    {
        let table = DirectiveTable { entries: HashMap::new() };
        assert(table@ =~= Map::<char, Directive>::empty());
        table
    }

    /// The table of `%N`, nanoseconds, and `%E`, the era suffix.
    pub fn standard() -> (table: DirectiveTable)
        ensures
            table@ == standard_map(),
    {
        let mut table = DirectiveTable::new();
        table.insert('N', Directive::Nanoseconds);
        table.insert('E', Directive::EraSuffix);
        table
    }

    /// Sets the rendering of `letter`, in place of an earlier one.
    pub fn insert(&mut self, letter: char, directive: Directive)
        ensures
            final(self)@ == old(self)@.insert(letter, directive),
    {
        broadcast use vstd::std_specs::hash::group_hash_axioms;

        self.entries.insert(letter as u32, directive);
        assert(self.entries@ == old(self).entries@.insert(letter as u32, directive));
        assert forall|c: char| #[trigger] code_point(c) == code_point(letter) implies c
            == letter by {
            lemma_code_points_differ(c, letter);
        }
        assert(self@ =~= old(self)@.insert(letter, directive));
    }

    /// The rendering of `letter`, where the table has one.
    pub fn get(&self, letter: char) -> (found: Option<Directive>)
        ensures
            found == if self@.dom().contains(letter) {
                Some(self@[letter])
            } else {
                None::<Directive>
            },
    {
        broadcast use vstd::std_specs::hash::group_hash_axioms;

        let key: u32 = letter as u32;
        match self.entries.get(&key) {
            Some(directive) => Some(*directive),
            None => None,
        }
    }
}

/// The template with each directive of `table` rendered, read from the
/// left: `%` and the character after it are taken together.  A pair whose
/// letter is in the table gives the directive's text; any other pair, `%%`
/// among them, stays as it is for the strftime engine; so does a `%` at the
/// very end.
pub open spec fn expand(template: Seq<char>, table: Map<char, Directive>, fields: DateFields) -> Seq<
    char,
>
    decreases template.len(),
{
    if template.len() == 0 {
        Seq::empty()
    } else if template[0] != '%' {
        seq![template[0]] + expand(template.skip(1), table, fields)
    } else if template.len() == 1 {
        seq!['%']
    } else {
        let letter = template[1];
        let head = if letter != '%' && table.dom().contains(letter) {
            directive_text(table[letter], fields)
        } else {
            seq!['%', letter]
        };
        head + expand(template.skip(2), table, fields)
    }
}

/// Appends to `out` what `directive` writes for `date`.
pub fn render(out: &mut Vec<char>, directive: Directive, date: &ParsedDate)
    ensures
        final(out)@ == old(out)@ + directive_text(directive, date@),
{
    match directive {
        Directive::Nanoseconds => push_padded(out, date.nanosecond(), 9),
        Directive::EraSuffix => push_str(out, "HE"),
    }
}

/// Appends the decimal numeral of `n` to `out`, with zeros in front up to
/// `width` characters.
pub fn push_padded(out: &mut Vec<char>, n: u32, width: usize)
    ensures
        final(out)@ == old(out)@ + padded_text(n as nat, width as nat),
{
    let mut digits: Vec<char> = Vec::new();
    push_decimal(&mut digits, n as u64);
    assert(digits@ =~= decimal_text(n as nat));
    let mut k: usize = digits.len();
    while k < width
        invariant
            digits.len() <= k,
            k <= width || k == digits.len(),
            out@ == old(out)@ + Seq::new((k - digits.len()) as nat, |i: int| '0'),
        decreases width - k,
    {
        out.push('0');
        k += 1;
        assert(out@ =~= old(out)@ + Seq::new((k - digits.len()) as nat, |i: int| '0'));
    }
    out.append(&mut digits);
    assert(final(out)@ =~= old(out)@ + padded_text(n as nat, width as nat));
}

/// Computes [`expand`].
pub fn expand_template(template: &[char], table: &DirectiveTable, date: &ParsedDate) -> (out: Vec<
    char,
>)
    ensures
        out@ == expand(template@, table@, date@),
{
    let mut out: Vec<char> = Vec::new();
    let mut i: usize = 0;
    assert(template@.skip(0) =~= template@);
    while i < template.len()
        invariant
            i <= template.len(),
            expand(template@, table@, date@) == out@ + expand(
                template@.skip(i as int),
                table@,
                date@,
            ),
        decreases template.len() - i,
    {
        let ghost rest = template@.skip(i as int);
        let ghost before = out@;
        let c = template[i];
        if c != '%' {
            out.push(c);
            proof {
                assert(rest.skip(1) =~= template@.skip(i + 1));
                assert(out@ =~= before + seq![c]);
                assert((before + seq![c]) + expand(rest.skip(1), table@, date@) =~= before + (seq![
                    c,
                ] + expand(rest.skip(1), table@, date@)));
            }
            i += 1;
        } else if template.len() - i == 1 {
            out.push('%');
            proof {
                assert(rest.len() == 1);
                assert(template@.skip(i + 1).len() == 0);
                assert(out@ =~= before + seq!['%']);
                assert(before + seq!['%'] =~= before + seq!['%'] + expand(
                    template@.skip(i + 1),
                    table@,
                    date@,
                ));
            }
            i += 1;
        } else {
            let letter = template[i + 1];
            let special = if letter != '%' {
                table.get(letter)
            } else {
                None
            };
            match special {
                Some(directive) => render(&mut out, directive, date),
                None => {
                    out.push('%');
                    out.push(letter);
                    assert(out@ =~= before + seq!['%', letter]);
                },
            }
            proof {
                assert(rest.skip(2) =~= template@.skip(i + 2));
                let head = if letter != '%' && table@.dom().contains(letter) {
                    directive_text(table@[letter], date@)
                } else {
                    seq!['%', letter]
                };
                assert(out@ == before + head);
                assert((before + head) + expand(rest.skip(2), table@, date@) =~= before + (head
                    + expand(rest.skip(2), table@, date@)));
            }
            i += 2;
        }
    }
    assert(out@ + Seq::<char>::empty() =~= out@);
    out
}

} // verus!
