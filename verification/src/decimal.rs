//! Decimal numerals: reading digits as numbers and writing numbers as digits.

use vstd::prelude::*;

verus! {

/// Whether `c` is one of the ten ASCII digits.
pub open spec fn is_digit(c: char) -> bool {
    '0' <= c <= '9'
}

/// The number that the digit `c` stands for.
pub open spec fn digit_value(c: char) -> int {
    c as int - '0' as int
}

/// The digit that stands for `d`, for `d` from 0 to 9.
pub open spec fn digit_char(d: int) -> char {
    (d + '0' as int) as char
}

/// Whether `s` is made of ASCII digits only.
pub open spec fn all_digits(s: Seq<char>) -> bool {
    forall|i: int| 0 <= i < s.len() ==> is_digit(#[trigger] s[i])
}

/// The number that the digits of `s` write in base ten; 0 for no digits.
pub open spec fn decimal_value(s: Seq<char>) -> int
    decreases s.len(),
{
    if s.len() == 0 {
        0
    } else {
        10 * decimal_value(s.drop_last()) + digit_value(s.last())
    }
}

/// The shortest decimal numeral of `n`.
pub open spec fn decimal_text(n: nat) -> Seq<char>
    decreases n,
{
    if n < 10 {
        seq![digit_char(n as int)]
    } else {
        decimal_text(n / 10).push(digit_char((n % 10) as int))
    }
}

/// The decimal numeral of `n`, with zeros in front up to `width` characters.
pub open spec fn padded_text(n: nat, width: nat) -> Seq<char> {
    let digits = decimal_text(n);
    if digits.len() < width {
        Seq::new((width - digits.len()) as nat, |i: int| '0') + digits
    } else {
        digits
    }
}

/// Decides [`is_digit`].
pub fn is_ascii_digit(c: char) -> (r: bool)
    ensures
        r == is_digit(c),
{
    '0' <= c && c <= '9'
}

/// Reads the `width` digits of `v` that start at `start`.
pub fn number_at(v: &[char], start: usize, width: usize) -> (n: u32)
    requires
        width <= 9,
        start + width <= v.len(),
        all_digits(v@.subrange(start as int, start + width)),
    ensures
        n == decimal_value(v@.subrange(start as int, start + width)),
        n < pow10(width as nat),
{
    let mut n: u32 = 0;
    let mut i: usize = 0;
    while i < width
        invariant
            i <= width <= 9,
            start + width <= v.len(),
            all_digits(v@.subrange(start as int, start + width)),
            n == decimal_value(v@.subrange(start as int, start + i)),
            n < pow10(i as nat),
        decreases width - i,
    {
        let c = v[start + i];
        proof {
            let whole = v@.subrange(start as int, start + width);
            let next = v@.subrange(start as int, start + i + 1);
            assert(whole[i as int] == c);
            assert(next.drop_last() =~= v@.subrange(start as int, start + i));
            assert(next.last() == c);
            lemma_pow10_bounds(i as nat);
        }
        n = n * 10 + (c as u32 - '0' as u32);
        i += 1;
    }
    n
}

/// Ten to the power `e`.
pub open spec fn pow10(e: nat) -> nat
    decreases e,
{
    if e == 0 {
        1
    } else {
        10 * pow10((e - 1) as nat)
    }
}

/// Powers of ten up to the ninth fit in 32 bits with room for one more digit.
pub proof fn lemma_pow10_bounds(e: nat)
    requires
        e <= 9,
    ensures
        1 <= pow10(e) <= 1_000_000_000,
        e < 9 ==> pow10(e) <= 100_000_000,
        pow10(e + 1) == 10 * pow10(e),
{
    reveal_with_fuel(pow10, 11);
}

/// Appends the shortest decimal numeral of `n` to `out`.
pub fn push_decimal(out: &mut Vec<char>, n: u64)
    ensures
        final(out)@ == old(out)@ + decimal_text(n as nat),
    decreases n,
{
    if n >= 10 {
        push_decimal(out, n / 10);
    }
    let d: u8 = (n % 10) as u8;
    out.push((48u8 + d) as char);
    assert(final(out)@ =~= old(out)@ + decimal_text(n as nat));
}

/// A numeral written by [`decimal_text`] is made of digits and reads back
/// as the number it was written for.
pub proof fn lemma_decimal_round_trip(n: nat)
    ensures
        all_digits(decimal_text(n)),
        decimal_text(n).len() >= 1,
        decimal_value(decimal_text(n)) == n,
    decreases n,
{
    let text = decimal_text(n);
    if n < 10 {
        assert(text.drop_last() =~= Seq::<char>::empty());
        assert(decimal_value(text.drop_last()) == 0);
        assert(text.last() == digit_char(n as int));
    } else {
        lemma_decimal_round_trip(n / 10);
        assert(text.drop_last() =~= decimal_text(n / 10));
        assert(text.last() == digit_char((n % 10) as int));
        assert forall|i: int| 0 <= i < text.len() implies is_digit(#[trigger] text[i]) by {
            if i < text.len() - 1 {
                assert(text[i] == decimal_text(n / 10)[i]);
            }
        }
    }
}

/// The decimal numeral of `n`, with a minus sign where `n` is negative.
pub open spec fn integer_text(n: int) -> Seq<char> {
    if n < 0 {
        seq!['-'] + decimal_text((-n) as nat)
    } else {
        decimal_text(n as nat)
    }
}

/// Appends the decimal numeral of `n` to `out`.
pub fn push_integer(out: &mut Vec<char>, n: i64)
    ensures
        final(out)@ == old(out)@ + integer_text(n as int),
{
    if n < 0 {
        out.push('-');
        push_decimal(out, (-(n as i128)) as u64);
        assert(final(out)@ =~= old(out)@ + (seq!['-'] + decimal_text((-n) as nat)));
    } else {
        push_decimal(out, n as u64);
    }
}

} // verus!
