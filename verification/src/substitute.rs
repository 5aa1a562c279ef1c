//! Replacing every occurrence of one text by another.

use vstd::prelude::*;

verus! {

/// Whether `s` begins with `pattern`.
pub open spec fn starts_with(s: Seq<char>, pattern: Seq<char>) -> bool {
    pattern.len() <= s.len() && s.take(pattern.len() as int) == pattern
}

/// `s` with every occurrence of `pattern` replaced by `replacement`.
///
/// Occurrences are taken from the left and do not overlap.  The empty
/// pattern occurs before every character and at the end.
pub open spec fn replace_all(s: Seq<char>, pattern: Seq<char>, replacement: Seq<char>) -> Seq<
    char,
>
    decreases s.len(),
{
    if starts_with(s, pattern) {
        if pattern.len() > 0 {
            replacement + replace_all(s.skip(pattern.len() as int), pattern, replacement)
        } else if s.len() > 0 {
            replacement + seq![s[0]] + replace_all(s.skip(1), pattern, replacement)
        } else {
            replacement
        }
    } else if s.len() > 0 {
        seq![s[0]] + replace_all(s.skip(1), pattern, replacement)
    } else {
        Seq::empty()
    }
}

/// Whether `pattern` occurs in `s` at `i`.
pub fn occurs_at(s: &[char], i: usize, pattern: &[char]) -> (r: bool)
    requires
        i <= s.len(),
    ensures
        r == starts_with(s@.skip(i as int), pattern@),
{
    if pattern.len() > s.len() - i {
        return false;
    }
    let ghost rest = s@.skip(i as int);
    let mut k: usize = 0;
    while k < pattern.len()
        invariant
            k <= pattern.len() <= s.len() - i,
            rest == s@.skip(i as int),
            rest.take(k as int) == pattern@.take(k as int),
        decreases pattern.len() - k,
    {
        if s[i + k] != pattern[k] {
            assert(rest.take(pattern.len() as int)[k as int] != pattern@[k as int]);
            return false;
        }
        assert(rest.take(k + 1) =~= rest.take(k as int).push(rest[k as int]));
        assert(pattern@.take(k + 1) =~= pattern@.take(k as int).push(pattern@[k as int]));
        k += 1;
    }
    assert(pattern@.take(pattern.len() as int) =~= pattern@);
    true
}

/// Computes [`replace_all`].
pub fn replace(s: &[char], pattern: &[char], replacement: &[char]) -> (out: Vec<char>)
    ensures
        out@ == replace_all(s@, pattern@, replacement@),
{
    let mut out: Vec<char> = Vec::new();
    let mut i: usize = 0;
    assert(s@.skip(0) =~= s@);
    while i < s.len()
        invariant
            i <= s.len(),
            replace_all(s@, pattern@, replacement@) == out@ + replace_all(
                s@.skip(i as int),
                pattern@,
                replacement@,
            ),
        decreases s.len() - i,
    {
        let ghost rest = s@.skip(i as int);
        let ghost before = out@;
        if occurs_at(s, i, pattern) {
            let mut copy = copy_of(replacement);
            out.append(&mut copy);
            if pattern.len() > 0 {
                proof {
                    assert(rest.skip(pattern.len() as int) =~= s@.skip(i + pattern.len()));
                    let tail = replace_all(rest.skip(pattern.len() as int), pattern@, replacement@);
                    assert((before + replacement@) + tail =~= before + (replacement@ + tail));
                }
                i += pattern.len();
            } else {
                out.push(s[i]);
                proof {
                    assert(rest.skip(1) =~= s@.skip(i + 1));
                    let tail = replace_all(rest.skip(1), pattern@, replacement@);
                    assert(out@ =~= before + replacement@ + seq![rest[0]]);
                    assert((before + replacement@ + seq![rest[0]]) + tail =~= before + (
                    replacement@ + seq![rest[0]] + tail));
                }
                i += 1;
            }
        } else {
            out.push(s[i]);
            proof {
                assert(rest.skip(1) =~= s@.skip(i + 1));
                let tail = replace_all(rest.skip(1), pattern@, replacement@);
                assert(out@ =~= before + seq![rest[0]]);
                assert((before + seq![rest[0]]) + tail =~= before + (seq![rest[0]] + tail));
            }
            i += 1;
        }
    }
    let ghost before = out@;
    if pattern.len() == 0 {
        let mut copy = copy_of(replacement);
        out.append(&mut copy);
        assert(s@.skip(i as int).take(0) =~= pattern@);
    }
    assert(out@ =~= before + replace_all(s@.skip(i as int), pattern@, replacement@));
    out
}

/// A vector with the characters of `v`.
pub fn copy_of(v: &[char]) -> (r: Vec<char>)
    ensures
        r@ == v@,
{
    let mut r: Vec<char> = Vec::new();
    let mut i: usize = 0;
    while i < v.len()
        invariant
            i <= v.len(),
            r@ == v@.take(i as int),
        decreases v.len() - i,
    {
        assert(v@.take(i + 1) =~= v@.take(i as int).push(v@[i as int]));
        r.push(v[i]);
        i += 1;
    }
    assert(v@.take(v.len() as int) =~= v@);
    r
}

/// Replacing a text in itself leaves the replacement and nothing else.
pub proof fn lemma_replace_whole(pattern: Seq<char>, replacement: Seq<char>)
    ensures
        replace_all(pattern, pattern, replacement) == replacement,
{
    assert(pattern.take(pattern.len() as int) =~= pattern);
    if pattern.len() > 0 {
        assert(pattern.skip(pattern.len() as int) =~= Seq::<char>::empty());
        assert(!starts_with(Seq::<char>::empty(), pattern));
        assert(replace_all(Seq::<char>::empty(), pattern, replacement) =~= Seq::<char>::empty());
        assert(replacement + Seq::<char>::empty() =~= replacement);
    }
}

} // verus!
