//! Character-level text helpers: separator splitting and string building.

use vstd::prelude::*;

verus! {

/// Relies on `String::push`: appends exactly the given character at the end.
#[verifier::external_body]
pub fn push_char(out: &mut String, c: char)
    ensures
        final(out)@ == old(out)@.push(c),
{
    out.push(c);
}

/// Equality of two strings, meaning equality of their character sequences.
pub fn string_eq(a: &String, b: &String) -> (r: bool)
    ensures
        r == (a@ == b@),
{
    let r = a.eq(b);
    r
}

/// Splitting a character sequence at every occurrence of a separator.
/// A sequence with `n` separators yields `n + 1` pieces; the empty sequence
/// yields one empty piece.
pub open spec fn split_on(s: Seq<char>, sep: char) -> Seq<Seq<char>>
    decreases s.len(),
{
    if s.len() == 0 {
        seq![Seq::empty()]
    } else {
        let prev = split_on(s.drop_last(), sep);
        if s.last() == sep {
            prev.push(Seq::empty())
        } else {
            prev.drop_last().push(prev.last().push(s.last()))
        }
    }
}

/// Splitting always yields at least one piece.
pub proof fn lemma_split_on_len(s: Seq<char>, sep: char)
    ensures
        split_on(s, sep).len() >= 1,
    decreases s.len(),
{
    if s.len() > 0 {
        lemma_split_on_len(s.drop_last(), sep);
    }
}

/// Split a string at every occurrence of the separator character.
pub fn split_string(s: &str, sep: char) -> (out: Vec<String>)
    ensures
        out.deep_view() == split_on(s@, sep),
{
    let n = s.unicode_len();
    let mut out: Vec<String> = Vec::new();
    let mut cur: String = String::new();
    for i in 0..n
        invariant
            n == s@.len(),
            split_on(s@.take(i as int), sep) == out.deep_view().push(cur@),
    {
        proof {
            lemma_split_on_len(s@.take(i as int), sep);
            assert(s@.take(i + 1).drop_last() =~= s@.take(i as int));
            assert(s@.take(i + 1).last() == s@[i as int]);
        }
        let c = s.get_char(i);
        if c == sep {
            out.push(cur);
            cur = String::new();
            proof {
                assert(split_on(s@.take(i + 1), sep) =~= out.deep_view().push(cur@));
            }
        } else {
            push_char(&mut cur, c);
            proof {
                assert(split_on(s@.take(i as int), sep).drop_last() =~= out.deep_view());
                assert(split_on(s@.take(i + 1), sep) =~= out.deep_view().push(cur@));
            }
        }
    }
    proof {
        assert(s@.take(n as int) =~= s@);
    }
    out.push(cur);
    out
}

} // verus!
