//! Serialization of compendium entries: one self-describing JSON object per
//! entry, with the `ic` key omitted when no information content is known and
//! the `l` key omitted when an identifier's label is empty.

use vstd::prelude::*;
use crate::text::push_char;
use crate::types::{CompendiaEntry, CompendiaEntryV, CompendiaIdentifier, IdPairV};

verus! {

/// The lower-case hexadecimal digit for a value below sixteen.
pub open spec fn hex_digit(d: int) -> char {
    if d == 0 {
        '0'
    } else if d == 1 {
        '1'
    } else if d == 2 {
        '2'
    } else if d == 3 {
        '3'
    } else if d == 4 {
        '4'
    } else if d == 5 {
        '5'
    } else if d == 6 {
        '6'
    } else if d == 7 {
        '7'
    } else if d == 8 {
        '8'
    } else if d == 9 {
        '9'
    } else if d == 10 {
        'a'
    } else if d == 11 {
        'b'
    } else if d == 12 {
        'c'
    } else if d == 13 {
        'd'
    } else if d == 14 {
        'e'
    } else {
        'f'
    }
}

/// How one character appears inside a JSON string literal: quote and
/// backslash are escaped, the five short escapes are used for their
/// characters, any other control character becomes a `\u00..` escape, and
/// everything else stands for itself.
pub open spec fn json_escaped_char(c: char) -> Seq<char> {
    if c == '"' {
        seq!['\\', '"']
    } else if c == '\\' {
        seq!['\\', '\\']
    } else if c == '\u{8}' {
        seq!['\\', 'b']
    } else if c == '\t' {
        seq!['\\', 't']
    } else if c == '\n' {
        seq!['\\', 'n']
    } else if c == '\u{c}' {
        seq!['\\', 'f']
    } else if c == '\r' {
        seq!['\\', 'r']
    } else if (c as u32) < 32 {
        seq!['\\', 'u', '0', '0', hex_digit(((c as u32) / 16) as int), hex_digit(
            ((c as u32) % 16) as int,
        )]
    } else {
        seq![c]
    }
}

/// The body of a JSON string literal for a character sequence.
pub open spec fn json_escaped(s: Seq<char>) -> Seq<char>
    decreases s.len(),
{
    if s.len() == 0 {
        Seq::empty()
    } else {
        json_escaped(s.drop_last()) + json_escaped_char(s.last())
    }
}

/// A whole JSON string literal: the escaped body between double quotes.
pub open spec fn json_string(s: Seq<char>) -> Seq<char> {
    seq!['"'] + json_escaped(s) + seq!['"']
}

/// One identifier pair as a JSON object; the `l` key is omitted when the
/// label is empty.
pub open spec fn pair_record(p: IdPairV) -> Seq<char> {
    if p.label.len() == 0 {
        "{\"i\":"@ + json_string(p.id) + "}"@
    } else {
        "{\"i\":"@ + json_string(p.id) + ",\"l\":"@ + json_string(p.label) + "}"@
    }
}

/// A comma-separated list of identifier pair records.
pub open spec fn pairs_list(ps: Seq<IdPairV>) -> Seq<char>
    decreases ps.len(),
{
    if ps.len() == 0 {
        Seq::empty()
    } else if ps.len() == 1 {
        pair_record(ps[0])
    } else {
        pairs_list(ps.drop_last()) + ","@ + pair_record(ps.last())
    }
}

/// A whole serialized compendium entry: the `type` key, the `ic` key only
/// when information content is present, and the `identifiers` list.
pub open spec fn serialized_entry(e: CompendiaEntryV) -> Seq<char> {
    "{\"type\":"@ + json_string(e.compendia_type) + (match e.information_content {
        Option::None => Seq::<char>::empty(),
        Option::Some(t) => ",\"ic\":"@ + json_string(t),
    }) + ",\"identifiers\":["@ + pairs_list(e.identifiers) + "]}"@
}

/// An entry without information content serializes with no `ic` segment at
/// all: the record is exactly the type segment followed by the identifier
/// list.
pub proof fn lemma_ic_omitted(e: CompendiaEntryV)
    requires
        e.information_content is None,
    ensures
        serialized_entry(e) == "{\"type\":"@ + json_string(e.compendia_type)
            + ",\"identifiers\":["@ + pairs_list(e.identifiers) + "]}"@,
{
    assert(serialized_entry(e) =~= "{\"type\":"@ + json_string(e.compendia_type)
        + ",\"identifiers\":["@ + pairs_list(e.identifiers) + "]}"@);
}

/// An identifier pair with an empty label serializes with no `l` key: the
/// record holds the `i` key alone.
pub proof fn lemma_empty_label_omitted(p: IdPairV)
    requires
        p.label.len() == 0,
    ensures
        pair_record(p) == "{\"i\":"@ + json_string(p.id) + "}"@,
{
}

/// The lower-case hexadecimal digit character for a value below sixteen.
pub fn hex_digit_char(d: u32) -> (c: char)
    requires
        d < 16,
    ensures
        c == hex_digit(d as int),
{
    if d == 0 {
        '0'
    } else if d == 1 {
        '1'
    } else if d == 2 {
        '2'
    } else if d == 3 {
        '3'
    } else if d == 4 {
        '4'
    } else if d == 5 {
        '5'
    } else if d == 6 {
        '6'
    } else if d == 7 {
        '7'
    } else if d == 8 {
        '8'
    } else if d == 9 {
        '9'
    } else if d == 10 {
        'a'
    } else if d == 11 {
        'b'
    } else if d == 12 {
        'c'
    } else if d == 13 {
        'd'
    } else if d == 14 {
        'e'
    } else {
        'f'
    }
}

/// Append the escaped body of a JSON string literal for `s`.
pub fn escape_into(out: &mut String, s: &str)
    ensures
        final(out)@ == old(out)@ + json_escaped(s@),
{
    let n = s.unicode_len();
    for i in 0..n
        invariant
            n == s@.len(),
            out@ == old(out)@ + json_escaped(s@.take(i as int)),
    {
        let c = s.get_char(i);
        if c == '"' {
            push_char(out, '\\');
            push_char(out, '"');
        } else if c == '\\' {
            push_char(out, '\\');
            push_char(out, '\\');
        } else if c == '\u{8}' {
            push_char(out, '\\');
            push_char(out, 'b');
        } else if c == '\t' {
            push_char(out, '\\');
            push_char(out, 't');
        } else if c == '\n' {
            push_char(out, '\\');
            push_char(out, 'n');
        } else if c == '\u{c}' {
            push_char(out, '\\');
            push_char(out, 'f');
        } else if c == '\r' {
            push_char(out, '\\');
            push_char(out, 'r');
        } else {
            let code = c as u32;
            if code < 32 {
                push_char(out, '\\');
                push_char(out, 'u');
                push_char(out, '0');
                push_char(out, '0');
                push_char(out, hex_digit_char(code / 16));
                push_char(out, hex_digit_char(code % 16));
            } else {
                push_char(out, c);
            }
        }
        proof {
            assert(s@.take(i + 1).drop_last() =~= s@.take(i as int));
            assert(out@ =~= old(out)@ + json_escaped(s@.take(i + 1)));
        }
    }
    proof {
        assert(s@.take(n as int) =~= s@);
    }
}

/// Append a whole JSON string literal for `s`.
pub fn json_string_into(out: &mut String, s: &str)
    ensures
        final(out)@ == old(out)@ + json_string(s@),
{
    push_char(out, '"');
    escape_into(out, s);
    push_char(out, '"');
    proof {
        assert(out@ =~= old(out)@ + json_string(s@));
    }
}

/// Append one identifier pair record.
pub fn pair_into(out: &mut String, p: &CompendiaIdentifier)
    ensures
        final(out)@ == old(out)@ + pair_record(p.deep_view()),
{
    out.append("{\"i\":");
    json_string_into(out, p.id.as_str());
    if p.label.unicode_len() > 0 {
        out.append(",\"l\":");
        json_string_into(out, p.label.as_str());
    }
    out.append("}");
    proof {
        assert(out@ =~= old(out)@ + pair_record(p.deep_view()));
    }
}

/// Serialize one compendium entry to its line of structured text.
pub fn serialize_entry(e: &CompendiaEntry) -> (out: String)
    ensures
        out@ == serialized_entry(e.deep_view()),
{
    let mut out = String::new();
    out.append("{\"type\":");
    json_string_into(&mut out, e.compendia_type.as_str());
    match &e.information_content {
        Option::Some(t) => {
            out.append(",\"ic\":");
            json_string_into(&mut out, t.as_str());
        },
        Option::None => {},
    }
    let ghost head = out@;
    out.append(",\"identifiers\":[");
    let n = e.identifiers.len();
    for i in 0..n
        invariant
            n == e.identifiers.len(),
            out@ == head + ",\"identifiers\":["@ + pairs_list(e.identifiers.deep_view().take(i as int)),
    {
        if i > 0 {
            out.append(",");
        }
        pair_into(&mut out, &e.identifiers[i]);
        proof {
            assert(e.identifiers.deep_view().take(i + 1).drop_last() =~= e.identifiers.deep_view()
                .take(i as int));
            assert(out@ =~= head + ",\"identifiers\":["@ + pairs_list(
                e.identifiers.deep_view().take(i + 1),
            ));
        }
    }
    out.append("]}");
    proof {
        assert(e.identifiers.deep_view().take(n as int) =~= e.identifiers.deep_view());
        assert(out@ =~= serialized_entry(e.deep_view()));
    }
    out
}

} // verus!
