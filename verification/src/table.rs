//! The mapping-table reader: a tab-separated text with a header line is
//! decoded into an ordered sequence of mapping rows.  Every non-header line
//! must split into exactly the nine named fields; one bad line fails the
//! whole read.

use vstd::prelude::*;
use crate::text::{split_on, split_string, lemma_split_on_len};
use crate::types::{SSSOMEntry, SSSOMRowV, ConversionError};

verus! {

/// The lines of a mapping table: the text split at every newline, with one
/// trailing empty piece (from a final newline) discarded.
pub open spec fn table_lines(s: Seq<char>) -> Seq<Seq<char>> {
    let raw = split_on(s, '\n');
    if raw.last() == Seq::<char>::empty() {
        raw.drop_last()
    } else {
        raw
    }
}

/// A line is well formed when it splits into exactly nine tab-separated fields.
pub open spec fn line_ok(line: Seq<char>) -> bool {
    split_on(line, '\t').len() == 9
}

/// The row encoded by a well-formed line, fields in column order.
pub open spec fn row_of(line: Seq<char>) -> SSSOMRowV {
    let fs = split_on(line, '\t');
    SSSOMRowV {
        subject_id: fs[0],
        subject_label: fs[1],
        subject_category: fs[2],
        predicate_id: fs[3],
        object_id: fs[4],
        object_label: fs[5],
        object_category: fs[6],
        match_type: fs[7],
        other: fs[8],
    }
}

/// The rows of a mapping table, or a failure when some non-header line is
/// malformed.  The first line is the header and carries no row; a table
/// without lines has no rows.
pub open spec fn parsed_table(s: Seq<char>) -> Result<Seq<SSSOMRowV>, ()> {
    let ls = table_lines(s);
    if forall|i: int| 1 <= i < ls.len() ==> line_ok(ls[i]) {
        Ok(
            Seq::new(
                if ls.len() == 0 {
                    0
                } else {
                    (ls.len() - 1) as nat
                },
                |i: int| row_of(ls[i + 1]),
            ),
        )
    } else {
        Err(())
    }
}

/// Parse a whole mapping table.  Fails exactly when some non-header line does
/// not split into the nine fields; otherwise returns the rows in line order.
pub fn parse_sssom_table(content: &str) -> (r: Result<Vec<SSSOMEntry>, ConversionError>)
    ensures
        match parsed_table(content@) {
            Ok(rs) => r matches Ok(v) && v.deep_view() == rs,
            Err(_) => r matches Err(e) && e is RowParse,
        },
{
    let mut lines = split_string(content, '\n');
    proof {
        lemma_split_on_len(content@, '\n');
    }
    if lines.len() > 0 && lines[lines.len() - 1].unicode_len() == 0 {
        proof {
            assert(lines.deep_view().last() =~= Seq::<char>::empty());
        }
        let _ = lines.pop();
        proof {
            assert(lines.deep_view() =~= table_lines(content@));
        }
    } else {
        proof {
            assert(lines.deep_view() =~= table_lines(content@));
        }
    }
    let ghost tl = table_lines(content@);
    let mut rows: Vec<SSSOMEntry> = Vec::new();
    if lines.len() == 0 {
        return Ok(rows);
    }
    let n = lines.len();
    let mut j: usize = 1;
    while j < n
        invariant
            n == lines.len(),
            1 <= j <= n,
            lines.deep_view() == tl,
            tl == table_lines(content@),
            forall|i: int| 1 <= i < j ==> line_ok(tl[i]),
            rows.deep_view() == Seq::new((j - 1) as nat, |i: int| row_of(tl[i + 1])),
        decreases n - j,
    {
        let fields = split_string(lines[j].as_str(), '\t');
        if fields.len() != 9 {
            proof {
                assert(!line_ok(tl[j as int]));
            }
            return Err(ConversionError::RowParse);
        }
        let row = SSSOMEntry {
            subject_id: fields[0].clone(),
            subject_label: fields[1].clone(),
            subject_category: fields[2].clone(),
            predicate_id: fields[3].clone(),
            object_id: fields[4].clone(),
            object_label: fields[5].clone(),
            object_category: fields[6].clone(),
            match_type: fields[7].clone(),
            other: fields[8].clone(),
        };
        proof {
            assert(row.deep_view() =~= row_of(tl[j as int]));
        }
        let ghost prev = rows.deep_view();
        rows.push(row);
        j = j + 1;
        proof {
            assert(rows.deep_view() =~= prev.push(row.deep_view()));
            assert(rows.deep_view() =~= Seq::new((j - 1) as nat, |i: int| row_of(tl[i + 1])));
        }
    }
    proof {
        assert(rows.deep_view() =~= Seq::new((tl.len() - 1) as nat, |i: int| row_of(tl[i + 1])));
    }
    Ok(rows)
}

} // verus!
