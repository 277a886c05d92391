//! The invariants of the grouping and aggregation core, stated and proved
//! over its mathematical model.

use vstd::prelude::*;
use crate::convert::{
    collapsed_adjacent, converted, distinct_keys, entries_of, entry_for, group_rows, pair_of,
};
use crate::types::{IdPairV, SSSOMRowV, key_of};

verus! {

broadcast use vstd::prelude::Seq::lemma_filter_pred, vstd::prelude::Seq::lemma_push_to_set_commute,
    vstd::set::group_set_axioms;

/// Every row's key appears among the distinct keys.
pub proof fn lemma_distinct_keys_complete(rows: Seq<SSSOMRowV>, i: int)
    requires
        0 <= i < rows.len(),
    ensures
        distinct_keys(rows).contains(key_of(rows[i])),
    decreases rows.len(),
{
    let prev = distinct_keys(rows.drop_last());
    if i == rows.len() - 1 {
        if !prev.contains(key_of(rows.last())) {
            assert(distinct_keys(rows)[prev.len() as int] == key_of(rows.last()));
        }
    } else {
        lemma_distinct_keys_complete(rows.drop_last(), i);
        assert(rows.drop_last()[i] == rows[i]);
        if !prev.contains(key_of(rows.last())) {
            let w = choose|w: int| 0 <= w < prev.len() && prev[w] == key_of(rows[i]);
            assert(distinct_keys(rows)[w] == key_of(rows[i]));
        }
    }
}

/// The distinct keys hold no key twice.
pub proof fn lemma_distinct_keys_no_dup(rows: Seq<SSSOMRowV>)
    ensures
        distinct_keys(rows).no_duplicates(),
    decreases rows.len(),
{
    if rows.len() > 0 {
        lemma_distinct_keys_no_dup(rows.drop_last());
        let prev = distinct_keys(rows.drop_last());
        let k = key_of(rows.last());
        if !prev.contains(k) {
            assert forall|p: int, q: int|
                0 <= p < prev.push(k).len() && 0 <= q < prev.push(k).len() && p
                    != q implies prev.push(k)[p] != prev.push(k)[q] by {
                if q == prev.len() as int {
                    if prev.push(k)[p] == k {
                        assert(prev[p] == k);
                        assert(prev.contains(k));
                    }
                } else if p == prev.len() as int {
                    if prev.push(k)[q] == k {
                        assert(prev[q] == k);
                        assert(prev.contains(k));
                    }
                }
            }
        }
    }
}

/// The distinct keys are, as a set, exactly the keys of the rows.
pub proof fn lemma_distinct_keys_to_set(rows: Seq<SSSOMRowV>)
    ensures
        distinct_keys(rows).to_set() == rows.map_values(|r: SSSOMRowV| key_of(r)).to_set(),
    decreases rows.len(),
{
    let mk = rows.map_values(|r: SSSOMRowV| key_of(r));
    if rows.len() == 0 {
        assert(distinct_keys(rows).to_set() =~= mk.to_set());
    } else {
        lemma_distinct_keys_to_set(rows.drop_last());
        let prev = distinct_keys(rows.drop_last());
        let k = key_of(rows.last());
        assert(mk =~= rows.drop_last().map_values(|r: SSSOMRowV| key_of(r)).push(k));
        if prev.contains(k) {
            assert(prev.to_set().contains(k));
            assert(distinct_keys(rows).to_set() =~= mk.to_set());
        } else {
            assert(distinct_keys(rows) == prev.push(k));
            assert(distinct_keys(rows).to_set() =~= mk.to_set());
        }
    }
}

/// The number of emitted entries equals the number of distinct grouping keys
/// among the rows, and so does the number of serialized lines whenever the
/// conversion succeeds.
pub proof fn lemma_entry_count(rows: Seq<SSSOMRowV>)
    ensures
        entries_of(rows).len() == rows.map_values(|r: SSSOMRowV| key_of(r)).to_set().len(),
        converted(rows) matches Ok(ls) ==> ls.len() == rows.map_values(
            |r: SSSOMRowV| key_of(r),
        ).to_set().len(),
{
    lemma_distinct_keys_no_dup(rows);
    lemma_distinct_keys_to_set(rows);
    distinct_keys(rows).unique_seq_to_set();
}

/// Every emitted entry starts its identifier list with its group's canonical
/// pair, and carries the group's category as its type.
pub proof fn lemma_canonical_identifier_first(rows: Seq<SSSOMRowV>, i: int)
    requires
        0 <= i < entries_of(rows).len(),
    ensures
        entries_of(rows)[i].identifiers.len() >= 1,
        entries_of(rows)[i].identifiers[0] == (IdPairV {
            id: distinct_keys(rows)[i].id,
            label: distinct_keys(rows)[i].label,
        }),
        entries_of(rows)[i].compendia_type == distinct_keys(rows)[i].category,
{
    let k = distinct_keys(rows)[i];
    assert(entries_of(rows)[i] == entry_for(k, group_rows(rows, k)));
}

/// No emitted entry repeats the canonical identifier beyond position zero:
/// self-referential object pairs are suppressed.
pub proof fn lemma_self_reference_suppressed(rows: Seq<SSSOMRowV>, i: int, j: int)
    requires
        0 <= i < entries_of(rows).len(),
        1 <= j < entries_of(rows)[i].identifiers.len(),
    ensures
        entries_of(rows)[i].identifiers[j].id != distinct_keys(rows)[i].id,
        entries_of(rows)[i].identifiers[j].id != entries_of(rows)[i].identifiers[0].id,
{
    let k = distinct_keys(rows)[i];
    let g = group_rows(rows, k);
    let pred = |r: SSSOMRowV| r.object_id != k.id;
    let filtered = g.filter(pred);
    assert(entries_of(rows)[i] == entry_for(k, g));
    assert(entries_of(rows)[i].identifiers[j] == filtered.map_values(|r: SSSOMRowV| pair_of(r))[
        j - 1
    ]);
    assert(pred(filtered[j - 1]));
}

/// Each entry lists one identifier pair per non-self row of its group, after
/// the canonical pair.
pub proof fn lemma_identifier_count(rows: Seq<SSSOMRowV>, i: int)
    requires
        0 <= i < entries_of(rows).len(),
    ensures
        entries_of(rows)[i].identifiers.len() == 1 + group_rows(rows, distinct_keys(rows)[i])
            .filter(|r: SSSOMRowV| r.object_id != distinct_keys(rows)[i].id).len(),
{
    let k = distinct_keys(rows)[i];
    assert(entries_of(rows)[i] == entry_for(k, group_rows(rows, k)));
}

/// Adjacent-duplicate collapse keeps non-adjacent repeats: a candidate list
/// shaped A, A, B, A collapses to A, B, A, and the first element is still A.
pub proof fn lemma_adjacent_collapse_example(a: Seq<char>, b: Seq<char>)
    requires
        a != b,
    ensures
        collapsed_adjacent(seq![a, a, b, a]) == seq![a, b, a],
        collapsed_adjacent(seq![a, a, b, a])[0] == a,
{
    let s1 = seq![a];
    let s2 = seq![a, a];
    let s3 = seq![a, a, b];
    let s4 = seq![a, a, b, a];
    assert(collapsed_adjacent(Seq::<Seq<char>>::empty()) =~= Seq::<Seq<char>>::empty());
    assert(s1.drop_last() =~= Seq::<Seq<char>>::empty());
    assert(s1.last() == a);
    assert(collapsed_adjacent(s1) =~= seq![a]);
    assert(s2.drop_last() =~= s1);
    assert(collapsed_adjacent(s2) =~= seq![a]);
    assert(s3.drop_last() =~= s2);
    assert(collapsed_adjacent(s3) =~= seq![a, b]);
    assert(s4.drop_last() =~= s3);
    assert(collapsed_adjacent(s4) =~= seq![a, b, a]);
}

} // verus!
