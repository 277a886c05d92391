//! The grouping and aggregation core: mapping rows are grouped by their
//! canonical subject key, each group's information-content candidates are
//! collapsed, self-referential object pairs are suppressed, and one
//! compendium entry per group is emitted as a serialized line.

use vstd::prelude::*;
use crate::json_probe::{ic_probe, probe_information_content, probe_view};
use crate::serialize::{serialize_entry, serialized_entry};
use crate::table::{parse_sssom_table, parsed_table};
use crate::text::string_eq;
use crate::types::{
    CompendiaEntry, CompendiaEntryV, CompendiaIdentifier, ConversionError, GroupKey, GroupKeyV,
    IdPairV, SSSOMEntry, SSSOMRowV, key_of,
};

verus! {

broadcast use vstd::prelude::Seq::lemma_filter_push, vstd::prelude::Seq::lemma_filter_pred;

/// Adjacent-duplicate collapse of a sequence: a run of equal neighbouring
/// elements keeps only its first element.  Non-adjacent repeats survive.
pub open spec fn collapsed_adjacent(s: Seq<Seq<char>>) -> Seq<Seq<char>>
    decreases s.len(),
{
    if s.len() == 0 {
        Seq::empty()
    } else {
        let prev = collapsed_adjacent(s.drop_last());
        if prev.len() > 0 && prev.last() == s.last() {
            prev
        } else {
            prev.push(s.last())
        }
    }
}

/// Collapse consecutive duplicate values, keeping the first of each run.
pub fn collapse_adjacent(values: &Vec<String>) -> (out: Vec<String>)
    ensures
        out.deep_view() == collapsed_adjacent(values.deep_view()),
{
    let mut out: Vec<String> = Vec::new();
    let n = values.len();
    for i in 0..n
        invariant
            n == values.len(),
            out.deep_view() == collapsed_adjacent(values.deep_view().take(i as int)),
    {
        proof {
            assert(values.deep_view().take(i + 1).drop_last() =~= values.deep_view().take(
                i as int,
            ));
            assert(values.deep_view().take(i + 1).last() == values.deep_view()[i as int]);
        }
        let keep = if out.len() == 0 {
            true
        } else {
            !string_eq(&out[out.len() - 1], &values[i])
        };
        if keep {
            out.push(values[i].clone());
        }
        proof {
            assert(out.deep_view() =~= collapsed_adjacent(values.deep_view().take(i + 1)));
        }
    }
    proof {
        assert(values.deep_view().take(n as int) =~= values.deep_view());
    }
    out
}

/// The distinct grouping keys of a row sequence, in order of first
/// appearance.
pub open spec fn distinct_keys(rows: Seq<SSSOMRowV>) -> Seq<GroupKeyV>
    decreases rows.len(),
{
    if rows.len() == 0 {
        Seq::empty()
    } else {
        let prev = distinct_keys(rows.drop_last());
        if prev.contains(key_of(rows.last())) {
            prev
        } else {
            prev.push(key_of(rows.last()))
        }
    }
}

/// The rows of one group: those whose key is `k`, in row order.
pub open spec fn group_rows(rows: Seq<SSSOMRowV>, k: GroupKeyV) -> Seq<SSSOMRowV> {
    rows.filter(|r: SSSOMRowV| key_of(r) == k)
}

/// Whether some row carries an `other` payload that is not valid JSON.
pub open spec fn has_bad_payload(rows: Seq<SSSOMRowV>) -> bool {
    exists|i: int| 0 <= i < rows.len() && ic_probe(rows[i].other) is Err
}

/// The information-content candidates of a group: the probed value of every
/// row that carries one, in row order.
pub open spec fn ic_values(g: Seq<SSSOMRowV>) -> Seq<Seq<char>>
    decreases g.len(),
{
    if g.len() == 0 {
        Seq::empty()
    } else {
        let prev = ic_values(g.drop_last());
        match ic_probe(g.last().other) {
            Ok(Some(t)) => prev.push(t),
            _ => prev,
        }
    }
}

/// The identifier pair a row contributes: its object identifier and label.
pub open spec fn pair_of(r: SSSOMRowV) -> IdPairV {
    IdPairV { id: r.object_id, label: r.object_label }
}

/// The compendium entry of one group: the key's category as the entry type,
/// the first collapsed information-content candidate if any, and the
/// canonical pair followed by every non-self object pair in row order.
pub open spec fn entry_for(k: GroupKeyV, g: Seq<SSSOMRowV>) -> CompendiaEntryV {
    let cand = collapsed_adjacent(ic_values(g));
    CompendiaEntryV {
        compendia_type: k.category,
        information_content: if cand.len() == 0 {
            None
        } else {
            Some(cand[0])
        },
        identifiers: seq![IdPairV { id: k.id, label: k.label }] + g.filter(
            |r: SSSOMRowV| r.object_id != k.id,
        ).map_values(|r: SSSOMRowV| pair_of(r)),
    }
}

/// The entries of a whole row sequence, one per distinct key, in order of
/// the keys' first appearance.
pub open spec fn entries_of(rows: Seq<SSSOMRowV>) -> Seq<CompendiaEntryV> {
    distinct_keys(rows).map_values(|k: GroupKeyV| entry_for(k, group_rows(rows, k)))
}

/// The serialized conversion of a row sequence, or a failure when some row's
/// `other` payload is not valid JSON.
pub open spec fn converted(rows: Seq<SSSOMRowV>) -> Result<Seq<Seq<char>>, ()> {
    if has_bad_payload(rows) {
        Err(())
    } else {
        Ok(entries_of(rows).map_values(|e: CompendiaEntryV| serialized_entry(e)))
    }
}

/// Whether a row belongs to the group of the given key.
fn key_matches(r: &SSSOMEntry, k: &GroupKey) -> (m: bool)
    ensures
        m == (key_of(r.deep_view()) == k.deep_view()),
{
    let m = string_eq(&r.subject_category, &k.category) && string_eq(&r.subject_id, &k.id)
        && string_eq(&r.subject_label, &k.label);
    proof {
        if m {
            assert(key_of(r.deep_view()) =~= k.deep_view());
        }
    }
    m
}

/// Whether the key is already among the collected keys.
fn contains_key(keys: &Vec<GroupKey>, k: &GroupKey) -> (r: bool)
    ensures
        r == keys.deep_view().contains(k.deep_view()),
{
    let n = keys.len();
    for j in 0..n
        invariant
            n == keys.len(),
            forall|t: int| 0 <= t < j ==> keys.deep_view()[t] != k.deep_view(),
    {
        let same = string_eq(&keys[j].category, &k.category) && string_eq(&keys[j].id, &k.id)
            && string_eq(&keys[j].label, &k.label);
        if same {
            proof {
                assert(keys.deep_view()[j as int] =~= k.deep_view());
                assert(keys.deep_view().contains(k.deep_view()));
            }
            return true;
        }
    }
    proof {
        assert(!keys.deep_view().contains(k.deep_view()));
    }
    false
}

/// Collect the distinct grouping keys of the rows, in order of first
/// appearance.
fn distinct_keys_vec(rows: &Vec<SSSOMEntry>) -> (keys: Vec<GroupKey>)
    ensures
        keys.deep_view() == distinct_keys(rows.deep_view()),
{
    let mut keys: Vec<GroupKey> = Vec::new();
    let n = rows.len();
    for i in 0..n
        invariant
            n == rows.len(),
            keys.deep_view() == distinct_keys(rows.deep_view().take(i as int)),
    {
        proof {
            assert(rows.deep_view().take(i + 1).drop_last() =~= rows.deep_view().take(i as int));
            assert(rows.deep_view().take(i + 1).last() == rows.deep_view()[i as int]);
        }
        let k = GroupKey {
            category: rows[i].subject_category.clone(),
            id: rows[i].subject_id.clone(),
            label: rows[i].subject_label.clone(),
        };
        proof {
            assert(k.deep_view() =~= key_of(rows.deep_view()[i as int]));
        }
        if !contains_key(&keys, &k) {
            let ghost prev = keys.deep_view();
            keys.push(k);
            proof {
                assert(keys.deep_view() =~= prev.push(key_of(rows.deep_view()[i as int])));
            }
        }
        proof {
            assert(keys.deep_view() =~= distinct_keys(rows.deep_view().take(i + 1)));
        }
    }
    proof {
        assert(rows.deep_view().take(n as int) =~= rows.deep_view());
    }
    keys
}

/// Convert a sequence of mapping rows to the serialized compendium lines,
/// one per distinct subject key, in order of the keys' first appearance.
/// Fails exactly when some row's `other` payload is not valid JSON, and
/// surfaces no partial output.
pub fn rows_to_legacy_lines(rows: &Vec<SSSOMEntry>) -> (r: Result<Vec<String>, ConversionError>)
    ensures
        match converted(rows.deep_view()) {
            Ok(ls) => r matches Ok(v) && v.deep_view() == ls,
            Err(_) => r matches Err(e) && e is PayloadParse,
        },
{
    let ghost rv = rows.deep_view();
    let n = rows.len();

    let mut ics: Vec<Option<String>> = Vec::new();
    for i in 0..n
        invariant
            n == rows.len(),
            rv == rows.deep_view(),
            ics.deep_view().len() == i,
            forall|t: int|
                0 <= t < i ==> ic_probe(rv[t].other) == Ok::<Option<Seq<char>>, ()>(
                    ics.deep_view()[t],
                ),
    {
        match probe_information_content(rows[i].other.as_str()) {
            Err(_) => {
                proof {
                    assert(ic_probe(rv[i as int].other) is Err);
                    assert(has_bad_payload(rv));
                }
                return Err(ConversionError::PayloadParse);
            },
            Ok(o) => {
                let ghost prev = ics.deep_view();
                proof {
                    assert(probe_view(Ok(o)) == Ok::<Option<Seq<char>>, ()>(o.deep_view()));
                }
                ics.push(o);
                proof {
                    assert(ics.deep_view() =~= prev.push(o.deep_view()));
                }
            },
        }
    }
    proof {
        assert forall|t: int| 0 <= t < rv.len() implies !(ic_probe(rv[t].other) is Err) by {
            assert(ic_probe(rv[t].other) == Ok::<Option<Seq<char>>, ()>(ics.deep_view()[t]));
        }
        assert(!has_bad_payload(rv));
    }

    let keys = distinct_keys_vec(rows);
    let mut lines: Vec<String> = Vec::new();
    let m = keys.len();
    for j in 0..m
        invariant
            m == keys.len(),
            n == rows.len(),
            rv == rows.deep_view(),
            keys.deep_view() == distinct_keys(rv),
            ics.deep_view().len() == n,
            forall|t: int|
                0 <= t < n ==> ic_probe(rv[t].other) == Ok::<Option<Seq<char>>, ()>(
                    ics.deep_view()[t],
                ),
            lines.deep_view() == Seq::new(j as nat, |t: int| serialized_entry(entries_of(rv)[t])),
    {
        let ghost kv = keys.deep_view()[j as int];
        let mut cands: Vec<String> = Vec::new();
        let mut pairs: Vec<CompendiaIdentifier> = Vec::new();
        pairs.push(
            CompendiaIdentifier { id: keys[j].id.clone(), label: keys[j].label.clone() },
        );
        proof {
            assert(pairs.deep_view() =~= seq![IdPairV { id: kv.id, label: kv.label }]);
            assert(rv.take(0) =~= Seq::<SSSOMRowV>::empty());
            assert(group_rows(rv.take(0), kv) =~= Seq::<SSSOMRowV>::empty()) by {
                reveal(Seq::filter);
            }
        }
        for idx in 0..n
            invariant
                m == keys.len(),
                n == rows.len(),
                rv == rows.deep_view(),
                keys.deep_view() == distinct_keys(rv),
                kv == keys.deep_view()[j as int],
                0 <= j < m,
                ics.deep_view().len() == n,
                forall|t: int|
                    0 <= t < n ==> ic_probe(rv[t].other) == Ok::<Option<Seq<char>>, ()>(
                        ics.deep_view()[t],
                    ),
                cands.deep_view() == ic_values(group_rows(rv.take(idx as int), kv)),
                pairs.deep_view() == seq![IdPairV { id: kv.id, label: kv.label }] + group_rows(
                    rv.take(idx as int),
                    kv,
                ).filter(|r: SSSOMRowV| r.object_id != kv.id).map_values(
                    |r: SSSOMRowV| pair_of(r),
                ),
        {
            let matches_key = key_matches(&rows[idx], &keys[j]);
            proof {
                assert(rv.take(idx + 1).drop_last() =~= rv.take(idx as int));
                assert(rv.take(idx + 1).last() == rv[idx as int]);
                assert(rv.take(idx + 1) =~= rv.take(idx as int).push(rv[idx as int]));
            }
            let ghost g_old = group_rows(rv.take(idx as int), kv);
            let ghost g_new = group_rows(rv.take(idx + 1), kv);
            proof {
                if matches_key {
                    assert(g_new == g_old.push(rv[idx as int]));
                } else {
                    assert(g_new == g_old);
                }
            }
            if matches_key {
                proof {
                    assert(g_new.drop_last() =~= g_old);
                    assert(ic_probe(rv[idx as int].other) == Ok::<Option<Seq<char>>, ()>(
                        ics.deep_view()[idx as int],
                    ));
                }
                let ghost cands_prev = cands.deep_view();
                match &ics[idx] {
                    Some(t) => {
                        cands.push(t.clone());
                        proof {
                            assert(cands.deep_view() =~= cands_prev.push(t@));
                        }
                    },
                    None => {},
                }
                proof {
                    assert(cands.deep_view() =~= ic_values(g_new));
                }
                let self_ref = string_eq(&rows[idx].object_id, &keys[j].id);
                let ghost pairs_prev = pairs.deep_view();
                if !self_ref {
                    pairs.push(
                        CompendiaIdentifier {
                            id: rows[idx].object_id.clone(),
                            label: rows[idx].object_label.clone(),
                        },
                    );
                    proof {
                        assert(pairs.deep_view() =~= pairs_prev.push(pair_of(rv[idx as int])));
                    }
                }
                proof {
                    let pred = |r: SSSOMRowV| r.object_id != kv.id;
                    let pf = |r: SSSOMRowV| pair_of(r);
                    assert(g_new.filter(pred) == if pred(rv[idx as int]) {
                        g_old.filter(pred).push(rv[idx as int])
                    } else {
                        g_old.filter(pred)
                    });
                    if !self_ref {
                        assert(g_new.filter(pred).map_values(pf) =~= g_old.filter(pred)
                            .map_values(pf).push(pair_of(rv[idx as int])));
                    }
                    assert(pairs.deep_view() =~= seq![IdPairV { id: kv.id, label: kv.label }]
                        + g_new.filter(pred).map_values(pf));
                }
            } else {
                proof {
                    assert(cands.deep_view() =~= ic_values(g_new));
                }
            }
        }
        proof {
            assert(rv.take(n as int) =~= rv);
        }
        let collapsed = collapse_adjacent(&cands);
        let information_content: Option<String> = if collapsed.len() == 0 {
            None
        } else {
            Some(collapsed[0].clone())
        };
        let entry = CompendiaEntry {
            compendia_type: keys[j].category.clone(),
            information_content,
            identifiers: pairs,
        };
        proof {
            assert(entry.deep_view() =~~= entry_for(kv, group_rows(rv, kv)));
            assert(entries_of(rv)[j as int] == entry_for(kv, group_rows(rv, kv)));
        }
        let line = serialize_entry(&entry);
        let ghost lines_prev = lines.deep_view();
        lines.push(line);
        proof {
            assert(lines.deep_view() =~= lines_prev.push(serialized_entry(entries_of(rv)[j as int])));
            assert(lines.deep_view() =~= Seq::new(
                (j + 1) as nat,
                |t: int| serialized_entry(entries_of(rv)[t]),
            ));
        }
    }
    proof {
        assert(lines.deep_view() =~= entries_of(rv).map_values(
            |e: CompendiaEntryV| serialized_entry(e),
        ));
    }
    Ok(lines)
}

/// Convert a whole mapping table, given as text, to the serialized
/// compendium lines.  Fails exactly when a non-header line does not split
/// into the nine fields, or when some row's `other` payload is not valid
/// JSON; no partial output is surfaced.
pub fn sssom_to_legacy_format(content: &str) -> (r: Result<Vec<String>, ConversionError>)
    ensures
        match parsed_table(content@) {
            Err(_) => r matches Err(e) && e is RowParse,
            Ok(rows) => match converted(rows) {
                Err(_) => r matches Err(e) && e is PayloadParse,
                Ok(ls) => r matches Ok(v) && v.deep_view() == ls,
            },
        },
{
    match parse_sssom_table(content) {
        Err(e) => Err(e),
        Ok(rows) => rows_to_legacy_lines(&rows),
    }
}

} // verus!
