//! Decision logic of the two streaming line filters: the count-threshold
//! filter keeps compendium lines whose `identifiers` array is long enough,
//! the membership filter keeps conflation lines whose leading identifier
//! belongs to a reference set; both stop once a configured number of lines
//! has been retained, leaving later lines unexamined.

use vstd::prelude::*;
use crate::json_probe::{
    compendium_lead_probe, conflation_lead_probe, identifier_count_probe, probe_compendium_lead,
    probe_conflation_lead, probe_identifier_count,
};
use crate::text::string_eq;
use crate::types::FilterError;

verus! {

/// What the count-threshold filter does to the lines not yet examined, given
/// how many lines are already retained.  The retained count is compared to
/// the limit after each line, so the very first line is always examined.
pub open spec fn compendia_rest(
    lines: Seq<Seq<char>>,
    floor: int,
    limit: int,
    kept: int,
    first: bool,
) -> Result<Seq<Seq<char>>, ()>
    decreases lines.len(),
{
    if lines.len() == 0 {
        Ok(Seq::empty())
    } else if !first && kept == limit {
        Ok(Seq::empty())
    } else {
        match identifier_count_probe(lines[0]) {
            Err(_) => Err(()),
            Ok(cnt) => {
                let keep = cnt matches Some(c) && c >= floor;
                match compendia_rest(
                    lines.drop_first(),
                    floor,
                    limit,
                    if keep {
                        kept + 1
                    } else {
                        kept
                    },
                    false,
                ) {
                    Err(_) => Err(()),
                    Ok(rs) => Ok(
                        if keep {
                            seq![lines[0]] + rs
                        } else {
                            rs
                        },
                    ),
                }
            },
        }
    }
}

/// The lines the count-threshold filter retains, or a failure when a line it
/// examines is not valid JSON.
pub open spec fn compendia_filtered(lines: Seq<Seq<char>>, floor: int, limit: int) -> Result<
    Seq<Seq<char>>,
    (),
> {
    compendia_rest(lines, floor, limit, 0, true)
}

/// Retain the compendium lines whose `identifiers` array has at least
/// `identifier_floor` elements, stopping once `entry_limit` lines are
/// retained.  Fails exactly when an examined line is not valid JSON.
pub fn filter_compendia_lines(
    lines: &Vec<String>,
    identifier_floor: usize,
    entry_limit: usize,
) -> (r: Result<Vec<String>, FilterError>)
    ensures
        match compendia_filtered(
            lines.deep_view(),
            identifier_floor as int,
            entry_limit as int,
        ) {
            Ok(ls) => r matches Ok(v) && v.deep_view() == ls,
            Err(_) => r matches Err(e) && e is MalformedLine,
        },
{
    let ghost lv = lines.deep_view();
    let ghost floor = identifier_floor as int;
    let ghost limit = entry_limit as int;
    let mut out: Vec<String> = Vec::new();
    let n = lines.len();
    let mut i: usize = 0;
    proof {
        assert(lv.skip(0) =~= lv);
        assert forall|rs: Seq<Seq<char>>| true implies Seq::<Seq<char>>::empty() + rs == rs by {
            assert(Seq::<Seq<char>>::empty() + rs =~= rs);
        }
        assert(out.deep_view() =~= Seq::<Seq<char>>::empty());
    }
    while i < n
        invariant
            n == lines.len(),
            lv == lines.deep_view(),
            floor == identifier_floor as int,
            limit == entry_limit as int,
            0 <= i <= n,
            compendia_filtered(lv, floor, limit) == (match compendia_rest(
                lv.skip(i as int),
                floor,
                limit,
                out.len() as int,
                i == 0,
            ) {
                Err(_) => Err::<Seq<Seq<char>>, ()>(()),
                Ok(rest) => Ok::<Seq<Seq<char>>, ()>(out.deep_view() + rest),
            }),
        decreases n - i,
    {
        if i > 0 && out.len() == entry_limit {
            proof {
                assert(lv.skip(i as int).len() > 0);
                assert(compendia_rest(lv.skip(i as int), floor, limit, out.len() as int, i == 0)
                    == Ok::<Seq<Seq<char>>, ()>(Seq::empty()));
                assert(out.deep_view() + Seq::<Seq<char>>::empty() =~= out.deep_view());
            }
            return Ok(out);
        }
        proof {
            assert(lv.skip(i as int)[0] == lv[i as int]);
            assert(lv.skip(i as int).drop_first() =~= lv.skip(i + 1));
        }
        let ghost kept0 = out.len() as int;
        let ghost flag = i == 0;
        match probe_identifier_count(lines[i].as_str()) {
            Err(_) => {
                proof {
                    assert(identifier_count_probe(lv[i as int]) is Err);
                    assert(compendia_rest(lv.skip(i as int), floor, limit, kept0, flag) is Err);
                }
                return Err(FilterError::MalformedLine);
            },
            Ok(cnt) => {
                let keep = match cnt {
                    Some(c) => c >= identifier_floor,
                    None => false,
                };
                let ghost tail = compendia_rest(
                    lv.skip(i + 1),
                    floor,
                    limit,
                    if keep {
                        kept0 + 1
                    } else {
                        kept0
                    },
                    false,
                );
                proof {
                    assert(compendia_rest(lv.skip(i as int), floor, limit, kept0, flag)
                        == (match tail {
                        Err(_) => Err::<Seq<Seq<char>>, ()>(()),
                        Ok(rs) => Ok::<Seq<Seq<char>>, ()>(
                            if keep {
                                seq![lv[i as int]] + rs
                            } else {
                                rs
                            },
                        ),
                    }));
                }
                let ghost out_prev = out.deep_view();
                if keep {
                    out.push(lines[i].clone());
                    proof {
                        assert(out.deep_view() =~= out_prev + seq![lv[i as int]]);
                    }
                }
                proof {
                    if keep {
                        assert forall|rs: Seq<Seq<char>>|
                            true implies out_prev + (seq![lv[i as int]] + rs) == out.deep_view()
                            + rs by {
                            assert(out_prev + (seq![lv[i as int]] + rs) =~= out.deep_view() + rs);
                        }
                    }
                }
            },
        }
        i = i + 1;
    }
    proof {
        assert(lv.skip(n as int) =~= Seq::<Seq<char>>::empty());
        assert(out.deep_view() + Seq::<Seq<char>>::empty() =~= out.deep_view());
    }
    Ok(out)
}

/// The canonical identifiers of a compendium file: for every line holding an
/// `identifiers` array, the string under `i` of the array's first object, in
/// line order; a failure when some such line does not have that shape or
/// some line is not valid JSON.
pub open spec fn reference_ids(lines: Seq<Seq<char>>) -> Result<Seq<Seq<char>>, ()>
    decreases lines.len(),
{
    if lines.len() == 0 {
        Ok(Seq::empty())
    } else {
        match compendium_lead_probe(lines[0]) {
            Err(_) => Err(()),
            Ok(None) => reference_ids(lines.drop_first()),
            Ok(Some(t)) => match reference_ids(lines.drop_first()) {
                Err(_) => Err(()),
                Ok(rs) => Ok(seq![t] + rs),
            },
        }
    }
}

/// Extract the reference set of canonical identifiers from compendium lines:
/// the first identifier of every record that carries an `identifiers` array.
pub fn compendium_reference_ids(lines: &Vec<String>) -> (r: Result<Vec<String>, FilterError>)
    ensures
        match reference_ids(lines.deep_view()) {
            Ok(ids) => r matches Ok(v) && v.deep_view() == ids,
            Err(_) => r matches Err(e) && e is MalformedLine,
        },
{
    let ghost lv = lines.deep_view();
    let mut out: Vec<String> = Vec::new();
    let n = lines.len();
    let mut i: usize = 0;
    proof {
        assert(lv.skip(0) =~= lv);
        assert(out.deep_view() =~= Seq::<Seq<char>>::empty());
        let r0 = reference_ids(lv.skip(0));
        assert(reference_ids(lv) == r0);
        if r0 is Ok {
            let rest = r0->Ok_0;
            assert(out.deep_view() + rest =~= rest);
        }
    }
    while i < n
        invariant
            n == lines.len(),
            lv == lines.deep_view(),
            0 <= i <= n,
            match reference_ids(lv.skip(i as int)) {
                Err(_) => reference_ids(lv) is Err,
                Ok(rest) => reference_ids(lv) == Ok::<Seq<Seq<char>>, ()>(
                    out.deep_view() + rest,
                ),
            },
        decreases n - i,
    {
        proof {
            assert(lv.skip(i as int)[0] == lv[i as int]);
            assert(lv.skip(i as int).drop_first() =~= lv.skip(i + 1));
        }
        match probe_compendium_lead(lines[i].as_str()) {
            Err(_) => {
                proof {
                    assert(compendium_lead_probe(lv[i as int]) is Err);
                    assert(reference_ids(lv.skip(i as int)) is Err);
                }
                return Err(FilterError::MalformedLine);
            },
            Ok(Some(id)) => {
                let ghost out_prev = out.deep_view();
                let ghost t = id@;
                let ghost tail = reference_ids(lv.skip(i + 1));
                proof {
                    if tail is Err {
                        assert(reference_ids(lv.skip(i as int)) is Err);
                    } else {
                        assert(reference_ids(lv.skip(i as int)) == Ok::<Seq<Seq<char>>, ()>(
                            seq![t] + tail->Ok_0,
                        ));
                    }
                }
                out.push(id);
                proof {
                    assert(out.deep_view() =~= out_prev + seq![t]);
                    assert forall|rs: Seq<Seq<char>>|
                        true implies out_prev + (seq![t] + rs) == out.deep_view() + rs by {
                        assert(out_prev + (seq![t] + rs) =~= out.deep_view() + rs);
                    }
                }
            },
            Ok(None) => {
                proof {
                    assert(reference_ids(lv.skip(i as int)) == reference_ids(lv.skip(i + 1)));
                }
            },
        }
        i = i + 1;
    }
    proof {
        assert(lv.skip(n as int) =~= Seq::<Seq<char>>::empty());
        assert(out.deep_view() + Seq::<Seq<char>>::empty() =~= out.deep_view());
    }
    Ok(out)
}

/// Whether the string occurs in the reference list.
fn contains_string(refs: &Vec<String>, s: &String) -> (r: bool)
    ensures
        r == refs.deep_view().contains(s@),
{
    let n = refs.len();
    for j in 0..n
        invariant
            n == refs.len(),
            forall|t: int| 0 <= t < j ==> refs.deep_view()[t] != s@,
    {
        if string_eq(&refs[j], s) {
            proof {
                assert(refs.deep_view()[j as int] == s@);
                assert(refs.deep_view().contains(s@));
            }
            return true;
        }
    }
    proof {
        assert(!refs.deep_view().contains(s@));
    }
    false
}

/// What the membership filter does to the lines not yet examined, given how
/// many lines are already retained.  As with the count-threshold filter, the
/// retained count is compared to the limit after each line.
pub open spec fn conflation_rest(
    lines: Seq<Seq<char>>,
    refs: Seq<Seq<char>>,
    limit: int,
    kept: int,
    first: bool,
) -> Result<Seq<Seq<char>>, ()>
    decreases lines.len(),
{
    if lines.len() == 0 {
        Ok(Seq::empty())
    } else if !first && kept == limit {
        Ok(Seq::empty())
    } else {
        match conflation_lead_probe(lines[0]) {
            Err(_) => Err(()),
            Ok(lead) => {
                let keep = lead matches Some(t) && refs.contains(t);
                match conflation_rest(
                    lines.drop_first(),
                    refs,
                    limit,
                    if keep {
                        kept + 1
                    } else {
                        kept
                    },
                    false,
                ) {
                    Err(_) => Err(()),
                    Ok(rs) => Ok(
                        if keep {
                            seq![lines[0]] + rs
                        } else {
                            rs
                        },
                    ),
                }
            },
        }
    }
}

/// The lines the membership filter retains, or a failure when a line it
/// examines is not valid JSON or is an array that does not start with a
/// string.
pub open spec fn conflation_filtered(
    lines: Seq<Seq<char>>,
    refs: Seq<Seq<char>>,
    limit: int,
) -> Result<Seq<Seq<char>>, ()> {
    conflation_rest(lines, refs, limit, 0, true)
}

/// Retain the conflation lines whose leading identifier belongs to the
/// reference set, stopping once `entry_limit` lines are retained.  Fails
/// exactly when an examined line is not valid JSON or is an array that does
/// not start with a string.
pub fn filter_conflation_lines(
    lines: &Vec<String>,
    reference: &Vec<String>,
    entry_limit: usize,
) -> (r: Result<Vec<String>, FilterError>)
    ensures
        match conflation_filtered(
            lines.deep_view(),
            reference.deep_view(),
            entry_limit as int,
        ) {
            Ok(ls) => r matches Ok(v) && v.deep_view() == ls,
            Err(_) => r matches Err(e) && e is MalformedLine,
        },
{
    let ghost lv = lines.deep_view();
    let ghost rv = reference.deep_view();
    let ghost limit = entry_limit as int;
    let mut out: Vec<String> = Vec::new();
    let n = lines.len();
    let mut i: usize = 0;
    proof {
        assert(lv.skip(0) =~= lv);
        assert forall|rs: Seq<Seq<char>>| true implies Seq::<Seq<char>>::empty() + rs == rs by {
            assert(Seq::<Seq<char>>::empty() + rs =~= rs);
        }
        assert(out.deep_view() =~= Seq::<Seq<char>>::empty());
    }
    while i < n
        invariant
            n == lines.len(),
            lv == lines.deep_view(),
            rv == reference.deep_view(),
            limit == entry_limit as int,
            0 <= i <= n,
            conflation_filtered(lv, rv, limit) == (match conflation_rest(
                lv.skip(i as int),
                rv,
                limit,
                out.len() as int,
                i == 0,
            ) {
                Err(_) => Err::<Seq<Seq<char>>, ()>(()),
                Ok(rest) => Ok::<Seq<Seq<char>>, ()>(out.deep_view() + rest),
            }),
        decreases n - i,
    {
        if i > 0 && out.len() == entry_limit {
            proof {
                assert(lv.skip(i as int).len() > 0);
                assert(conflation_rest(lv.skip(i as int), rv, limit, out.len() as int, i == 0)
                    == Ok::<Seq<Seq<char>>, ()>(Seq::empty()));
                assert(out.deep_view() + Seq::<Seq<char>>::empty() =~= out.deep_view());
            }
            return Ok(out);
        }
        proof {
            assert(lv.skip(i as int)[0] == lv[i as int]);
            assert(lv.skip(i as int).drop_first() =~= lv.skip(i + 1));
        }
        let ghost kept0 = out.len() as int;
        let ghost flag = i == 0;
        match probe_conflation_lead(lines[i].as_str()) {
            Err(_) => {
                proof {
                    assert(conflation_lead_probe(lv[i as int]) is Err);
                    assert(conflation_rest(lv.skip(i as int), rv, limit, kept0, flag) is Err);
                }
                return Err(FilterError::MalformedLine);
            },
            Ok(lead) => {
                let keep = match &lead {
                    Some(t) => contains_string(reference, t),
                    None => false,
                };
                let ghost tail = conflation_rest(
                    lv.skip(i + 1),
                    rv,
                    limit,
                    if keep {
                        kept0 + 1
                    } else {
                        kept0
                    },
                    false,
                );
                proof {
                    assert(conflation_rest(lv.skip(i as int), rv, limit, kept0, flag)
                        == (match tail {
                        Err(_) => Err::<Seq<Seq<char>>, ()>(()),
                        Ok(rs) => Ok::<Seq<Seq<char>>, ()>(
                            if keep {
                                seq![lv[i as int]] + rs
                            } else {
                                rs
                            },
                        ),
                    }));
                }
                let ghost out_prev = out.deep_view();
                if keep {
                    out.push(lines[i].clone());
                    proof {
                        assert(out.deep_view() =~= out_prev + seq![lv[i as int]]);
                    }
                }
                proof {
                    if keep {
                        assert forall|rs: Seq<Seq<char>>|
                            true implies out_prev + (seq![lv[i as int]] + rs) == out.deep_view()
                            + rs by {
                            assert(out_prev + (seq![lv[i as int]] + rs) =~= out.deep_view() + rs);
                        }
                    }
                }
            },
        }
        i = i + 1;
    }
    proof {
        assert(lv.skip(n as int) =~= Seq::<Seq<char>>::empty());
        assert(out.deep_view() + Seq::<Seq<char>>::empty() =~= out.deep_view());
    }
    Ok(out)
}

} // verus!

