//! Aggregator: merges candidate records from several probes into one list
//! keyed by display name (the last candidate with a given name wins), sorts
//! the result lexicographically by name for a reproducible report, and counts
//! entries by architecture tag.

use vstd::prelude::*;
use vstd::seq_lib::{to_multiset_build, to_multiset_insert, to_multiset_len, to_multiset_contains};
use crate::record::{RuntimeRecord, RecordView};
use crate::text::{contains_seq, contains_str, lex_le, str_le, lemma_lex_le_total,
    lemma_lex_le_trans};

verus! {

/// The mathematical images of a sequence of records.
pub open spec fn views(s: Seq<RuntimeRecord>) -> Seq<RecordView> {
    s.map_values(|r: RuntimeRecord| r@)
}

/// Some record in `s` carries the display name `name`.
pub open spec fn has_name(s: Seq<RecordView>, name: Seq<char>) -> bool {
    exists|i: int| 0 <= i < s.len() && s[i].display_name == name
}

/// No two records in `s` share a display name.
pub open spec fn unique_names(s: Seq<RecordView>) -> bool {
    forall|i: int, j: int|
        0 <= i < j < s.len() ==> s[i].display_name != s[j].display_name
}

/// The last record in `s` carrying the display name `name`; the candidate a
/// last-writer-wins merge keeps.
pub open spec fn last_with_name(s: Seq<RecordView>, name: Seq<char>) -> RecordView
    decreases s.len(),
{
    if s.len() == 0 {
        arbitrary()
    } else if s.last().display_name == name {
        s.last()
    } else {
        last_with_name(s.drop_last(), name)
    }
}

/// Index of the record in `out` whose display name equals `name`, if any.
fn find_record_index(out: &Vec<RuntimeRecord>, name: &String) -> (r: Option<usize>)
    ensures
        match r {
            Some(j) => j < out@.len() && views(out@)[j as int].display_name == name@,
            None => forall|k: int|
                0 <= k < out@.len() ==> views(out@)[k].display_name != name@,
        },
{
    let mut j: usize = 0;
    while j < out.len()
        invariant
            0 <= j <= out@.len(),
            forall|k: int| 0 <= k < j ==> views(out@)[k].display_name != name@,
        decreases out@.len() - j,
    {
        if out[j].display_name == *name {
            return Some(j);
        }
        j += 1;
    }
    None
}

/// Merges candidates into a list with one record per display name. When a
/// name arrives more than once, the record processed last overwrites the
/// earlier one; every name seen survives, and nothing else appears.
pub fn merge_candidates(cands: Vec<RuntimeRecord>) -> (out: Vec<RuntimeRecord>)
    ensures
        unique_names(views(out@)),
        forall|name: Seq<char>| has_name(views(out@), name) <==> has_name(views(cands@), name),
        forall|i: int|
            0 <= i < out@.len() ==> views(out@)[i] == last_with_name(
                views(cands@),
                views(out@)[i].display_name,
            ),
{
    let ghost vs = views(cands@);
    let mut out: Vec<RuntimeRecord> = Vec::new();
    let mut i: usize = 0;
    proof {
        assert(vs.take(0) =~= Seq::<RecordView>::empty());
    }
    while i < cands.len()
        invariant
            0 <= i <= cands@.len(),
            vs == views(cands@),
            vs.len() == cands@.len(),
            unique_names(views(out@)),
            forall|name: Seq<char>| has_name(views(out@), name) <==> has_name(
                vs.take(i as int),
                name,
            ),
            forall|k: int|
                0 <= k < out@.len() ==> views(out@)[k] == last_with_name(
                    vs.take(i as int),
                    views(out@)[k].display_name,
                ),
        decreases cands@.len() - i,
    {
        let rec = cands[i].clone();
        let ghost rv = vs[i as int];
        proof {
            assert(rec@ == cands@[i as int]@);
            assert(vs.take(i + 1).drop_last() =~= vs.take(i as int));
            assert(vs.take(i + 1).last() == rv);
            // the merge target for any other name is unchanged by this step
            assert(forall|name: Seq<char>|
                name != rv.display_name ==> last_with_name(vs.take(i + 1), name) == last_with_name(
                    vs.take(i as int),
                    name,
                ));
            assert(last_with_name(vs.take(i + 1), rv.display_name) == rv);
            assert(forall|name: Seq<char>|
                has_name(vs.take(i + 1), name) <==> (has_name(vs.take(i as int), name) || name
                    == rv.display_name)) by {
                assert forall|name: Seq<char>|
                    has_name(vs.take(i + 1), name) implies (has_name(vs.take(i as int), name)
                    || name == rv.display_name) by {
                    let tk = vs.take(i + 1);
                    let k = choose|k: int| 0 <= k < tk.len() && tk[k].display_name == name;
                    if k < i {
                        assert(vs.take(i as int)[k].display_name == name);
                    }
                }
                assert forall|name: Seq<char>|
                    has_name(vs.take(i as int), name) implies has_name(vs.take(i + 1), name) by {
                    let tk = vs.take(i as int);
                    let k = choose|k: int| 0 <= k < tk.len() && tk[k].display_name == name;
                    assert(vs.take(i + 1)[k].display_name == name);
                }
                assert(vs.take(i + 1)[i as int].display_name == rv.display_name);
            }
        }
        match find_record_index(&out, &rec.display_name) {
            Some(j) => {
                let ghost old_out = views(out@);
                out.set(j, rec);
                proof {
                    let new_out = views(out@);
                    assert(new_out =~= old_out.update(j as int, rv));
                    assert(old_out[j as int].display_name == rv.display_name);
                    assert(forall|k: int|
                        0 <= k < new_out.len() ==> new_out[k].display_name
                            == old_out[k].display_name);
                    assert forall|name: Seq<char>|
                        has_name(new_out, name) <==> has_name(old_out, name) by {
                        if has_name(new_out, name) {
                            let k = choose|k: int|
                                0 <= k < new_out.len() && new_out[k].display_name == name;
                            assert(old_out[k].display_name == name);
                        }
                        if has_name(old_out, name) {
                            let k = choose|k: int|
                                0 <= k < old_out.len() && old_out[k].display_name == name;
                            assert(new_out[k].display_name == name);
                        }
                    }
                    assert(has_name(old_out, rv.display_name));
                    assert forall|k: int|
                        0 <= k < new_out.len() implies new_out[k] == last_with_name(
                        vs.take(i + 1),
                        new_out[k].display_name,
                    ) by {
                        if k == j {
                            assert(new_out[k] == rv);
                        } else {
                            // only position j carries the incoming name
                            assert(old_out[k].display_name != rv.display_name);
                            assert(new_out[k] == old_out[k]);
                        }
                    }
                }
            },
            None => {
                let ghost old_out = views(out@);
                out.push(rec);
                proof {
                    let new_out = views(out@);
                    assert(new_out =~= old_out.push(rv));
                    assert(forall|k: int|
                        0 <= k < old_out.len() ==> old_out[k].display_name != rv.display_name);
                    assert forall|name: Seq<char>|
                        has_name(new_out, name) implies (has_name(old_out, name) || name
                        == rv.display_name) by {
                        let k = choose|k: int|
                            0 <= k < new_out.len() && new_out[k].display_name == name;
                        if k < old_out.len() {
                            assert(old_out[k].display_name == name);
                        }
                    }
                    assert forall|name: Seq<char>|
                        has_name(old_out, name) implies has_name(new_out, name) by {
                        let k = choose|k: int|
                            0 <= k < old_out.len() && old_out[k].display_name == name;
                        assert(new_out[k].display_name == name);
                    }
                    assert(new_out[old_out.len() as int].display_name == rv.display_name);
                    assert(has_name(new_out, rv.display_name));
                    assert forall|k: int|
                        0 <= k < new_out.len() implies new_out[k] == last_with_name(
                        vs.take(i + 1),
                        new_out[k].display_name,
                    ) by {
                        if k == old_out.len() {
                            assert(new_out[k] == rv);
                        } else {
                            assert(old_out[k].display_name != rv.display_name);
                            assert(new_out[k] == old_out[k]);
                        }
                    }
                }
            },
        }
        i += 1;
    }
    proof {
        assert(vs.take(i as int) =~= vs);
    }
    out
}

/// Sorted lexicographically ascending by display name.
pub open spec fn sorted_by_name(s: Seq<RecordView>) -> bool {
    forall|i: int, j: int|
        0 <= i <= j < s.len() ==> lex_le(s[i].display_name, s[j].display_name)
}

/// Sorts records lexicographically ascending by display name. The result is a
/// permutation of the input.
pub fn sort_records(v: Vec<RuntimeRecord>) -> (out: Vec<RuntimeRecord>)
    ensures
        sorted_by_name(views(out@)),
        views(out@).to_multiset() == views(v@).to_multiset(),
        out@.len() == v@.len(),
{
    broadcast use to_multiset_build, to_multiset_insert, to_multiset_len;

    let ghost vs = views(v@);
    let mut out: Vec<RuntimeRecord> = Vec::new();
    let mut i: usize = 0;
    proof {
        assert(vs.take(0) =~= Seq::<RecordView>::empty());
        assert(views(out@) =~= Seq::<RecordView>::empty());
        assert(vs.take(0).to_multiset() =~= Seq::<RecordView>::empty().to_multiset());
    }
    while i < v.len()
        invariant
            0 <= i <= v@.len(),
            vs == views(v@),
            vs.len() == v@.len(),
            sorted_by_name(views(out@)),
            views(out@).to_multiset() == vs.take(i as int).to_multiset(),
            out@.len() == i,
        decreases v@.len() - i,
    {
        let rec = v[i].clone();
        let ghost rv = vs[i as int];
        let mut j: usize = 0;
        while j < out.len() && !str_le(&rec.display_name, &out[j].display_name)
            invariant
                0 <= j <= out@.len(),
                rec@ == rv,
                sorted_by_name(views(out@)),
                forall|k: int|
                    0 <= k < j ==> lex_le(views(out@)[k].display_name, rv.display_name),
            decreases out@.len() - j,
        {
            proof {
                lemma_lex_le_total(rv.display_name, views(out@)[j as int].display_name);
            }
            j += 1;
        }
        let ghost old_out = views(out@);
        out.insert(j, rec);
        proof {
            old_out.insert_ensures(j as int, rv);
            assert(views(out@) =~= old_out.insert(j as int, rv));
            assert(sorted_by_name(views(out@))) by {
                let s = views(out@);
                assert forall|x: int, y: int|
                    0 <= x <= y < s.len() implies lex_le(s[x].display_name, s[y].display_name) by {
                    if x == y {
                        lemma_lex_le_total(s[x].display_name, s[x].display_name);
                    } else if y < j {
                        assert(s[x] == old_out[x] && s[y] == old_out[y]);
                    } else if x > j {
                        assert(s[x] == old_out[x - 1] && s[y] == old_out[y - 1]);
                    } else if x < j && y == j {
                        assert(s[x] == old_out[x] && s[y] == rv);
                    } else if x == j {
                        // rv <= old_out[j] <= old_out[y - 1]
                        assert(s[y] == old_out[y - 1]);
                        assert(j < old_out.len());
                        assert(lex_le(rv.display_name, old_out[j as int].display_name));
                        lemma_lex_le_trans(
                            rv.display_name,
                            old_out[j as int].display_name,
                            old_out[y - 1].display_name,
                        );
                    } else {
                        // x < j < y: both stand in the old list, which is sorted
                        assert(s[x] == old_out[x] && s[y] == old_out[y - 1]);
                        assert(lex_le(old_out[x].display_name, old_out[y - 1].display_name));
                    }
                }
            }
            to_multiset_insert(old_out, j as int, rv);
            assert(views(out@).to_multiset() == old_out.to_multiset().insert(rv));
            assert(vs.take(i + 1) =~= vs.take(i as int).push(rv));
            to_multiset_build(vs.take(i as int), rv);
        }
        i += 1;
    }
    proof {
        assert(vs.take(i as int) =~= vs);
    }
    out
}

/// How many records' display names contain `tag`.
pub open spec fn count_with_tag(s: Seq<RecordView>, tag: Seq<char>) -> nat
    decreases s.len(),
{
    if s.len() == 0 {
        0
    } else {
        count_with_tag(s.drop_last(), tag) + (if contains_seq(s.last().display_name, tag) {
            1nat
        } else {
            0nat
        })
    }
}

/// Counts the records whose display name contains `tag`, such as an
/// architecture marker.
pub fn count_tagged(records: &Vec<RuntimeRecord>, tag: &str) -> (n: usize)
    ensures
        n == count_with_tag(views(records@), tag@),
{
    let ghost vs = views(records@);
    let mut n: usize = 0;
    let mut i: usize = 0;
    proof {
        assert(vs.take(0) =~= Seq::<RecordView>::empty());
    }
    while i < records.len()
        invariant
            0 <= i <= records@.len(),
            vs == views(records@),
            vs.len() == records@.len(),
            n == count_with_tag(vs.take(i as int), tag@),
            n <= i,
        decreases records@.len() - i,
    {
        proof {
            assert(vs.take(i + 1).drop_last() =~= vs.take(i as int));
            assert(vs.take(i + 1).last() == vs[i as int]);
        }
        if contains_str(&records[i].display_name, tag) {
            n += 1;
        }
        i += 1;
    }
    proof {
        assert(vs.take(i as int) =~= vs);
    }
    n
}

/// A permutation of a merged (deduplicated) list keeps its relationship to
/// the original candidates: names stay unique, the same names occur, and each
/// record is still the last candidate carrying its name.
proof fn lemma_permutation_keeps_merge(m: Seq<RecordView>, s: Seq<RecordView>, c: Seq<RecordView>)
    requires
        s.to_multiset() == m.to_multiset(),
        unique_names(m),
        forall|name: Seq<char>| has_name(m, name) <==> has_name(c, name),
        forall|i: int| 0 <= i < m.len() ==> m[i] == last_with_name(c, m[i].display_name),
    ensures
        unique_names(s),
        forall|name: Seq<char>| has_name(s, name) <==> has_name(c, name),
        forall|i: int| 0 <= i < s.len() ==> s[i] == last_with_name(c, s[i].display_name),
        c.len() == 0 ==> s.len() == 0,
{
    broadcast use to_multiset_contains, to_multiset_len;

    // every record of s is one of m, and conversely
    assert forall|i: int| 0 <= i < s.len() implies exists|j: int|
        0 <= j < m.len() && m[j] == #[trigger] s[i] by {
        assert(s.to_multiset().count(s[i]) > 0) by {
            assert(s.contains(s[i]));
        }
        assert(m.contains(s[i]));
    }
    assert forall|i: int| 0 <= i < m.len() implies exists|j: int|
        0 <= j < s.len() && s[j] == #[trigger] m[i] by {
        assert(m.to_multiset().count(m[i]) > 0) by {
            assert(m.contains(m[i]));
        }
        assert(s.contains(m[i]));
    }
    assert(unique_names(s)) by {
        assert forall|i: int, j: int|
            0 <= i < j < s.len() implies s[i].display_name != s[j].display_name by {
            if s[i].display_name == s[j].display_name {
                if s[i] == s[j] {
                    // two indices holding the same record: its multiplicity
                    // in the merged list would have to exceed one
                    let t = s.remove(j);
                    s.to_multiset_ensures();
                    assert(t.to_multiset() == s.to_multiset().remove(s[j]));
                    assert(t[i] == s[i]);
                    assert(t.contains(s[i]));
                    assert(t.to_multiset().count(s[i]) > 0);
                    assert(s.to_multiset().count(s[i]) >= 2);
                    assert(m.to_multiset().count(s[i]) >= 2);
                    let j1 = choose|j1: int| 0 <= j1 < m.len() && m[j1] == s[i];
                    let t2 = m.remove(j1);
                    m.to_multiset_ensures();
                    assert(t2.to_multiset().count(s[i]) >= 1);
                    assert(t2.contains(s[i]));
                    let j2 = choose|j2: int| 0 <= j2 < t2.len() && t2[j2] == s[i];
                    m.remove_ensures(j1);
                    if j2 < j1 {
                        assert(m[j2] == s[i]);
                        assert(m[j2].display_name == m[j1].display_name);
                    } else {
                        assert(m[j2 + 1] == s[i]);
                        assert(m[j2 + 1].display_name == m[j1].display_name);
                    }
                } else {
                    let ji = choose|k: int| 0 <= k < m.len() && m[k] == s[i];
                    let jj = choose|k: int| 0 <= k < m.len() && m[k] == s[j];
                    assert(m[ji].display_name == m[jj].display_name);
                }
            }
        }
    }
    assert forall|name: Seq<char>| has_name(s, name) implies has_name(m, name) by {
        let i = choose|i: int| 0 <= i < s.len() && s[i].display_name == name;
        let j = choose|j: int| 0 <= j < m.len() && m[j] == s[i];
        assert(m[j].display_name == name);
    }
    assert forall|name: Seq<char>| has_name(m, name) implies has_name(s, name) by {
        let i = choose|i: int| 0 <= i < m.len() && m[i].display_name == name;
        let j = choose|j: int| 0 <= j < s.len() && s[j] == m[i];
        assert(s[j].display_name == name);
    }
    assert forall|i: int|
        0 <= i < s.len() implies s[i] == last_with_name(c, s[i].display_name) by {
        let j = choose|j: int| 0 <= j < m.len() && m[j] == s[i];
        assert(m[j] == last_with_name(c, m[j].display_name));
    }
    if c.len() == 0 && s.len() > 0 {
        assert(has_name(s, s[0].display_name));
        assert(has_name(c, s[0].display_name));
        let k = choose|k: int| 0 <= k < c.len() && c[k].display_name == s[0].display_name;
        assert(false);
    }
}

/// The full aggregation step: deduplicate by display name, then sort by name.
/// The result lists exactly the names seen among the candidates, once each, in
/// ascending order, and each surviving record is the last candidate that
/// carried its name.
pub fn aggregate(cands: Vec<RuntimeRecord>) -> (out: Vec<RuntimeRecord>)
    ensures
        sorted_by_name(views(out@)),
        unique_names(views(out@)),
        forall|name: Seq<char>| has_name(views(out@), name) <==> has_name(views(cands@), name),
        forall|i: int|
            0 <= i < out@.len() ==> views(out@)[i] == last_with_name(
                views(cands@),
                views(out@)[i].display_name,
            ),
        cands@.len() == 0 ==> out@.len() == 0,
{
    let ghost c = views(cands@);
    let merged = merge_candidates(cands);
    let ghost m = views(merged@);
    let out = sort_records(merged);
    proof {
        lemma_permutation_keeps_merge(m, views(out@), c);
    }
    out
}

/// Two candidates that share a display name merge into a single record: the
/// one processed later.
pub proof fn lemma_merge_dedups(a: RecordView, b: RecordView, cands: Seq<RecordView>,
    merged: Seq<RecordView>)
    requires
        cands =~= seq![a, b],
        a.display_name == b.display_name,
        unique_names(merged),
        forall|name: Seq<char>| has_name(merged, name) <==> has_name(cands, name),
        forall|i: int|
            0 <= i < merged.len() ==> merged[i] == last_with_name(cands, merged[i].display_name),
    ensures
        merged.len() == 1,
        merged[0] == b,
{
    assert(has_name(cands, a.display_name)) by {
        assert(cands[0].display_name == a.display_name);
    }
    assert(has_name(merged, a.display_name));
    let i = choose|i: int| 0 <= i < merged.len() && merged[i].display_name == a.display_name;
    assert(last_with_name(cands, a.display_name) == b) by {
        assert(cands.last() == b);
    }
    assert(merged[i] == b);
    if merged.len() > 1 {
        // a second record would have to carry the same deduplication key
        let j: int = if i == 0 {
            1
        } else {
            0
        };
        assert(has_name(merged, merged[j].display_name));
        assert(has_name(cands, merged[j].display_name));
        let k = choose|k: int|
            0 <= k < cands.len() && cands[k].display_name == merged[j].display_name;
        assert(merged[j].display_name == a.display_name);
        assert(false);
    }
    assert(merged.len() == 1);
    assert(merged[0] == b);
}

} // verus!
