//! Laws of the engine, stated over its specification functions and proved
//! once for all inputs.
use vstd::prelude::*;
use crate::model::{RecordV, ProfileV, FindResultV, EditV, UnknownIdV, RuleV};
use crate::engine::{find_spec, replace_spec, replace_from, apply_rules_from, accepted_pairs, accept_from, exclude_spans, excluded_span, ci_of, apply_pairs, lemma_apply_empty, sat_add, edits_from, set_target, has_id, usable_from, sort_rules_spec, insert_rule, isort_from, indexed};
use crate::rex::scan_pairs;

verus! {

/// Find is a pure observation: the result is a function of the profile, the
/// records and the file identifier alone, so two runs over unmodified
/// records return identical results.
pub proof fn lemma_find_deterministic(
    p: ProfileV,
    recs: Seq<RecordV>,
    file: Seq<u8>,
    a: FindResultV,
    b: FindResultV,
)
    requires
        a == find_spec(p, recs, file),
        b == find_spec(p, recs, file),
    ensures
        a == b,
{
}

/// With no exclusion spans, acceptance keeps every pair.
proof fn lemma_accept_all(ps: Seq<((int, int), Seq<u8>)>, ex: Seq<(int, int)>, i: int)
    requires
        ex.len() == 0,
        0 <= i <= ps.len(),
    ensures
        accept_from(ps, ex, i) == ps.skip(i),
    decreases ps.len() - i,
{
    if i >= ps.len() {
        assert(ps.skip(i) =~= Seq::<((int, int), Seq<u8>)>::empty());
    } else {
        assert(!excluded_span(ex, ps[i].0));
        lemma_accept_all(ps, ex, i + 1);
        assert(seq![ps[i]] + ps.skip(i + 1) =~= ps.skip(i));
    }
}

/// A rule with an empty exclusion pattern suppresses no match: what it
/// accepts is exactly what global-match scanning found.
pub proof fn lemma_no_exclusion_suppression(r: RuleV, text: Seq<u8>)
    requires
        r.exclude_pattern.len() == 0,
        r.pattern.len() > 0,
    ensures
        accepted_pairs(r, text) == scan_pairs(r.pattern, ci_of(r), text, r.replacement),
{
    let ps = scan_pairs(r.pattern, ci_of(r), text, r.replacement);
    lemma_accept_all(ps, exclude_spans(r, text), 0);
    assert(ps.skip(0) =~= ps);
}

/// The span tally never shrinks as rules run, and a record whose tally
/// stayed zero kept its text.
proof fn lemma_apply_ge(rules: Seq<RuleV>, j: int, text: Seq<u8>, reps: int)
    requires
        0 <= j,
        0 <= reps <= usize::MAX,
    ensures
        apply_rules_from(rules, j, text, reps).1 >= reps,
        apply_rules_from(rules, j, text, reps).1 <= usize::MAX,
        reps < usize::MAX ==> (apply_rules_from(rules, j, text, reps).1 == reps
            ==> apply_rules_from(rules, j, text, reps).0 == text),
    decreases rules.len() - j,
{
    if j < rules.len() {
        let acc = accepted_pairs(rules[j], text);
        let t2 = apply_pairs(text, acc);
        let r2 = sat_add(reps, acc.len() as int);
        lemma_apply_ge(rules, j + 1, t2, r2);
        if acc.len() == 0 {
            assert(acc =~= Seq::<((int, int), Seq<u8>)>::empty());
            lemma_apply_empty(text);
        }
    }
}

/// Along the record walk, the span tally stays at least the modified count.
proof fn lemma_tally_from(
    rules: Seq<RuleV>,
    recs: Seq<RecordV>,
    i: int,
    out: Seq<RecordV>,
    reps: int,
    modified: int,
)
    requires
        0 <= i,
        0 <= modified <= reps <= usize::MAX,
        i <= recs.len() ==> modified + (recs.len() - i) <= usize::MAX,
    ensures
        replace_from(rules, recs, i, out, reps, modified).2 <= replace_from(
            rules,
            recs,
            i,
            out,
            reps,
            modified,
        ).1,
    decreases recs.len() - i,
{
    if i < recs.len() {
        let pr = apply_rules_from(rules, 0, recs[i].target, 0);
        lemma_apply_ge(rules, 0, recs[i].target, 0);
        let m2 = modified + (if pr.0 != recs[i].target {
            1int
        } else {
            0int
        });
        let r2 = sat_add(reps, pr.1);
        assert(m2 <= r2) by {
            if pr.0 != recs[i].target {
                assert(pr.1 >= 1);
            }
        }
        lemma_tally_from(rules, recs, i + 1, out.push(
            RecordV { id: recs[i].id, source: recs[i].source, target: pr.0 },
        ), r2, m2);
    }
}

/// When no rule is active, every record keeps its text and both tallies
/// stay put.
proof fn lemma_replace_no_rules(recs: Seq<RecordV>, i: int, out: Seq<RecordV>)
    requires
        0 <= i,
    ensures
        replace_from(Seq::<RuleV>::empty(), recs, i, out, 0, 0).1 == 0,
        replace_from(Seq::<RuleV>::empty(), recs, i, out, 0, 0).2 == 0,
    decreases recs.len() - i,
{
    if i < recs.len() {
        let pr = apply_rules_from(Seq::<RuleV>::empty(), 0, recs[i].target, 0);
        assert(pr == (recs[i].target, 0int));
        lemma_replace_no_rules(recs, i + 1, out.push(
            RecordV { id: recs[i].id, source: recs[i].source, target: pr.0 },
        ));
    }
}

/// Inserting a rule that satisfies `f` into a list whose rules all satisfy
/// `f` keeps that so.
proof fn lemma_insert_keeps(s: Seq<(RuleV, int)>, x: (RuleV, int), f: spec_fn(RuleV) -> bool)
    requires
        forall|j: int| 0 <= j < s.len() ==> f(#[trigger] s[j].0),
        f(x.0),
    ensures
        forall|j: int| 0 <= j < insert_rule(s, x).len() ==> f(#[trigger] insert_rule(s, x)[j].0),
    decreases s.len(),
{
    let r = insert_rule(s, x);
    if s.len() == 0 {
    } else if crate::engine::rule_key_lt(x, s[0]) {
        assert forall|j: int| 0 <= j < r.len() implies f(#[trigger] r[j].0) by {
            if j == 0 {
            } else {
                assert(r[j] == s[j - 1]);
            }
        }
    } else {
        assert(forall|j: int| 0 <= j < s.skip(1).len() ==> f(#[trigger] s.skip(1)[j].0));
        lemma_insert_keeps(s.skip(1), x, f);
        let t = insert_rule(s.skip(1), x);
        assert forall|j: int| 0 <= j < r.len() implies f(#[trigger] r[j].0) by {
            if j == 0 {
                assert(r[0] == s[0]);
            } else {
                assert(r[j] == t[j - 1]);
            }
        }
    }
}

/// Sorting keeps a property that every rule satisfies.
proof fn lemma_isort_keeps(
    s: Seq<(RuleV, int)>,
    i: int,
    acc: Seq<(RuleV, int)>,
    f: spec_fn(RuleV) -> bool,
)
    requires
        0 <= i,
        forall|j: int| 0 <= j < s.len() ==> f(#[trigger] s[j].0),
        forall|j: int| 0 <= j < acc.len() ==> f(#[trigger] acc[j].0),
    ensures
        forall|j: int|
            0 <= j < isort_from(s, i, acc).len() ==> f(#[trigger] isort_from(s, i, acc)[j].0),
    decreases s.len() - i,
{
    if i >= s.len() {
        assert forall|j: int| 0 <= j < isort_from(s, i, acc).len() implies f(
            #[trigger] isort_from(s, i, acc)[j].0,
        ) by {
            assert(isort_from(s, i, acc) == acc);
        }
    } else {
        lemma_insert_keeps(acc, s[i], f);
        lemma_isort_keeps(s, i + 1, insert_rule(acc, s[i]), f);
        assert(isort_from(s, i, acc) == isort_from(s, i + 1, insert_rule(acc, s[i])));
    }
}

/// When no rule of the list is active, the active selection is empty.
proof fn lemma_usable_empty(rules: Seq<RuleV>, i: int)
    requires
        0 <= i,
        forall|j: int| 0 <= j < rules.len() ==> !(#[trigger] rules[j]).enabled,
    ensures
        usable_from(rules, i) == Seq::<RuleV>::empty(),
    decreases rules.len() - i,
{
    if i < rules.len() {
        lemma_usable_empty(rules, i + 1);
    }
}

/// The replacement tally is at least the number of records reported as
/// modified, and both are zero when every rule of the profile is disabled.
pub proof fn lemma_replace_tally(p: ProfileV, recs: Seq<RecordV>, out_path: Seq<u8>)
    requires
        recs.len() <= usize::MAX,
    ensures
        replace_spec(p, recs, out_path).1.modified_units <= replace_spec(
            p,
            recs,
            out_path,
        ).1.total_replacements,
        (forall|j: int| 0 <= j < p.rules.len() ==> !(#[trigger] p.rules[j]).enabled)
            ==> replace_spec(p, recs, out_path).1.total_replacements == 0 && replace_spec(
            p,
            recs,
            out_path,
        ).1.modified_units == 0,
{
    let sorted = sort_rules_spec(p.rules);
    let act = usable_from(sorted, 0);
    lemma_tally_from(act, recs, 0, Seq::empty(), 0, 0);
    if forall|j: int| 0 <= j < p.rules.len() ==> !(#[trigger] p.rules[j]).enabled {
        let f = |r: RuleV| !r.enabled;
        assert forall|j: int| 0 <= j < indexed(p.rules).len() implies f(
            #[trigger] indexed(p.rules)[j].0,
        ) by {
            assert(indexed(p.rules)[j].0 == p.rules[j]);
        }
        lemma_isort_keeps(indexed(p.rules), 0, Seq::empty(), f);
        let sp = isort_from(indexed(p.rules), 0, Seq::empty());
        assert forall|j: int| 0 <= j < sorted.len() implies !(#[trigger] sorted[j]).enabled by {
            assert(sorted[j] == sp[j].0);
            assert(f(sp[j].0));
        }
        lemma_usable_empty(sorted, 0);
        lemma_replace_no_rules(recs, 0, Seq::empty());
    }
}

/// A record that no remaining edit names comes through an edit run
/// unchanged.
pub proof fn lemma_edit_untouched(
    recs: Seq<RecordV>,
    edits: Seq<EditV>,
    i: int,
    errs: Seq<UnknownIdV>,
    j: int,
)
    requires
        0 <= i,
        0 <= j < recs.len(),
        forall|k: int| i <= k < edits.len() ==> (#[trigger] edits[k]).id != recs[j].id,
    ensures
        edits_from(recs, edits, i, errs).0.len() == recs.len(),
        edits_from(recs, edits, i, errs).0[j] == recs[j],
    decreases edits.len() - i,
{
    lemma_edits_len(recs, edits, i, errs);
    if i < edits.len() {
        if has_id(recs, edits[i].id) {
            let st = set_target(recs, edits[i].id, edits[i].target);
            assert(st[j] == recs[j]);
            assert(forall|k: int| i + 1 <= k < edits.len() ==> (#[trigger] edits[k]).id != st[j].id);
            lemma_edit_untouched(st, edits, i + 1, errs, j);
        } else {
            lemma_edit_untouched(recs, edits, i + 1, errs.push(UnknownIdV { id: edits[i].id }), j);
        }
    }
}

/// Edits never add or drop records, and never touch an id or a source text.
pub proof fn lemma_edits_len(recs: Seq<RecordV>, edits: Seq<EditV>, i: int, errs: Seq<UnknownIdV>)
    requires
        0 <= i,
    ensures
        edits_from(recs, edits, i, errs).0.len() == recs.len(),
        forall|j: int|
            0 <= j < recs.len() ==> (#[trigger] edits_from(recs, edits, i, errs).0[j]).id == recs[j].id
                && edits_from(recs, edits, i, errs).0[j].source == recs[j].source,
    decreases edits.len() - i,
{
    if i < edits.len() {
        if has_id(recs, edits[i].id) {
            let st = set_target(recs, edits[i].id, edits[i].target);
            lemma_edits_len(st, edits, i + 1, errs);
            assert forall|j: int| 0 <= j < recs.len() implies (#[trigger] edits_from(
                recs,
                edits,
                i,
                errs,
            ).0[j]).id == recs[j].id && edits_from(recs, edits, i, errs).0[j].source
                == recs[j].source by {
                assert(st[j].id == recs[j].id);
                assert(st[j].source == recs[j].source);
            }
        } else {
            lemma_edits_len(recs, edits, i + 1, errs.push(UnknownIdV { id: edits[i].id }));
        }
    }
}


/// Ascending by `order` value, with ties in rising position order.
pub open spec fn sorted_pairs(s: Seq<(RuleV, int)>) -> bool {
    forall|i: int, j: int|
        0 <= i < j < s.len() ==> !crate::engine::rule_key_lt(#[trigger] s[j], #[trigger] s[i])
}

/// Inserting keeps a pairwise property given of the list and the new rule.
proof fn lemma_insert_keeps_pair(
    s: Seq<(RuleV, int)>,
    x: (RuleV, int),
    f: spec_fn((RuleV, int)) -> bool,
)
    requires
        forall|j: int| 0 <= j < s.len() ==> f(#[trigger] s[j]),
        f(x),
    ensures
        forall|j: int| 0 <= j < insert_rule(s, x).len() ==> f(#[trigger] insert_rule(s, x)[j]),
    decreases s.len(),
{
    let r = insert_rule(s, x);
    if s.len() == 0 {
    } else if crate::engine::rule_key_lt(x, s[0]) {
        assert forall|j: int| 0 <= j < r.len() implies f(#[trigger] r[j]) by {
            if j > 0 {
                assert(r[j] == s[j - 1]);
            }
        }
    } else {
        assert(forall|j: int| 0 <= j < s.skip(1).len() ==> f(#[trigger] s.skip(1)[j]));
        lemma_insert_keeps_pair(s.skip(1), x, f);
        let t = insert_rule(s.skip(1), x);
        assert forall|j: int| 0 <= j < r.len() implies f(#[trigger] r[j]) by {
            if j == 0 {
                assert(r[0] == s[0]);
            } else {
                assert(r[j] == t[j - 1]);
            }
        }
    }
}

/// Inserting into a sorted list keeps it sorted.
proof fn lemma_insert_sorted(s: Seq<(RuleV, int)>, x: (RuleV, int))
    requires
        sorted_pairs(s),
    ensures
        sorted_pairs(insert_rule(s, x)),
    decreases s.len(),
{
    let r = insert_rule(s, x);
    if s.len() == 0 {
    } else if crate::engine::rule_key_lt(x, s[0]) {
        assert forall|i: int, j: int| 0 <= i < j < r.len() implies !crate::engine::rule_key_lt(
            #[trigger] r[j],
            #[trigger] r[i],
        ) by {
            assert(r[j] == s[j - 1]);
            if i == 0 {
                if j == 1 {
                } else {
                    assert(!crate::engine::rule_key_lt(s[j - 1], s[0]));
                }
            } else {
                assert(r[i] == s[i - 1]);
            }
        }
    } else {
        assert(forall|i: int, j: int|
            0 <= i < j < s.skip(1).len() ==> !crate::engine::rule_key_lt(
                #[trigger] s.skip(1)[j],
                #[trigger] s.skip(1)[i],
            ));
        lemma_insert_sorted(s.skip(1), x);
        let t = insert_rule(s.skip(1), x);
        let f = |p: (RuleV, int)| !crate::engine::rule_key_lt(p, s[0]);
        assert forall|j: int| 0 <= j < s.skip(1).len() implies f(#[trigger] s.skip(1)[j]) by {
            assert(s.skip(1)[j] == s[j + 1]);
        }
        lemma_insert_keeps_pair(s.skip(1), x, f);
        assert forall|i: int, j: int| 0 <= i < j < r.len() implies !crate::engine::rule_key_lt(
            #[trigger] r[j],
            #[trigger] r[i],
        ) by {
            assert(r[j] == t[j - 1]);
            if i == 0 {
                assert(f(t[j - 1]));
            } else {
                assert(r[i] == t[i - 1]);
            }
        }
    }
}

/// Sorting into a sorted accumulator yields a sorted list.
proof fn lemma_isort_sorted(s: Seq<(RuleV, int)>, i: int, acc: Seq<(RuleV, int)>)
    requires
        0 <= i,
        sorted_pairs(acc),
    ensures
        sorted_pairs(isort_from(s, i, acc)),
    decreases s.len() - i,
{
    if i < s.len() {
        lemma_insert_sorted(acc, s[i]);
        lemma_isort_sorted(s, i + 1, insert_rule(acc, s[i]));
    }
}

/// The re-sorted rule sequence really is ascending by `order`: the sequence
/// the engine consults runs from the smallest `order` value upward.
pub proof fn lemma_sort_rules_sorted(rules: Seq<RuleV>)
    ensures
        forall|i: int, j: int|
            0 <= i < j < sort_rules_spec(rules).len() ==> (#[trigger] sort_rules_spec(
                rules,
            )[i]).order <= (#[trigger] sort_rules_spec(rules)[j]).order,
{
    lemma_isort_sorted(indexed(rules), 0, Seq::empty());
    let sp = isort_from(indexed(rules), 0, Seq::empty());
    assert forall|i: int, j: int| 0 <= i < j < sort_rules_spec(rules).len() implies (
    #[trigger] sort_rules_spec(rules)[i]).order <= (#[trigger] sort_rules_spec(rules)[j]).order by {
        assert(sort_rules_spec(rules)[i] == sp[i].0);
        assert(sort_rules_spec(rules)[j] == sp[j].0);
        assert(!crate::engine::rule_key_lt(sp[j], sp[i]));
    }
}



/// A front extension adds exactly one occurrence.
proof fn lemma_cons_multiset(x: (RuleV, int), s: Seq<(RuleV, int)>)
    ensures
        (seq![x] + s).to_multiset() == s.to_multiset().insert(x),
{
    broadcast use vstd::seq_lib::group_to_multiset_ensures;
    broadcast use vstd::multiset::group_multiset_axioms;

    let r = seq![x] + s;
    assert(r.remove(0) =~= s);
    assert(r[0] == x);
    assert(r.to_multiset().remove(x) == s.to_multiset());
    assert(r.contains(x));
    assert(r.to_multiset().count(x) > 0);
    assert(r.to_multiset() =~= s.to_multiset().insert(x));
}

/// Insertion adds exactly the inserted rule to the collection.
proof fn lemma_insert_multiset(s: Seq<(RuleV, int)>, x: (RuleV, int))
    ensures
        insert_rule(s, x).to_multiset() == s.to_multiset().insert(x),
    decreases s.len(),
{
    broadcast use vstd::seq_lib::group_to_multiset_ensures;
    broadcast use vstd::multiset::group_multiset_axioms;

    if s.len() == 0 {
        lemma_cons_multiset(x, s);
        assert(seq![x] + s =~= insert_rule(s, x));
    } else if crate::engine::rule_key_lt(x, s[0]) {
        lemma_cons_multiset(x, s);
    } else {
        lemma_insert_multiset(s.skip(1), x);
        let t = insert_rule(s.skip(1), x);
        lemma_cons_multiset(s[0], t);
        lemma_cons_multiset(s[0], s.skip(1));
        assert(seq![s[0]] + s.skip(1) =~= s);
        assert(insert_rule(s, x).to_multiset() == t.to_multiset().insert(s[0]));
        assert(s.to_multiset() == s.skip(1).to_multiset().insert(s[0]));
        assert(s.skip(1).to_multiset().insert(x).insert(s[0]) =~= s.skip(
            1,
        ).to_multiset().insert(s[0]).insert(x));
    }
}

/// Sorting neither drops nor duplicates: the sorted rules are the given
/// rules and the accumulator together.
proof fn lemma_isort_multiset(s: Seq<(RuleV, int)>, i: int, acc: Seq<(RuleV, int)>)
    requires
        0 <= i <= s.len(),
    ensures
        isort_from(s, i, acc).to_multiset() == acc.to_multiset().add(s.skip(i).to_multiset()),
    decreases s.len() - i,
{
    broadcast use vstd::seq_lib::group_to_multiset_ensures;
    broadcast use vstd::multiset::group_multiset_axioms;

    if i >= s.len() {
        assert(s.skip(i) =~= Seq::<(RuleV, int)>::empty());
        assert forall|a: (RuleV, int)| true implies s.skip(i).to_multiset().count(a) == 0 by {
            if s.skip(i).to_multiset().count(a) > 0 {
                assert(s.skip(i).contains(a));
            }
        }
        assert(acc.to_multiset().add(s.skip(i).to_multiset()) =~= acc.to_multiset());
    } else {
        lemma_insert_multiset(acc, s[i]);
        lemma_isort_multiset(s, i + 1, insert_rule(acc, s[i]));
        lemma_cons_multiset(s[i], s.skip(i + 1));
        assert(seq![s[i]] + s.skip(i + 1) =~= s.skip(i));
        assert(isort_from(s, i, acc).to_multiset() == acc.to_multiset().insert(s[i]).add(
            s.skip(i + 1).to_multiset(),
        ));
        assert(acc.to_multiset().insert(s[i]).add(s.skip(i + 1).to_multiset())
            =~= acc.to_multiset().add(s.skip(i + 1).to_multiset().insert(s[i])));
    }
}

/// Two lists with the same occurrences stay that way under a common map.
proof fn lemma_map_multiset(
    a: Seq<(RuleV, int)>,
    b: Seq<(RuleV, int)>,
    f: spec_fn((RuleV, int)) -> RuleV,
)
    requires
        a.to_multiset() == b.to_multiset(),
    ensures
        a.map_values(f).to_multiset() == b.map_values(f).to_multiset(),
    decreases a.len(),
{
    broadcast use vstd::seq_lib::group_to_multiset_ensures;
    broadcast use vstd::multiset::group_multiset_axioms;

    if a.len() == 0 {
        assert(b.to_multiset().len() == 0);
        assert(b.len() == 0);
        assert(a.map_values(f) =~= b.map_values(f));
    } else {
        let x = a[0];
        assert(a.contains(x));
        assert(a.to_multiset().count(x) > 0);
        assert(b.to_multiset().count(x) > 0);
        assert(b.contains(x));
        let j = choose|j: int| 0 <= j < b.len() && b[j] == x;
        let b2 = b.remove(j);
        assert(b2.to_multiset() == b.to_multiset().remove(x));
        let a2 = a.remove(0);
        assert(a2.to_multiset() == a.to_multiset().remove(x));
        lemma_map_multiset(a2, b2, f);
        assert(a.map_values(f).remove(0) =~= a2.map_values(f));
        assert(b.map_values(f).remove(j) =~= b2.map_values(f));
        assert(a.map_values(f).remove(0).to_multiset() == a.map_values(f).to_multiset().remove(
            f(x),
        ));
        assert(b.map_values(f)[j] == f(x));
        assert(b.map_values(f).remove(j).to_multiset() == b.map_values(f).to_multiset().remove(
            f(x),
        ));
        assert(a.map_values(f).contains(f(x))) by {
            assert(a.map_values(f)[0] == f(x));
        }
        assert(b.map_values(f).contains(f(x))) by {
            assert(b.map_values(f)[j] == f(x));
        }
        assert(a.map_values(f).to_multiset().count(f(x)) > 0);
        assert(b.map_values(f).to_multiset().count(f(x)) > 0);
        let am = a.map_values(f).to_multiset();
        let bm = b.map_values(f).to_multiset();
        assert(am.remove(f(x)) == bm.remove(f(x)));
        assert forall|y: RuleV| true implies am.count(y) == bm.count(y) by {
            if y == f(x) {
                assert(am.remove(f(x)).count(y) + 1 == am.count(y));
                assert(bm.remove(f(x)).count(y) + 1 == bm.count(y));
            } else {
                assert(am.remove(f(x)).count(y) == am.count(y));
                assert(bm.remove(f(x)).count(y) == bm.count(y));
            }
        }
        assert(am =~= bm);
    }
}

/// Re-sorting is a permutation: every rule of the profile appears in the
/// sorted sequence exactly as often as it was declared, and nothing else
/// appears.
pub proof fn lemma_sort_rules_permutes(rules: Seq<RuleV>)
    ensures
        sort_rules_spec(rules).to_multiset() == rules.to_multiset(),
{
    broadcast use vstd::seq_lib::group_to_multiset_ensures;
    broadcast use vstd::multiset::group_multiset_axioms;

    let idx = indexed(rules);
    lemma_isort_multiset(idx, 0, Seq::empty());
    let sp = isort_from(idx, 0, Seq::empty());
    assert(idx.skip(0) =~= idx);
    assert forall|a: (RuleV, int)| true implies Seq::<(RuleV, int)>::empty().to_multiset().count(
        a,
    ) == 0 by {
        if Seq::<(RuleV, int)>::empty().to_multiset().count(a) > 0 {
            assert(Seq::<(RuleV, int)>::empty().contains(a));
        }
    }
    assert(sp.to_multiset() =~= idx.to_multiset());
    let f = |p: (RuleV, int)| p.0;
    lemma_map_multiset(sp, idx, f);
    assert(idx.map_values(f) =~= rules);
    assert(sp.map_values(f) == sort_rules_spec(rules));
}


} // verus!
