//! The match engine: rule evaluation with exclusion, find mode, replace
//! mode, rule ordering, and direct edit application.
use vstd::prelude::*;
use crate::model::{PatternRule, RuleV, Profile, ProfileV, TextRecord, RecordV, EditedUnit, EditV, BatchFindMatch, ReportV, RuleFailure, FailureV, BatchFindResult, FindResultV, BatchReplaceResult, ReplaceResultV, UnknownRecordId, UnknownIdV, clone_bytes, clone_rule, clone_record, bytes_eq};
use crate::rex::{pattern_ok, found_spans, pairs_view, spans_of, scan_pairs, found_wf, rex_scan, rex_valid};
use crate::text::push_range;

verus! {

/// Matching is case-insensitive exactly when the rule is not case-sensitive.
pub open spec fn ci_of(r: RuleV) -> bool {
    !r.case_sensitive
}

/// Whether evaluating this rule fails with an invalid pattern: its pattern
/// is non-empty and either it or its non-empty exclusion pattern does not
/// compile. A rule with an empty pattern never fails: it is a no-op.
pub open spec fn rule_fails(r: RuleV) -> bool {
    r.pattern.len() > 0 && (!pattern_ok(r.pattern, ci_of(r)) || (r.exclude_pattern.len() > 0
        && !pattern_ok(r.exclude_pattern, ci_of(r))))
}

/// The spans of the rule's exclusion pattern against the same original
/// text; empty when no exclusion pattern is set.
pub open spec fn exclude_spans(r: RuleV, text: Seq<u8>) -> Seq<(int, int)> {
    if r.exclude_pattern.len() == 0 {
        Seq::empty()
    } else {
        found_spans(r.exclude_pattern, ci_of(r), text)
    }
}

/// Whether two half-open spans share at least one position.
pub open spec fn spans_intersect(a: (int, int), b: (int, int)) -> bool {
    a.0 < b.1 && b.0 < a.1
}

/// Whether `sp` intersects any span of `ex`.
pub open spec fn excluded_span(ex: Seq<(int, int)>, sp: (int, int)) -> bool {
    exists|j: int| 0 <= j < ex.len() && spans_intersect(#[trigger] ex[j], sp)
}

/// The pairs of `ps` from index `i` on whose spans intersect no exclusion
/// span, in order.
pub open spec fn accept_from(
    ps: Seq<((int, int), Seq<u8>)>,
    ex: Seq<(int, int)>,
    i: int,
) -> Seq<((int, int), Seq<u8>)>
    decreases ps.len() - i,
{
    if i < 0 || i >= ps.len() {
        Seq::empty()
    } else if excluded_span(ex, ps[i].0) {
        accept_from(ps, ex, i + 1)
    } else {
        seq![ps[i]] + accept_from(ps, ex, i + 1)
    }
}

/// What evaluating one rule against one text accepts: every match of the
/// pattern whose span intersects no match of the exclusion pattern against
/// the same original text, paired with its expanded replacement. An empty
/// pattern accepts nothing.
pub open spec fn accepted_pairs(r: RuleV, text: Seq<u8>) -> Seq<((int, int), Seq<u8>)> {
    if r.pattern.len() == 0 {
        Seq::empty()
    } else {
        accept_from(
            scan_pairs(r.pattern, ci_of(r), text, r.replacement),
            exclude_spans(r, text),
            0,
        )
    }
}

/// Acceptance keeps a subsequence: well-formed spans stay well-formed, and
/// every kept pair stands somewhere at or after `i` in the original list.
pub proof fn lemma_accept_wf(ps: Seq<((int, int), Seq<u8>)>, ex: Seq<(int, int)>, i: int, n: int)
    requires
        found_wf(spans_of(ps), n),
        0 <= i,
    ensures
        found_wf(spans_of(accept_from(ps, ex, i)), n),
        forall|j: int|
            0 <= j < accept_from(ps, ex, i).len() ==> exists|k: int|
                i <= k < ps.len() && #[trigger] accept_from(ps, ex, i)[j] == ps[k],
    decreases ps.len() - i,
{
    let a = accept_from(ps, ex, i);
    if i >= ps.len() {
        assert(spans_of(a) =~= Seq::<(int, int)>::empty());
    } else {
        lemma_accept_wf(ps, ex, i + 1, n);
        let rest = accept_from(ps, ex, i + 1);
        if excluded_span(ex, ps[i].0) {
            assert(a == rest);
        } else {
            assert(a == seq![ps[i]] + rest);
            assert(spans_of(a) =~= seq![ps[i].0] + spans_of(rest));
            assert(spans_of(ps)[i] == ps[i].0);
            assert forall|j: int| 0 <= j < a.len() implies exists|k: int|
                i <= k < ps.len() && #[trigger] a[j] == ps[k] by {
                if j == 0 {
                    assert(a[0] == ps[i]);
                } else {
                    assert(a[j] == rest[j - 1]);
                    let k = choose|k: int| i + 1 <= k < ps.len() && rest[j - 1] == ps[k];
                    assert(i <= k < ps.len() && a[j] == ps[k]);
                }
            }
            assert forall|j1: int, j2: int| 0 <= j1 < j2 < spans_of(a).len() implies (
            #[trigger] spans_of(a)[j1]).1 <= (#[trigger] spans_of(a)[j2]).0 by {
                if j1 == 0 {
                    let k = choose|k: int| i + 1 <= k < ps.len() && rest[j2 - 1] == ps[k];
                    assert(spans_of(a)[j2] == ps[k].0);
                    assert(spans_of(ps)[i].1 <= spans_of(ps)[k].0);
                } else {
                    assert(spans_of(a)[j1] == spans_of(rest)[j1 - 1]);
                    assert(spans_of(a)[j2] == spans_of(rest)[j2 - 1]);
                }
            }
            assert forall|j: int| 0 <= j < spans_of(a).len() implies 0 <= (
            #[trigger] spans_of(a)[j]).0 && spans_of(a)[j].0 <= spans_of(a)[j].1 && spans_of(
                a,
            )[j].1 <= n by {
                if j == 0 {
                    assert(spans_of(a)[0] == ps[i].0);
                    assert(spans_of(ps)[i] == ps[i].0);
                } else {
                    assert(spans_of(a)[j] == spans_of(rest)[j - 1]);
                }
            }
        }
    }
}

/// Whether `sp` intersects any span of `ex`, checked span by span.
fn excluded_exec(ex: &Vec<((usize, usize), Vec<u8>)>, sp: (usize, usize)) -> (r: bool)
    ensures
        r == excluded_span(spans_of(pairs_view(ex@)), (sp.0 as int, sp.1 as int)),
{
    let ghost exv = spans_of(pairs_view(ex@));
    let mut j: usize = 0;
    while j < ex.len()
        invariant
            j <= ex@.len(),
            exv == spans_of(pairs_view(ex@)),
            exv.len() == ex@.len(),
            forall|k: int| 0 <= k < j ==> !spans_intersect(#[trigger] exv[k], (sp.0 as int, sp.1 as int)),
        decreases ex@.len() - j,
    {
        let (s, e) = ex[j].0;
        proof {
            assert(exv[j as int] == (s as int, e as int));
        }
        if s < sp.1 && sp.0 < e {
            proof {
                assert(spans_intersect(exv[j as int], (sp.0 as int, sp.1 as int)));
            }
            return true;
        }
        j = j + 1;
    }
    false
}

/// Evaluates one rule against one text: `None` exactly when a pattern fails
/// to compile; otherwise the accepted span/expansion pairs, with their
/// well-formedness.
pub(crate) fn eval_pairs(rule: &PatternRule, text: &Vec<u8>) -> (r: Option<
    Vec<((usize, usize), Vec<u8>)>,
>)
    ensures
        r is Some <==> !rule_fails(rule@),
        r matches Some(v) ==> pairs_view(v@) == accepted_pairs(rule@, text@) && found_wf(
            spans_of(pairs_view(v@)),
            text@.len() as int,
        ),
{
    if rule.pattern.len() == 0 {
        let v: Vec<((usize, usize), Vec<u8>)> = Vec::new();
        proof {
            assert(pairs_view(v@) =~= accepted_pairs(rule@, text@));
        }
        return Some(v);
    }
    let ci = !rule.case_sensitive;
    let scan = match rex_scan(&rule.pattern, ci, text, &rule.replacement) {
        Some(s) => s,
        None => {
            return None;
        },
    };
    let empty_template: Vec<u8> = Vec::new();
    let ex: Vec<((usize, usize), Vec<u8>)>;
    if rule.exclude_pattern.len() > 0 {
        ex = match rex_scan(&rule.exclude_pattern, ci, text, &empty_template) {
            Some(s) => s,
            None => {
                return None;
            },
        };
        proof {
            assert(spans_of(pairs_view(ex@)) =~= exclude_spans(rule@, text@)) by {
                let f = found_spans(rule@.exclude_pattern, ci_of(rule@), text@);
                assert(pairs_view(ex@) == scan_pairs(
                    rule@.exclude_pattern,
                    ci_of(rule@),
                    text@,
                    Seq::<u8>::empty(),
                ));
                assert(empty_template@ =~= Seq::<u8>::empty());
            }
        }
    } else {
        ex = Vec::new();
        proof {
            assert(spans_of(pairs_view(ex@)) =~= exclude_spans(rule@, text@));
        }
    }
    let ghost psv = pairs_view(scan@);
    let ghost exv = spans_of(pairs_view(ex@));
    proof {
        assert(psv == scan_pairs(rule@.pattern, ci_of(rule@), text@, rule@.replacement));
        assert(exv == exclude_spans(rule@, text@));
        assert(spans_of(psv) =~= found_spans(rule@.pattern, ci_of(rule@), text@));
    }
    let mut out: Vec<((usize, usize), Vec<u8>)> = Vec::new();
    let mut i: usize = 0;
    proof {
        assert(pairs_view(out@) + accept_from(psv, exv, 0) =~= accept_from(psv, exv, 0));
    }
    while i < scan.len()
        invariant
            i <= scan@.len(),
            psv == pairs_view(scan@),
            exv == spans_of(pairs_view(ex@)),
            accept_from(psv, exv, 0) == pairs_view(out@) + accept_from(psv, exv, i as int),
        decreases scan@.len() - i,
    {
        let sp = scan[i].0;
        proof {
            assert(psv[i as int] == ((sp.0 as int, sp.1 as int), scan@[i as int].1@));
        }
        let is_ex = excluded_exec(&ex, sp);
        if !is_ex {
            let expansion = clone_bytes(&scan[i].1);
            out.push((sp, expansion));
            proof {
                assert(pairs_view(out@) =~= pairs_view(out@.take(out@.len() - 1)) + seq![
                    psv[i as int],
                ]);
                assert(accept_from(psv, exv, i as int) == seq![psv[i as int]] + accept_from(
                    psv,
                    exv,
                    i + 1,
                ));
                assert((pairs_view(out@.take(out@.len() - 1)) + seq![psv[i as int]]) + accept_from(
                    psv,
                    exv,
                    i + 1,
                ) =~= pairs_view(out@.take(out@.len() - 1)) + (seq![psv[i as int]] + accept_from(
                    psv,
                    exv,
                    i + 1,
                )));
            }
        }
        i = i + 1;
    }
    proof {
        assert(accept_from(psv, exv, scan@.len() as int) =~= Seq::<((int, int), Seq<u8>)>::empty());
        assert(pairs_view(out@) + Seq::<((int, int), Seq<u8>)>::empty() =~= pairs_view(out@));
        assert(pairs_view(out@) == accepted_pairs(rule@, text@));
        lemma_accept_wf(psv, exv, 0, text@.len() as int);
    }
    Some(out)
}

/// The text with each accepted span replaced by its expansion, walked left
/// to right with `pos` the cursor and `out` the rewritten prefix.
pub open spec fn splice_from(
    text: Seq<u8>,
    ps: Seq<((int, int), Seq<u8>)>,
    i: int,
    pos: int,
    out: Seq<u8>,
) -> Seq<u8>
    decreases ps.len() - i,
{
    if i < 0 || i >= ps.len() {
        out + text.skip(pos)
    } else {
        splice_from(text, ps, i + 1, ps[i].0.1, out + text.subrange(pos, ps[i].0.0) + ps[i].1)
    }
}

/// The text with every accepted span replaced by its expansion.
pub open spec fn apply_pairs(text: Seq<u8>, ps: Seq<((int, int), Seq<u8>)>) -> Seq<u8> {
    splice_from(text, ps, 0, 0, Seq::empty())
}

/// Replacing nothing changes nothing.
pub proof fn lemma_apply_empty(text: Seq<u8>)
    ensures
        apply_pairs(text, Seq::empty()) == text,
{
    assert(Seq::<u8>::empty() + text.skip(0) =~= text);
}

/// Rewrites `text` by replacing each span of `pairs` with its expansion.
fn apply_accepted(text: &Vec<u8>, pairs: &Vec<((usize, usize), Vec<u8>)>) -> (r: Vec<u8>)
    requires
        found_wf(spans_of(pairs_view(pairs@)), text@.len() as int),
    ensures
        r@ == apply_pairs(text@, pairs_view(pairs@)),
{
    let ghost pv = pairs_view(pairs@);
    let mut out: Vec<u8> = Vec::new();
    let mut pos: usize = 0;
    let mut i: usize = 0;
    proof {
        assert(out@ =~= Seq::<u8>::empty());
    }
    while i < pairs.len()
        invariant
            i <= pairs@.len(),
            pv == pairs_view(pairs@),
            found_wf(spans_of(pv), text@.len() as int),
            pos <= text@.len(),
            i < pairs@.len() ==> pos <= pv[i as int].0.0,
            apply_pairs(text@, pv) == splice_from(text@, pv, i as int, pos as int, out@),
        decreases pairs@.len() - i,
    {
        let (s, e) = pairs[i].0;
        proof {
            assert(pv[i as int].0 == (s as int, e as int));
            assert(spans_of(pv)[i as int] == (s as int, e as int));
        }
        push_range(&mut out, text, pos, s);
        let exp = &pairs[i].1;
        proof {
            assert(exp@.subrange(0, exp@.len() as int) =~= pv[i as int].1);
        }
        push_range(&mut out, exp, 0, exp.len());
        proof {
            if i + 1 < pairs@.len() {
                assert(spans_of(pv)[i as int].1 <= spans_of(pv)[i + 1].0);
            }
        }
        pos = e;
        i = i + 1;
    }
    push_range(&mut out, text, pos, text.len());
    proof {
        assert(text@.subrange(pos as int, text@.len() as int) =~= text@.skip(pos as int));
    }
    out
}


/// Evaluates one rule against one text: the ordered list of non-overlapping
/// spans its pattern yields, with every span that intersects a match of the
/// non-empty exclusion pattern against the same original text discarded.
/// An empty pattern yields no spans; a pattern that fails to compile is the
/// rule-level error, never a batch failure.
pub fn evaluate_rule(rule: &PatternRule, text: &Vec<u8>) -> (r: Result<
    Vec<(usize, usize)>,
    crate::model::RuleFailure,
>)
    ensures
        match r {
            Ok(v) => !rule_fails(rule@) && v@.map_values(|sp: (usize, usize)| (sp.0 as int, sp.1 as int))
                == spans_of(accepted_pairs(rule@, text@)),
            Err(f) => rule_fails(rule@) && f@ == (crate::model::FailureV {
                rule_name: rule@.name,
                rule_order: rule@.order,
            }),
        },
{
    let pairs = match eval_pairs(rule, text) {
        Some(v) => v,
        None => {
            let f = crate::model::RuleFailure {
                rule_name: clone_bytes(&rule.name),
                rule_order: rule.order,
            };
            proof {
                assert(f@ =~= (crate::model::FailureV {
                    rule_name: rule@.name,
                    rule_order: rule@.order,
                }));
            }
            return Err(f);
        },
    };
    let ghost pg = pairs_view(pairs@);
    let ghost sps = spans_of(pg);
    let mut out: Vec<(usize, usize)> = Vec::new();
    let mut k: usize = 0;
    while k < pairs.len()
        invariant
            k <= pairs@.len(),
            pg == pairs_view(pairs@),
            sps == spans_of(pg),
            out@.map_values(|sp: (usize, usize)| (sp.0 as int, sp.1 as int)) == sps.take(k as int),
        decreases pairs@.len() - k,
    {
        let sp = pairs[k].0;
        proof {
            assert(pg[k as int] == ((sp.0 as int, sp.1 as int), pairs@[k as int].1@));
            assert(sps[k as int] == (sp.0 as int, sp.1 as int));
        }
        out.push(sp);
        proof {
            let m = out@.map_values(|q: (usize, usize)| (q.0 as int, q.1 as int));
            assert(m =~= sps.take(k as int).push(sps[k as int]));
            assert(sps.take(k as int).push(sps[k as int]) =~= sps.take(k + 1));
        }
        k = k + 1;
    }
    proof {
        assert(sps.take(sps.len() as int) =~= sps);
    }
    Ok(out)
}

/// Order between indexed rules: ascending by `order` value, ties broken by
/// original position.
pub open spec fn rule_key_lt(a: (RuleV, int), b: (RuleV, int)) -> bool {
    a.0.order < b.0.order || (a.0.order == b.0.order && a.1 < b.1)
}

/// `x` placed before the first element of `s` that follows it in key order.
pub open spec fn insert_rule(s: Seq<(RuleV, int)>, x: (RuleV, int)) -> Seq<(RuleV, int)>
    decreases s.len(),
{
    if s.len() == 0 {
        seq![x]
    } else if rule_key_lt(x, s[0]) {
        seq![x] + s
    } else {
        seq![s[0]] + insert_rule(s.skip(1), x)
    }
}

/// Insertion sort of the indexed rules from position `i` on into `acc`.
pub open spec fn isort_from(s: Seq<(RuleV, int)>, i: int, acc: Seq<(RuleV, int)>) -> Seq<
    (RuleV, int),
>
    decreases s.len() - i,
{
    if i < 0 || i >= s.len() {
        acc
    } else {
        isort_from(s, i + 1, insert_rule(acc, s[i]))
    }
}

/// Each rule paired with its declaration position.
pub open spec fn indexed(rules: Seq<RuleV>) -> Seq<(RuleV, int)> {
    Seq::new(rules.len(), |i: int| (rules[i], i))
}

/// The rules re-sorted ascending by `order`, ties kept in declaration order.
pub open spec fn sort_rules_spec(rules: Seq<RuleV>) -> Seq<RuleV> {
    isort_from(indexed(rules), 0, Seq::empty()).map_values(|p: (RuleV, int)| p.0)
}

/// Inserting at the first position whose element follows `x` is what
/// `insert_rule` computes.
proof fn lemma_insert_rule_at(s: Seq<(RuleV, int)>, x: (RuleV, int), p: int)
    requires
        0 <= p <= s.len(),
        forall|k: int| 0 <= k < p ==> !rule_key_lt(x, #[trigger] s[k]),
        p < s.len() ==> rule_key_lt(x, s[p]),
    ensures
        insert_rule(s, x) == s.take(p) + seq![x] + s.skip(p),
    decreases s.len(),
{
    if s.len() == 0 {
        assert(s.take(0) + seq![x] + s.skip(0) =~= seq![x]);
    } else if rule_key_lt(x, s[0]) {
        assert(p == 0);
        assert(s.take(0) + seq![x] + s.skip(0) =~= seq![x] + s);
    } else {
        assert(p >= 1);
        let s1 = s.skip(1);
        assert(forall|k: int| 0 <= k < p - 1 ==> #[trigger] s1[k] == s[k + 1]);
        lemma_insert_rule_at(s1, x, p - 1);
        assert(s1.take(p - 1) =~= s.take(p).skip(1));
        assert(s1.skip(p - 1) =~= s.skip(p));
        assert(seq![s[0]] + (s1.take(p - 1) + seq![x] + s1.skip(p - 1)) =~= s.take(p) + seq![x]
            + s.skip(p));
    }
}

/// The view of an indexed working list.
pub open spec fn ipairs_view(s: Seq<(PatternRule, usize)>) -> Seq<(RuleV, int)> {
    s.map_values(|p: (PatternRule, usize)| (p.0@, p.1 as int))
}

/// Whether indexed rule `(a, ai)` sorts strictly before `(b, bi)`.
fn key_lt(a: &PatternRule, ai: usize, b: &PatternRule, bi: usize) -> (r: bool)
    ensures
        r == rule_key_lt((a@, ai as int), (b@, bi as int)),
{
    a.order < b.order || (a.order == b.order && ai < bi)
}

/// Re-sorts the rules ascending by `order`, keeping declaration order among
/// equal `order` values; the in-memory sequence is always consulted in this
/// order regardless of storage order.
pub fn sort_rules(rules: &Vec<PatternRule>) -> (r: Vec<PatternRule>)
    ensures
        r@.map_values(|pr: PatternRule| pr@) == sort_rules_spec(
            rules@.map_values(|pr: PatternRule| pr@),
        ),
{
    let ghost rv = rules@.map_values(|pr: PatternRule| pr@);
    let mut acc: Vec<(PatternRule, usize)> = Vec::new();
    let mut i: usize = 0;
    proof {
        assert(ipairs_view(acc@) =~= Seq::<(RuleV, int)>::empty());
    }
    while i < rules.len()
        invariant
            i <= rules@.len(),
            rv == rules@.map_values(|pr: PatternRule| pr@),
            isort_from(indexed(rv), 0, Seq::empty()) == isort_from(
                indexed(rv),
                i as int,
                ipairs_view(acc@),
            ),
        decreases rules@.len() - i,
    {
        let x = crate::model::clone_rule(&rules[i]);
        let ghost xv = (x@, i as int);
        proof {
            assert(indexed(rv)[i as int] == (rv[i as int], i as int));
            assert(rv[i as int] == rules@[i as int]@);
        }
        let mut p: usize = 0;
        while p < acc.len() && !key_lt(&x, i, &acc[p].0, acc[p].1)
            invariant
                p <= acc@.len(),
                xv == (x@, i as int),
                forall|k: int| 0 <= k < p ==> !rule_key_lt(xv, #[trigger] ipairs_view(acc@)[k]),
            decreases acc@.len() - p,
        {
            proof {
                assert(ipairs_view(acc@)[p as int] == (acc@[p as int].0@, acc@[p as int].1 as int));
            }
            p = p + 1;
        }
        proof {
            if p < acc@.len() {
                assert(ipairs_view(acc@)[p as int] == (acc@[p as int].0@, acc@[p as int].1 as int));
                assert(rule_key_lt(xv, ipairs_view(acc@)[p as int]));
            }
            lemma_insert_rule_at(ipairs_view(acc@), xv, p as int);
        }
        let ghost acc_old = ipairs_view(acc@);
        acc.insert(p, (x, i));
        proof {
            assert(ipairs_view(acc@) =~= acc_old.take(p as int) + seq![xv] + acc_old.skip(
                p as int,
            ));
            assert(ipairs_view(acc@) == insert_rule(acc_old, xv));
        }
        i = i + 1;
    }
    proof {
        assert(isort_from(indexed(rv), rv.len() as int, ipairs_view(acc@)) == ipairs_view(acc@));
    }
    let mut out: Vec<PatternRule> = Vec::new();
    let mut j: usize = 0;
    while j < acc.len()
        invariant
            j <= acc@.len(),
            out@.map_values(|pr: PatternRule| pr@) =~= ipairs_view(acc@).map_values(
                |p: (RuleV, int)| p.0,
            ).take(j as int),
        decreases acc@.len() - j,
    {
        out.push(crate::model::clone_rule(&acc[j].0));
        proof {
            let f = ipairs_view(acc@).map_values(|p: (RuleV, int)| p.0);
            assert(f[j as int] == acc@[j as int].0@);
            assert(f.take(j + 1) =~= f.take(j as int).push(f[j as int]));
        }
        j = j + 1;
    }
    proof {
        let f = ipairs_view(acc@).map_values(|p: (RuleV, int)| p.0);
        assert(f.take(f.len() as int) =~= f);
        assert(out@.map_values(|pr: PatternRule| pr@) == sort_rules_spec(rv));
    }
    out
}

/// Whether a rule takes part in a run: enabled, with a non-empty pattern
/// that compiles, and an exclusion pattern that compiles when non-empty.
pub open spec fn rule_active(r: RuleV) -> bool {
    r.enabled && r.pattern.len() > 0 && !rule_fails(r)
}

/// The active rules from position `i` on, in order.
pub open spec fn usable_from(rules: Seq<RuleV>, i: int) -> Seq<RuleV>
    decreases rules.len() - i,
{
    if i < 0 || i >= rules.len() {
        Seq::empty()
    } else if rule_active(rules[i]) {
        seq![rules[i]] + usable_from(rules, i + 1)
    } else {
        usable_from(rules, i + 1)
    }
}

/// The enabled rules from position `i` on whose pattern or exclusion
/// pattern fails to compile, as failure records, in order.
pub open spec fn failures_from(rules: Seq<RuleV>, i: int) -> Seq<crate::model::FailureV>
    decreases rules.len() - i,
{
    if i < 0 || i >= rules.len() {
        Seq::empty()
    } else if rules[i].enabled && rule_fails(rules[i]) {
        seq![crate::model::FailureV { rule_name: rules[i].name, rule_order: rules[i].order }]
            + failures_from(rules, i + 1)
    } else {
        failures_from(rules, i + 1)
    }
}

/// Every rule the partition keeps is active.
proof fn lemma_usable_active(rules: Seq<RuleV>, i: int)
    requires
        0 <= i,
    ensures
        forall|j: int|
            0 <= j < usable_from(rules, i).len() ==> rule_active(
                #[trigger] usable_from(rules, i)[j],
            ),
    decreases rules.len() - i,
{
    if i < rules.len() {
        lemma_usable_active(rules, i + 1);
        let u = usable_from(rules, i);
        let rest = usable_from(rules, i + 1);
        if rule_active(rules[i]) {
            assert forall|j: int| 0 <= j < u.len() implies rule_active(#[trigger] u[j]) by {
                if j == 0 {
                    assert(u[0] == rules[i]);
                } else {
                    assert(u[j] == rest[j - 1]);
                }
            }
        }
    }
}

/// Splits the rules, in order, into those that take part in a run and the
/// enabled ones whose patterns fail to compile; disabled rules and rules
/// with an empty pattern fall away silently.
fn partition_rules(rules: &Vec<PatternRule>) -> (r: (Vec<PatternRule>, Vec<crate::model::RuleFailure>))
    ensures
        r.0@.map_values(|pr: PatternRule| pr@) == usable_from(
            rules@.map_values(|pr: PatternRule| pr@),
            0,
        ),
        r.1@.map_values(|f: crate::model::RuleFailure| f@) == failures_from(
            rules@.map_values(|pr: PatternRule| pr@),
            0,
        ),
        forall|j: int| 0 <= j < r.0@.len() ==> rule_active(#[trigger] r.0@[j]@),
{
    let ghost rv = rules@.map_values(|pr: PatternRule| pr@);
    let mut active: Vec<PatternRule> = Vec::new();
    let mut failed: Vec<crate::model::RuleFailure> = Vec::new();
    let mut i: usize = 0;
    proof {
        assert(active@.map_values(|pr: PatternRule| pr@) + usable_from(rv, 0) =~= usable_from(
            rv,
            0,
        ));
        assert(failed@.map_values(|f: crate::model::RuleFailure| f@) + failures_from(rv, 0)
            =~= failures_from(rv, 0));
    }
    while i < rules.len()
        invariant
            i <= rules@.len(),
            rv == rules@.map_values(|pr: PatternRule| pr@),
            usable_from(rv, 0) == active@.map_values(|pr: PatternRule| pr@) + usable_from(
                rv,
                i as int,
            ),
            failures_from(rv, 0) == failed@.map_values(|f: crate::model::RuleFailure| f@)
                + failures_from(rv, i as int),
        decreases rules@.len() - i,
    {
        let r = &rules[i];
        proof {
            assert(rv[i as int] == rules@[i as int]@);
        }
        if r.enabled && r.pattern.len() > 0 {
            let ci = !r.case_sensitive;
            let ok = rex_valid(&r.pattern, ci) && (r.exclude_pattern.len() == 0 || rex_valid(
                &r.exclude_pattern,
                ci,
            ));
            if ok {
                proof {
                    assert(rule_active(rv[i as int]));
                }
                active.push(crate::model::clone_rule(r));
                proof {
                    let av = active@.map_values(|pr: PatternRule| pr@);
                    assert(av =~= av.take(av.len() - 1).push(rv[i as int]));
                    assert(usable_from(rv, i as int) == seq![rv[i as int]] + usable_from(
                        rv,
                        i + 1,
                    ));
                    assert(av.take(av.len() - 1).push(rv[i as int]) + usable_from(rv, i + 1)
                        =~= av.take(av.len() - 1) + (seq![rv[i as int]] + usable_from(rv, i + 1)));
                }
            } else {
                proof {
                    assert(rule_fails(rv[i as int]));
                }
                failed.push(
                    crate::model::RuleFailure {
                        rule_name: clone_bytes(&r.name),
                        rule_order: r.order,
                    },
                );
                proof {
                    let fv = failed@.map_values(|f: crate::model::RuleFailure| f@);
                    assert(fv =~= fv.take(fv.len() - 1).push(
                        crate::model::FailureV {
                            rule_name: rv[i as int].name,
                            rule_order: rv[i as int].order,
                        },
                    ));
                    assert(fv.take(fv.len() - 1).push(
                        crate::model::FailureV {
                            rule_name: rv[i as int].name,
                            rule_order: rv[i as int].order,
                        },
                    ) + failures_from(rv, i + 1) =~= fv.take(fv.len() - 1) + (seq![
                        crate::model::FailureV {
                            rule_name: rv[i as int].name,
                            rule_order: rv[i as int].order,
                        },
                    ] + failures_from(rv, i + 1)));
                }
            }
        } else {
            proof {
                assert(!rule_active(rv[i as int]));
                assert(!(rv[i as int].enabled && rule_fails(rv[i as int])));
            }
        }
        i = i + 1;
    }
    proof {
        assert(usable_from(rv, rv.len() as int) =~= Seq::<RuleV>::empty());
        assert(failures_from(rv, rv.len() as int) =~= Seq::<crate::model::FailureV>::empty());
        let av = active@.map_values(|pr: PatternRule| pr@);
        let fv = failed@.map_values(|f: crate::model::RuleFailure| f@);
        assert(av + Seq::<RuleV>::empty() =~= av);
        assert(fv + Seq::<crate::model::FailureV>::empty() =~= fv);
        lemma_usable_active(rv, 0);
        assert forall|j: int| 0 <= j < active@.len() implies rule_active(
            #[trigger] active@[j]@,
        ) by {
            assert(av[j] == active@[j]@);
        }
    }
    (active, failed)
}



/// The views of a rule list.
pub open spec fn rules_vw(s: Seq<PatternRule>) -> Seq<RuleV> {
    s.map_values(|p: PatternRule| p@)
}

/// The views of a record list.
pub open spec fn recs_vw(s: Seq<TextRecord>) -> Seq<RecordV> {
    s.map_values(|p: TextRecord| p@)
}

/// The views of a report list.
pub open spec fn reports_vw(s: Seq<BatchFindMatch>) -> Seq<ReportV> {
    s.map_values(|p: BatchFindMatch| p@)
}

/// The report one accepted span/expansion pair yields: the record's
/// identity and original texts, the rule's identity, the matched substring
/// and its offsets into the pre-mutation target text.
pub open spec fn report_of(r: RuleV, rec: RecordV, pr: ((int, int), Seq<u8>)) -> ReportV {
    ReportV {
        tu_id: rec.id,
        check_name: r.name,
        check_order: r.order,
        category: r.category,
        description: r.description,
        source: rec.source,
        target: rec.target,
        match_text: rec.target.subrange(pr.0.0, pr.0.1),
        match_start: pr.0.0,
        match_end: pr.0.1,
        pattern: r.pattern,
        replacement: r.replacement,
    }
}

/// Every accepted match of one rule against one record, as reports.
pub open spec fn reports_of(r: RuleV, rec: RecordV) -> Seq<ReportV> {
    accepted_pairs(r, rec.target).map_values(|pr: ((int, int), Seq<u8>)| report_of(r, rec, pr))
}

/// The reports of the rules from position `j` on against one record, in
/// rule order.
pub open spec fn record_reports_from(rules: Seq<RuleV>, rec: RecordV, j: int) -> Seq<ReportV>
    decreases rules.len() - j,
{
    if j < 0 || j >= rules.len() {
        Seq::empty()
    } else {
        reports_of(rules[j], rec) + record_reports_from(rules, rec, j + 1)
    }
}

/// The reports of all rules against the records from position `i` on, in
/// record order, then rule order within a record.
pub open spec fn batch_reports_from(rules: Seq<RuleV>, recs: Seq<RecordV>, i: int) -> Seq<ReportV>
    decreases recs.len() - i,
{
    if i < 0 || i >= recs.len() {
        Seq::empty()
    } else {
        record_reports_from(rules, recs[i], 0) + batch_reports_from(rules, recs, i + 1)
    }
}

/// What a find run returns: for each record in store order, for each active
/// rule in ascending order, every accepted match as a report; the exact
/// report count; and one failure per enabled rule whose pattern does not
/// compile. Find never mutates.
pub open spec fn find_spec(p: ProfileV, recs: Seq<RecordV>, file: Seq<u8>) -> FindResultV {
    let sorted = sort_rules_spec(p.rules);
    FindResultV {
        profile_name: p.name,
        file: file,
        total_matches: batch_reports_from(usable_from(sorted, 0), recs, 0).len() as int,
        matches: batch_reports_from(usable_from(sorted, 0), recs, 0),
        failures: failures_from(sorted, 0),
    }
}

/// Runs every enabled rule of the profile, in ascending `order`, over every
/// record's target text and reports each accepted match without modifying
/// anything; `total_matches` equals the length of the match list.
pub fn batch_find(profile: &Profile, records: &Vec<TextRecord>, file: &Vec<u8>) -> (r:
    BatchFindResult)
    ensures
        r@ == find_spec(profile@, recs_vw(records@), file@),
        r.total_matches == r.matches@.len(),
{
    let ghost pv = profile@;
    let ghost recsv = recs_vw(records@);
    let sorted = sort_rules(&profile.rules);
    let (active, failed) = partition_rules(&sorted);
    let ghost av = rules_vw(active@);
    proof {
        assert(rules_vw(profile.rules@) =~= pv.rules);
        assert(av == usable_from(sort_rules_spec(pv.rules), 0));
    }
    let mut matches: Vec<BatchFindMatch> = Vec::new();
    let mut i: usize = 0;
    proof {
        assert(reports_vw(matches@) + batch_reports_from(av, recsv, 0) =~= batch_reports_from(
            av,
            recsv,
            0,
        ));
    }
    while i < records.len()
        invariant
            i <= records@.len(),
            recsv == recs_vw(records@),
            av == rules_vw(active@),
            forall|j: int| 0 <= j < active@.len() ==> rule_active(#[trigger] active@[j]@),
            batch_reports_from(av, recsv, 0) == reports_vw(matches@) + batch_reports_from(
                av,
                recsv,
                i as int,
            ),
        decreases records@.len() - i,
    {
        let rec = &records[i];
        let ghost recv = recsv[i as int];
        proof {
            assert(recv == rec@);
            assert(batch_reports_from(av, recsv, i as int) == record_reports_from(av, recv, 0)
                + batch_reports_from(av, recsv, i + 1));
        }
        let mut j: usize = 0;
        while j < active.len()
            invariant
                j <= active@.len(),
                i < records@.len(),
                recsv == recs_vw(records@),
                av == rules_vw(active@),
                recv == recsv[i as int],
                rec == &records@[i as int],
                recv == rec@,
                forall|k: int| 0 <= k < active@.len() ==> rule_active(#[trigger] active@[k]@),
                batch_reports_from(av, recsv, 0) == reports_vw(matches@) + record_reports_from(
                    av,
                    recv,
                    j as int,
                ) + batch_reports_from(av, recsv, i + 1),
            decreases active@.len() - j,
        {
            let rule = &active[j];
            let ghost rv = av[j as int];
            proof {
                assert(rv == rule@);
                assert(rule_active(rule@));
                assert(record_reports_from(av, recv, j as int) == reports_of(rv, recv)
                    + record_reports_from(av, recv, j + 1));
            }
            let pairs = match eval_pairs(rule, &rec.target) {
                Some(v) => v,
                None => {
                    proof {
                        assert(false);
                    }
                    Vec::new()
                },
            };
            let ghost pg = pairs_view(pairs@);
            let ghost base = reports_vw(matches@);
            proof {
                assert(pg == accepted_pairs(rv, recv.target));
                assert(reports_of(rv, recv).len() == pg.len());
            }
            let mut k: usize = 0;
            while k < pairs.len()
                invariant
                    k <= pairs@.len(),
                    i < records@.len(),
                    recsv == recs_vw(records@),
                    recv == recsv[i as int],
                    recv == rec@,
                    rv == rule@,
                    rule == &active@[j as int],
                    pg == pairs_view(pairs@),
                    pg == accepted_pairs(rv, recv.target),
                    found_wf(spans_of(pg), recv.target.len() as int),
                    reports_of(rv, recv).len() == pg.len(),
                    reports_vw(matches@) == base + reports_of(rv, recv).take(k as int),
                decreases pairs@.len() - k,
            {
                let (s, e) = pairs[k].0;
                proof {
                    assert(pg[k as int] == ((s as int, e as int), pairs@[k as int].1@));
                    assert(spans_of(pg)[k as int] == (s as int, e as int));
                }
                let mut mt: Vec<u8> = Vec::new();
                push_range(&mut mt, &rec.target, s, e);
                let report = BatchFindMatch {
                    tu_id: clone_bytes(&rec.id),
                    check_name: clone_bytes(&rule.name),
                    check_order: rule.order,
                    category: clone_bytes(&rule.category),
                    description: clone_bytes(&rule.description),
                    source: clone_bytes(&rec.source),
                    target: clone_bytes(&rec.target),
                    match_text: mt,
                    match_start: s,
                    match_end: e,
                    pattern: clone_bytes(&rule.pattern),
                    replacement: clone_bytes(&rule.replacement),
                };
                proof {
                    assert(Seq::<u8>::empty() + recv.target.subrange(s as int, e as int)
                        =~= recv.target.subrange(s as int, e as int));
                    assert(report@ =~= reports_of(rv, recv)[k as int]) by {
                        assert(reports_of(rv, recv)[k as int] == report_of(
                            rv,
                            recv,
                            pg[k as int],
                        ));
                    }
                }
                matches.push(report);
                proof {
                    let rs = reports_of(rv, recv);
                    assert(reports_vw(matches@) =~= (base + rs.take(k as int)).push(
                        rs[k as int],
                    ));
                    assert((base + rs.take(k as int)).push(rs[k as int]) =~= base + rs.take(k
                        + 1));
                }
                k = k + 1;
            }
            proof {
                let rs = reports_of(rv, recv);
                assert(rs.take(rs.len() as int) =~= rs);
                assert((base + rs) + (record_reports_from(av, recv, j + 1) + batch_reports_from(
                    av,
                    recsv,
                    i + 1,
                )) =~= base + (rs + record_reports_from(av, recv, j + 1)) + batch_reports_from(
                    av,
                    recsv,
                    i + 1,
                ));
            }
            j = j + 1;
        }
        proof {
            assert(record_reports_from(av, recv, active@.len() as int) =~= Seq::<
                ReportV,
            >::empty());
            assert(reports_vw(matches@) + Seq::<ReportV>::empty() + batch_reports_from(
                av,
                recsv,
                i + 1,
            ) =~= reports_vw(matches@) + batch_reports_from(av, recsv, i + 1));
        }
        i = i + 1;
    }
    proof {
        assert(batch_reports_from(av, recsv, records@.len() as int) =~= Seq::<ReportV>::empty());
        assert(reports_vw(matches@) + Seq::<ReportV>::empty() =~= reports_vw(matches@));
    }
    let total = matches.len();
    let r = BatchFindResult {
        profile_name: clone_bytes(&profile.name),
        file: clone_bytes(file),
        total_matches: total,
        matches,
        failures: failed,
    };
    proof {
        assert(r@ =~= find_spec(pv, recsv, file@));
    }
    r
}



/// Addition capped at the machine word: a tally that would overflow pins at
/// the maximum instead of wrapping.
pub open spec fn sat_add(a: int, b: int) -> int {
    if a + b > usize::MAX as int {
        usize::MAX as int
    } else {
        a + b
    }
}

/// Adds two tallies, capping at the machine word.
fn sat_add_usize(a: usize, b: usize) -> (r: usize)
    ensures
        r as int == sat_add(a as int, b as int),
{
    if b > usize::MAX - a {
        usize::MAX
    } else {
        a + b
    }
}

/// The rules from position `j` on, composed sequentially over `text`: each
/// rule's accepted matches are taken against the output of the previous
/// rule, and `reps` tallies every replaced span.
pub open spec fn apply_rules_from(rules: Seq<RuleV>, j: int, text: Seq<u8>, reps: int) -> (
    Seq<u8>,
    int,
)
    decreases rules.len() - j,
{
    if j < 0 || j >= rules.len() {
        (text, reps)
    } else {
        let acc = accepted_pairs(rules[j], text);
        apply_rules_from(rules, j + 1, apply_pairs(text, acc), sat_add(reps, acc.len() as int))
    }
}

/// The records from position `i` on, each rewritten independently by the
/// full rule sequence; `reps` tallies spans replaced and `modified` counts
/// records whose text ended up different from its original value.
pub open spec fn replace_from(
    rules: Seq<RuleV>,
    recs: Seq<RecordV>,
    i: int,
    out: Seq<RecordV>,
    reps: int,
    modified: int,
) -> (Seq<RecordV>, int, int)
    decreases recs.len() - i,
{
    if i < 0 || i >= recs.len() {
        (out, reps, modified)
    } else {
        let pr = apply_rules_from(rules, 0, recs[i].target, 0);
        let newrec = RecordV { id: recs[i].id, source: recs[i].source, target: pr.0 };
        replace_from(
            rules,
            recs,
            i + 1,
            out.push(newrec),
            sat_add(reps, pr.1),
            modified + (if pr.0 != recs[i].target {
                1int
            } else {
                0int
            }),
        )
    }
}

/// What a replace run returns: every record rewritten by the active rules
/// in ascending order, composed sequentially per record; the tally of
/// replaced spans; the count of records whose text changed; and one failure
/// per enabled rule whose pattern does not compile.
pub open spec fn replace_spec(p: ProfileV, recs: Seq<RecordV>, out_path: Seq<u8>) -> (
    Seq<RecordV>,
    ReplaceResultV,
)
{
    let sorted = sort_rules_spec(p.rules);
    let res = replace_from(usable_from(sorted, 0), recs, 0, Seq::empty(), 0, 0);
    (
        res.0,
        ReplaceResultV {
            success: true,
            modified_units: res.2,
            total_replacements: res.1,
            output_path: out_path,
            failures: failures_from(sorted, 0),
        },
    )
}

/// Rewrites every record by the profile's enabled rules in ascending
/// `order`, each rule's matches evaluated against the record's current
/// text; returns the mutated records and the tally of replacements.
pub fn batch_replace(profile: &Profile, records: &Vec<TextRecord>, output_path: &Vec<u8>) -> (r: (
    Vec<TextRecord>,
    BatchReplaceResult,
))
    ensures
        recs_vw(r.0@) == replace_spec(profile@, recs_vw(records@), output_path@).0,
        r.1@ == replace_spec(profile@, recs_vw(records@), output_path@).1,
{
    let ghost pv = profile@;
    let ghost recsv = recs_vw(records@);
    let sorted = sort_rules(&profile.rules);
    let (active, failed) = partition_rules(&sorted);
    let ghost av = rules_vw(active@);
    proof {
        assert(rules_vw(profile.rules@) =~= pv.rules);
        assert(av == usable_from(sort_rules_spec(pv.rules), 0));
    }
    let mut out: Vec<TextRecord> = Vec::new();
    let mut reps: usize = 0;
    let mut modified: usize = 0;
    let mut i: usize = 0;
    proof {
        assert(recs_vw(out@) =~= Seq::<RecordV>::empty());
    }
    while i < records.len()
        invariant
            i <= records@.len(),
            recsv == recs_vw(records@),
            av == rules_vw(active@),
            forall|k: int| 0 <= k < active@.len() ==> rule_active(#[trigger] active@[k]@),
            modified <= i,
            replace_from(av, recsv, 0, Seq::empty(), 0, 0) == replace_from(
                av,
                recsv,
                i as int,
                recs_vw(out@),
                reps as int,
                modified as int,
            ),
        decreases records@.len() - i,
    {
        let rec = &records[i];
        let ghost recv = recsv[i as int];
        proof {
            assert(recv == rec@);
        }
        let mut cur = clone_bytes(&rec.target);
        let mut rcount: usize = 0;
        let mut j: usize = 0;
        while j < active.len()
            invariant
                j <= active@.len(),
                av == rules_vw(active@),
                forall|k: int| 0 <= k < active@.len() ==> rule_active(#[trigger] active@[k]@),
                apply_rules_from(av, 0, recv.target, 0) == apply_rules_from(
                    av,
                    j as int,
                    cur@,
                    rcount as int,
                ),
            decreases active@.len() - j,
        {
            let rule = &active[j];
            let ghost rv = av[j as int];
            proof {
                assert(rv == rule@);
                assert(rule_active(rule@));
            }
            let pairs = match eval_pairs(rule, &cur) {
                Some(v) => v,
                None => {
                    proof {
                        assert(false);
                    }
                    Vec::new()
                },
            };
            let newtext = apply_accepted(&cur, &pairs);
            proof {
                assert(pairs_view(pairs@).len() == pairs@.len());
            }
            rcount = sat_add_usize(rcount, pairs.len());
            cur = newtext;
            j = j + 1;
        }
        let ghost pr = apply_rules_from(av, 0, recv.target, 0);
        proof {
            assert(pr == (cur@, rcount as int));
        }
        let unchanged = bytes_eq(&cur, &rec.target);
        let newrec = TextRecord {
            id: clone_bytes(&rec.id),
            source: clone_bytes(&rec.source),
            target: cur,
        };
        proof {
            assert(newrec@ =~= (RecordV { id: recv.id, source: recv.source, target: pr.0 }));
        }
        let ghost out_old = recs_vw(out@);
        out.push(newrec);
        proof {
            assert(recs_vw(out@) =~= out_old.push(
                RecordV { id: recv.id, source: recv.source, target: pr.0 },
            ));
        }
        reps = sat_add_usize(reps, rcount);
        if !unchanged {
            modified = modified + 1;
            proof {
                assert(pr.0 != recv.target);
            }
        } else {
            proof {
                assert(pr.0 == recv.target);
            }
        }
        i = i + 1;
    }
    let result = BatchReplaceResult {
        success: true,
        modified_units: modified,
        total_replacements: reps,
        output_path: clone_bytes(output_path),
        failures: failed,
    };
    proof {
        assert(result@ =~= replace_spec(pv, recsv, output_path@).1);
    }
    (out, result)
}

/// The views of an edit list.
pub open spec fn edits_vw(s: Seq<EditedUnit>) -> Seq<EditV> {
    s.map_values(|e: EditedUnit| e@)
}

/// The views of an unknown-id list.
pub open spec fn unknown_vw(s: Seq<UnknownRecordId>) -> Seq<UnknownIdV> {
    s.map_values(|u: UnknownRecordId| u@)
}

/// Every record whose id matches gets the new target text; every other
/// record is untouched.
pub open spec fn set_target(recs: Seq<RecordV>, id: Seq<u8>, t: Seq<u8>) -> Seq<RecordV> {
    recs.map_values(
        |r: RecordV|
            if r.id == id {
                RecordV { id: r.id, source: r.source, target: t }
            } else {
                r
            },
    )
}

/// Whether some record carries this id.
pub open spec fn has_id(recs: Seq<RecordV>, id: Seq<u8>) -> bool {
    exists|j: int| 0 <= j < recs.len() && (#[trigger] recs[j]).id == id
}

/// The edits from position `i` on applied in order: a matching id rewrites
/// that record's target wholesale; an unmatched id is collected as an error
/// and the remaining edits still apply.
pub open spec fn edits_from(
    recs: Seq<RecordV>,
    edits: Seq<EditV>,
    i: int,
    errs: Seq<UnknownIdV>,
) -> (Seq<RecordV>, Seq<UnknownIdV>)
    decreases edits.len() - i,
{
    if i < 0 || i >= edits.len() {
        (recs, errs)
    } else if has_id(recs, edits[i].id) {
        edits_from(set_target(recs, edits[i].id, edits[i].target), edits, i + 1, errs)
    } else {
        edits_from(recs, edits, i + 1, errs.push(UnknownIdV { id: edits[i].id }))
    }
}

/// What applying a list of edits returns: the records after every matching
/// edit, and one `UnknownRecordId` per edit whose id named no record.
pub open spec fn apply_edits_spec(recs: Seq<RecordV>, edits: Seq<EditV>) -> (
    Seq<RecordV>,
    Seq<UnknownIdV>,
)
{
    edits_from(recs, edits, 0, Seq::empty())
}

/// Applies manual corrections: each edit replaces the target text of the
/// record with the matching id wholesale; ids not present are reported and
/// do not abort the remaining edits. No pattern matching takes place.
pub fn apply_edits(records: &Vec<TextRecord>, edits: &Vec<EditedUnit>) -> (r: (
    Vec<TextRecord>,
    Vec<UnknownRecordId>,
))
    ensures
        recs_vw(r.0@) == apply_edits_spec(recs_vw(records@), edits_vw(edits@)).0,
        unknown_vw(r.1@) == apply_edits_spec(recs_vw(records@), edits_vw(edits@)).1,
{
    let ghost recsv = recs_vw(records@);
    let ghost edsv = edits_vw(edits@);
    let mut cur: Vec<TextRecord> = Vec::new();
    let mut i: usize = 0;
    while i < records.len()
        invariant
            i <= records@.len(),
            recsv == recs_vw(records@),
            recs_vw(cur@) =~= recsv.take(i as int),
        decreases records@.len() - i,
    {
        cur.push(clone_record(&records[i]));
        proof {
            assert(recs_vw(cur@) =~= recsv.take(i as int).push(recsv[i as int]));
            assert(recsv.take(i as int).push(recsv[i as int]) =~= recsv.take(i + 1));
        }
        i = i + 1;
    }
    proof {
        assert(recsv.take(recsv.len() as int) =~= recsv);
    }
    let mut errs: Vec<UnknownRecordId> = Vec::new();
    let mut e: usize = 0;
    proof {
        assert(unknown_vw(errs@) =~= Seq::<UnknownIdV>::empty());
        assert(recs_vw(cur@) == recsv);
    }
    while e < edits.len()
        invariant
            e <= edits@.len(),
            recsv == recs_vw(records@),
            edsv == edits_vw(edits@),
            edits_from(recsv, edsv, 0, Seq::empty()) == edits_from(
                recs_vw(cur@),
                edsv,
                e as int,
                unknown_vw(errs@),
            ),
        decreases edits@.len() - e,
    {
        let edit = &edits[e];
        let ghost ev = edsv[e as int];
        let ghost curv = recs_vw(cur@);
        proof {
            assert(ev == edit@);
        }
        let mut newrecs: Vec<TextRecord> = Vec::new();
        let mut found = false;
        let mut j: usize = 0;
        while j < cur.len()
            invariant
                j <= cur@.len(),
                curv == recs_vw(cur@),
                ev == edit@,
                edit == &edits@[e as int],
                recs_vw(newrecs@) =~= set_target(curv, ev.id, ev.target).take(j as int),
                found == has_id(curv.take(j as int), ev.id),
            decreases cur@.len() - j,
        {
            let rec = &cur[j];
            let ghost st = set_target(curv, ev.id, ev.target);
            if bytes_eq(&rec.id, &edit.id) {
                newrecs.push(
                    TextRecord {
                        id: clone_bytes(&rec.id),
                        source: clone_bytes(&rec.source),
                        target: clone_bytes(&edit.target),
                    },
                );
                found = true;
                proof {
                    assert(curv.take(j + 1)[j as int].id == ev.id);
                    assert(has_id(curv.take(j + 1), ev.id));
                }
            } else {
                newrecs.push(clone_record(rec));
                proof {
                    assert forall|k: int|
                        0 <= k < j + 1 && (#[trigger] curv.take(j + 1)[k]).id == ev.id implies
                        has_id(curv.take(j as int), ev.id) by {
                        if k < j && curv.take(j + 1)[k].id == ev.id {
                            assert(curv.take(j as int)[k].id == ev.id);
                        }
                    }
                    assert(has_id(curv.take(j + 1), ev.id) == has_id(
                        curv.take(j as int),
                        ev.id,
                    )) by {
                        if has_id(curv.take(j as int), ev.id) {
                            let w = choose|w: int|
                                0 <= w < j && (#[trigger] curv.take(j as int)[w]).id == ev.id;
                            assert(curv.take(j + 1)[w].id == ev.id);
                        }
                        if has_id(curv.take(j + 1), ev.id) {
                            let w = choose|w: int|
                                0 <= w < j + 1 && (#[trigger] curv.take(j + 1)[w]).id == ev.id;
                            assert(w < j);
                            assert(curv.take(j as int)[w].id == ev.id);
                        }
                    }
                }
            }
            proof {
                assert(st[j as int] == (if curv[j as int].id == ev.id {
                    RecordV { id: curv[j as int].id, source: curv[j as int].source, target: ev.target }
                } else {
                    curv[j as int]
                }));
                assert(recs_vw(newrecs@) =~= st.take(j as int).push(st[j as int]));
                assert(st.take(j as int).push(st[j as int]) =~= st.take(j + 1));
            }
            j = j + 1;
        }
        proof {
            assert(curv.take(curv.len() as int) =~= curv);
            assert(set_target(curv, ev.id, ev.target).take(curv.len() as int) =~= set_target(
                curv,
                ev.id,
                ev.target,
            ));
        }
        if found {
            cur = newrecs;
            proof {
                assert(has_id(curv, ev.id));
                assert(recs_vw(cur@) =~= set_target(curv, ev.id, ev.target));
                assert(edits_from(curv, edsv, e as int, unknown_vw(errs@)) == edits_from(
                    set_target(curv, ev.id, ev.target),
                    edsv,
                    e + 1,
                    unknown_vw(errs@),
                ));
            }
        } else {
            proof {
                assert(!has_id(curv, ev.id)) by {
                    if has_id(curv, ev.id) {
                        let w = choose|w: int|
                            0 <= w < curv.len() && (#[trigger] curv[w]).id == ev.id;
                        assert(curv.take(curv.len() as int)[w].id == ev.id);
                    }
                }
            }
            let ghost errs_old = unknown_vw(errs@);
            errs.push(UnknownRecordId { id: clone_bytes(&edit.id) });
            proof {
                assert(unknown_vw(errs@) =~= errs_old.push(UnknownIdV { id: ev.id }));
                assert(edits_from(curv, edsv, e as int, errs_old) == edits_from(
                    curv,
                    edsv,
                    e + 1,
                    errs_old.push(UnknownIdV { id: ev.id }),
                ));
            }
        }
        e = e + 1;
    }
    proof {
        assert(edits_from(recs_vw(cur@), edsv, edsv.len() as int, unknown_vw(errs@)) == (
        recs_vw(cur@), unknown_vw(errs@)));
    }
    (cur, errs)
}


} // verus!
