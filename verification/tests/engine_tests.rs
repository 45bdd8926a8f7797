use xliff_qa::engine::{apply_edits, batch_find, batch_replace, evaluate_rule, sort_rules};
use xliff_qa::model::{EditedUnit, PatternRule, Profile, TextRecord};

fn rule(order: i32, pattern: &str, replacement: &str) -> PatternRule {
    PatternRule {
        order,
        enabled: true,
        name: format!("rule-{}", order).into_bytes(),
        description: b"test rule".to_vec(),
        category: b"general".to_vec(),
        pattern: pattern.as_bytes().to_vec(),
        replacement: replacement.as_bytes().to_vec(),
        case_sensitive: false,
        exclude_pattern: Vec::new(),
    }
}

fn profile(rules: Vec<PatternRule>) -> Profile {
    Profile {
        name: b"Test profile".to_vec(),
        description: b"for the engine".to_vec(),
        language: b"nb-NO".to_vec(),
        created: 86400,
        modified: 172800,
        rules,
    }
}

fn copy_rule(r: &PatternRule) -> PatternRule {
    PatternRule {
        order: r.order,
        enabled: r.enabled,
        name: r.name.clone(),
        description: r.description.clone(),
        category: r.category.clone(),
        pattern: r.pattern.clone(),
        replacement: r.replacement.clone(),
        case_sensitive: r.case_sensitive,
        exclude_pattern: r.exclude_pattern.clone(),
    }
}

fn record(id: &str, target: &str) -> TextRecord {
    TextRecord {
        id: id.as_bytes().to_vec(),
        source: b"source text".to_vec(),
        target: target.as_bytes().to_vec(),
    }
}

#[test]
fn find_reports_double_space() {
    let p = profile(vec![rule(1, " {2,}", " ")]);
    let recs = vec![record("1", "Price: 10  EUR")];
    let r = batch_find(&p, &recs, &b"file.xlf".to_vec());
    assert_eq!(r.total_matches, 1);
    assert_eq!(r.matches.len(), 1);
    let m = &r.matches[0];
    assert_eq!(m.tu_id, b"1".to_vec());
    assert_eq!(m.match_text, b"  ".to_vec());
    assert_eq!(m.match_start, 9);
    assert_eq!(m.match_end, 11);
    assert_eq!(m.target, b"Price: 10  EUR".to_vec());
    assert!(r.failures.is_empty());
}

#[test]
fn replace_collapses_double_space() {
    let p = profile(vec![rule(1, " {2,}", " ")]);
    let recs = vec![record("1", "Price: 10  EUR")];
    let (out, res) = batch_replace(&p, &recs, &b"out.xlf".to_vec());
    assert_eq!(out[0].target, b"Price: 10 EUR".to_vec());
    assert_eq!(res.total_replacements, 1);
    assert_eq!(res.modified_units, 1);
    assert!(res.success);
}

#[test]
fn rule_order_decides_composition() {
    // Collapsing runs of spaces before stripping a leading space turns
    // "  hello" into "hello"; the declared order must not matter, only the
    // order fields.
    let a = rule(1, " {2,}", " ");
    let b = rule(2, "^ ", "");
    let p1 = profile(vec![copy_rule(&a), copy_rule(&b)]);
    let recs = vec![record("1", "  hello")];
    let (out1, _) = batch_replace(&p1, &recs, &b"o".to_vec());
    assert_eq!(out1[0].target, b"hello".to_vec());

    // Reversed declaration order, same order fields: same outcome.
    let p2 = profile(vec![b, a]);
    let (out2, _) = batch_replace(&p2, &recs, &b"o".to_vec());
    assert_eq!(out2[0].target, b"hello".to_vec());
}

#[test]
fn sort_is_stable_on_equal_orders() {
    let mut a = rule(1, "a", "x");
    a.name = b"first".to_vec();
    let mut b = rule(1, "b", "y");
    b.name = b"second".to_vec();
    let sorted = sort_rules(&vec![a, b]);
    assert_eq!(sorted[0].name, b"first".to_vec());
    assert_eq!(sorted[1].name, b"second".to_vec());
}

#[test]
fn exclusion_outside_match_span_does_not_suppress() {
    // The exclusion is matched against the full original text, and a match
    // is discarded only when the spans intersect: "EUR" stands outside the
    // double-space span, so the match survives.
    let mut r1 = rule(1, " {2,}", " ");
    r1.exclude_pattern = b"EUR".to_vec();
    let p = profile(vec![r1]);
    let recs = vec![record("1", "Price: 10  EUR")];
    let r = batch_find(&p, &recs, &b"f".to_vec());
    assert_eq!(r.total_matches, 1);
}

#[test]
fn exclusion_intersecting_match_span_suppresses() {
    let mut r1 = rule(1, " {2,}", " ");
    r1.exclude_pattern = b"10  EUR".to_vec();
    let p = profile(vec![r1]);
    let recs = vec![record("1", "Price: 10  EUR")];
    let r = batch_find(&p, &recs, &b"f".to_vec());
    assert_eq!(r.total_matches, 0);
    let (out, res) = batch_replace(&p, &recs, &b"o".to_vec());
    assert_eq!(out[0].target, b"Price: 10  EUR".to_vec());
    assert_eq!(res.total_replacements, 0);
    assert_eq!(res.modified_units, 0);
}

#[test]
fn empty_exclusion_suppresses_nothing() {
    let r1 = rule(1, "o", "0");
    assert!(r1.exclude_pattern.is_empty());
    let p = profile(vec![r1]);
    let recs = vec![record("1", "foo bold")];
    let r = batch_find(&p, &recs, &b"f".to_vec());
    assert_eq!(r.total_matches, 3);
}

#[test]
fn disabled_rules_contribute_nothing() {
    let mut r1 = rule(1, "o", "0");
    r1.enabled = false;
    let p = profile(vec![r1]);
    let recs = vec![record("1", "foo")];
    let r = batch_find(&p, &recs, &b"f".to_vec());
    assert_eq!(r.total_matches, 0);
    let (out, res) = batch_replace(&p, &recs, &b"o".to_vec());
    assert_eq!(out[0].target, b"foo".to_vec());
    assert_eq!(res.total_replacements, 0);
    assert_eq!(res.modified_units, 0);
}

#[test]
fn empty_pattern_is_a_no_op() {
    let p = profile(vec![rule(1, "", "x")]);
    let recs = vec![record("1", "anything")];
    let r = batch_find(&p, &recs, &b"f".to_vec());
    assert_eq!(r.total_matches, 0);
    assert!(r.failures.is_empty());
}

#[test]
fn invalid_pattern_is_recorded_and_skipped() {
    let bad = rule(1, "(unclosed", "x");
    let good = rule(2, "o", "0");
    let p = profile(vec![bad, good]);
    let recs = vec![record("1", "foo")];
    let r = batch_find(&p, &recs, &b"f".to_vec());
    assert_eq!(r.failures.len(), 1);
    assert_eq!(r.failures[0].rule_name, b"rule-1".to_vec());
    assert_eq!(r.failures[0].rule_order, 1);
    assert_eq!(r.total_matches, 2);
}

#[test]
fn case_insensitive_matching_keeps_text_case() {
    let r1 = rule(1, "eur", "NOK");
    let p = profile(vec![r1]);
    let recs = vec![record("1", "10 EUR and 5 eur")];
    let r = batch_find(&p, &recs, &b"f".to_vec());
    assert_eq!(r.total_matches, 2);
    assert_eq!(r.matches[0].match_text, b"EUR".to_vec());
}

#[test]
fn case_sensitive_matching_respects_case() {
    let mut r1 = rule(1, "eur", "NOK");
    r1.case_sensitive = true;
    let p = profile(vec![r1]);
    let recs = vec![record("1", "10 EUR and 5 eur")];
    let r = batch_find(&p, &recs, &b"f".to_vec());
    assert_eq!(r.total_matches, 1);
    assert_eq!(r.matches[0].match_start, 13);
}

#[test]
fn replacement_expands_back_references() {
    let r1 = rule(1, r"(\d+) EUR", "EUR ${1}");
    let p = profile(vec![r1]);
    let recs = vec![record("1", "price 10 EUR")];
    let (out, res) = batch_replace(&p, &recs, &b"o".to_vec());
    assert_eq!(out[0].target, b"price EUR 10".to_vec());
    assert_eq!(res.total_replacements, 1);
}

#[test]
fn rules_compose_sequentially_per_record() {
    // The second rule sees the first rule's output.
    let a = rule(1, "aa", "b");
    let b = rule(2, "bb", "c");
    let p = profile(vec![a, b]);
    let recs = vec![record("1", "aaaa")];
    let (out, res) = batch_replace(&p, &recs, &b"o".to_vec());
    assert_eq!(out[0].target, b"c".to_vec());
    assert_eq!(res.total_replacements, 3);
}

#[test]
fn find_is_idempotent_on_unmodified_records() {
    let p = profile(vec![rule(1, "o", "0"), rule(2, " ", "_")]);
    let recs = vec![record("1", "foo bar"), record("2", "go on")];
    let a = batch_find(&p, &recs, &b"f".to_vec());
    let b = batch_find(&p, &recs, &b"f".to_vec());
    assert_eq!(a.total_matches, b.total_matches);
    assert_eq!(a.matches.len(), b.matches.len());
    for (x, y) in a.matches.iter().zip(b.matches.iter()) {
        assert_eq!(x.tu_id, y.tu_id);
        assert_eq!(x.check_name, y.check_name);
        assert_eq!(x.match_start, y.match_start);
        assert_eq!(x.match_end, y.match_end);
        assert_eq!(x.match_text, y.match_text);
    }
}

#[test]
fn reports_come_in_record_then_rule_order() {
    let p = profile(vec![rule(2, "b", "x"), rule(1, "a", "y")]);
    let recs = vec![record("r1", "ab"), record("r2", "ba")];
    let r = batch_find(&p, &recs, &b"f".to_vec());
    assert_eq!(r.total_matches, 4);
    assert_eq!(r.matches[0].tu_id, b"r1".to_vec());
    assert_eq!(r.matches[0].check_order, 1);
    assert_eq!(r.matches[1].tu_id, b"r1".to_vec());
    assert_eq!(r.matches[1].check_order, 2);
    assert_eq!(r.matches[2].tu_id, b"r2".to_vec());
    assert_eq!(r.matches[2].check_order, 1);
}

#[test]
fn total_replacements_at_least_modified_units() {
    let p = profile(vec![rule(1, "o", "0")]);
    let recs = vec![record("1", "foo"), record("2", "xyz"), record("3", "oo")];
    let (_, res) = batch_replace(&p, &recs, &b"o".to_vec());
    assert_eq!(res.total_replacements, 4);
    assert_eq!(res.modified_units, 2);
    assert!(res.total_replacements >= res.modified_units);
}

#[test]
fn apply_edits_rewrites_matching_record() {
    let recs = vec![record("1", "old one"), record("2", "old two")];
    let edits = vec![EditedUnit { id: b"2".to_vec(), target: b"new two".to_vec() }];
    let (out, errs) = apply_edits(&recs, &edits);
    assert!(errs.is_empty());
    assert_eq!(out[0].target, b"old one".to_vec());
    assert_eq!(out[1].target, b"new two".to_vec());
    assert_eq!(out[1].id, b"2".to_vec());
    assert_eq!(out[1].source, b"source text".to_vec());
}

#[test]
fn apply_edits_unknown_id_reported_and_records_unchanged() {
    let recs = vec![record("1", "one"), record("2", "two")];
    let edits = vec![EditedUnit { id: b"9".to_vec(), target: b"nine".to_vec() }];
    let (out, errs) = apply_edits(&recs, &edits);
    assert_eq!(errs.len(), 1);
    assert_eq!(errs[0].id, b"9".to_vec());
    assert_eq!(out[0].target, b"one".to_vec());
    assert_eq!(out[1].target, b"two".to_vec());
}

#[test]
fn apply_edits_goes_on_after_an_unknown_id() {
    let recs = vec![record("1", "one")];
    let edits = vec![
        EditedUnit { id: b"9".to_vec(), target: b"nine".to_vec() },
        EditedUnit { id: b"1".to_vec(), target: b"uno".to_vec() },
    ];
    let (out, errs) = apply_edits(&recs, &edits);
    assert_eq!(errs.len(), 1);
    assert_eq!(out[0].target, b"uno".to_vec());
}

#[test]
fn evaluate_rule_yields_ordered_spans() {
    let r = rule(1, "o+", "0");
    let spans = evaluate_rule(&r, &b"foo bold".to_vec()).expect("pattern compiles");
    assert_eq!(spans, vec![(1, 3), (5, 6)]);
}

#[test]
fn evaluate_rule_reports_invalid_pattern() {
    let r = rule(4, "(oops", "x");
    let f = evaluate_rule(&r, &b"text".to_vec()).expect_err("pattern must not compile");
    assert_eq!(f.rule_name, b"rule-4".to_vec());
    assert_eq!(f.rule_order, 4);
}
