//! The regular-expression primitive, taken from the `regex` crate behind
//! trusted declarations: compilation validity, the span list a pattern
//! yields against a text, and the per-match expansion of a replacement
//! template.
use vstd::prelude::*;

verus! {

/// Whether `pattern` is UTF-8 and compiles as a regular expression under the
/// given case-insensitivity flag. Named after `regex::bytes::RegexBuilder::build`.
pub uninterp spec fn pattern_ok(pattern: Seq<u8>, case_insensitive: bool) -> bool;

/// The successive, non-overlapping, leftmost-first match spans that the
/// compiled pattern yields against `text`, as half-open byte ranges. Named
/// after `regex::bytes::Regex::find_iter`.
pub uninterp spec fn found_spans(pattern: Seq<u8>, case_insensitive: bool, text: Seq<u8>) -> Seq<
    (int, int),
>;

/// For each match in `found_spans`, the replacement `template` with its `$`
/// back-references expanded against that match's capture groups. Named after
/// `regex::bytes::Captures::expand`.
pub uninterp spec fn expansions_of(
    pattern: Seq<u8>,
    case_insensitive: bool,
    text: Seq<u8>,
    template: Seq<u8>,
) -> Seq<Seq<u8>>;

/// A machine-level span/expansion list read as mathematical pairs.
pub open spec fn pairs_view(s: Seq<((usize, usize), Vec<u8>)>) -> Seq<((int, int), Seq<u8>)> {
    s.map_values(|p: ((usize, usize), Vec<u8>)| ((p.0.0 as int, p.0.1 as int), p.1@))
}

/// The spans of a span/expansion list.
pub open spec fn spans_of(ps: Seq<((int, int), Seq<u8>)>) -> Seq<(int, int)> {
    ps.map_values(|p: ((int, int), Seq<u8>)| p.0)
}

/// The match spans zipped with their template expansions.
pub open spec fn scan_pairs(
    pattern: Seq<u8>,
    case_insensitive: bool,
    text: Seq<u8>,
    template: Seq<u8>,
) -> Seq<((int, int), Seq<u8>)> {
    Seq::new(
        found_spans(pattern, case_insensitive, text).len(),
        |i: int|
            (
                found_spans(pattern, case_insensitive, text)[i],
                expansions_of(pattern, case_insensitive, text, template)[i],
            ),
    )
}

/// What global-match scanning guarantees of a span list over a text of
/// length `n`: every span lies within the text, runs forward, and later
/// spans start at or after the end of earlier ones.
pub open spec fn found_wf(f: Seq<(int, int)>, n: int) -> bool {
    (forall|i: int|
        0 <= i < f.len() ==> 0 <= (#[trigger] f[i]).0 && f[i].0 <= f[i].1 && f[i].1 <= n) && (
    forall|i: int, j: int|
        0 <= i < j < f.len() ==> (#[trigger] f[i]).1 <= (#[trigger] f[j]).0)
}

/// Relies on `regex::bytes::RegexBuilder::build` (compilation, with the
/// case-insensitive flag) and on `regex::bytes::Regex::captures_iter` with
/// `Captures::expand`: the iterator yields the same successive
/// non-overlapping leftmost-first matches as `Regex::find_iter`, group 0 of
/// each capture set is the whole match, and `expand` writes the template
/// with `$` references replaced by that match's groups. A pattern that is
/// not UTF-8 or does not compile reports as invalid.
#[verifier::external_body]
pub(crate) fn rex_scan(
    pattern: &Vec<u8>,
    case_insensitive: bool,
    text: &Vec<u8>,
    template: &Vec<u8>,
) -> (r: Option<Vec<((usize, usize), Vec<u8>)>>)
    ensures
        r is Some <==> pattern_ok(pattern@, case_insensitive),
        r matches Some(v) ==> {
            &&& pairs_view(v@) == scan_pairs(pattern@, case_insensitive, text@, template@)
            &&& found_spans(pattern@, case_insensitive, text@).len() == expansions_of(
                pattern@,
                case_insensitive,
                text@,
                template@,
            ).len()
            &&& found_wf(found_spans(pattern@, case_insensitive, text@), text@.len() as int)
        },
{
    let p = match core::str::from_utf8(pattern.as_slice()) {
        Ok(p) => p,
        Err(_) => return None,
    };
    let re = match regex::bytes::RegexBuilder::new(p).case_insensitive(case_insensitive).build() {
        Ok(re) => re,
        Err(_) => return None,
    };
    Some(re.captures_iter(text.as_slice()).map(|c| {
        let m = c.get(0).unwrap();
        let mut dst: Vec<u8> = Vec::new();
        c.expand(template.as_slice(), &mut dst);
        ((m.start(), m.end()), dst)
    }).collect())
}

/// Relies on `regex::bytes::RegexBuilder::build`: whether the pattern text
/// is UTF-8 and compiles under the given case-insensitivity flag.
#[verifier::external_body]
pub(crate) fn rex_valid(pattern: &Vec<u8>, case_insensitive: bool) -> (r: bool)
    ensures
        r == pattern_ok(pattern@, case_insensitive),
{
    match core::str::from_utf8(pattern.as_slice()) {
        Ok(p) => regex::bytes::RegexBuilder::new(p).case_insensitive(case_insensitive).build().is_ok(),
        Err(_) => false,
    }
}

/// Relies on `uuid::Uuid::new_v4` and `Uuid::to_string`: a freshly drawn
/// random identifier in the 36-byte hyphenated form. Nothing more is
/// promised of its value: it depends on the process's randomness.
#[verifier::external_body]
pub(crate) fn fresh_entry_id() -> (r: Vec<u8>)
    ensures
        r@.len() == 36,
{
    uuid::Uuid::new_v4().to_string().into_bytes()
}

} // verus!
