//! The profile document: a `metadata` block and a `checks` block of
//! `check` elements, written compactly with every field explicit and read
//! back tolerantly, missing optional fields taking their defaults.
use vstd::prelude::*;
use crate::model::{Profile, ProfileV, PatternRule, RuleV, ParseError, clone_bytes, bytes_eq};
use crate::text::{escape_spec, escape_xml, unescape_spec, unescape_xml, find_sub, lemma_find_sub, match_at, find_sub_at, fmt_i32_spec, fmt_i32, parse_i32_spec, parse_i32, dec_digits, parse_u64_spec, parse_u64, fmt_u64, push_range};
use crate::tags::{s_qa_suffix, v_qa_suffix, s_qa_open, s_qa_close, s_meta_open, s_meta_close, s_name_o, s_name_c, s_desc_o, s_desc_c, s_lang_o, s_lang_c, s_created_o, s_created_c, s_modified_o, s_modified_c, s_checks_o, s_checks_c, s_check_o, s_check_mid, s_check_tail, s_check_c, s_check_find, s_gt, s_quote, s_pattern_o, s_pattern_c, s_repl_o, s_repl_c, s_cat_o, s_cat_c, s_cs_o, s_cs_c, s_ex_o, s_ex_c, s_true_lit, s_false_lit, s_order_attr, s_enabled_attr, v_qa_open, v_qa_close, v_meta_open, v_meta_close, v_name_o, v_name_c, v_desc_o, v_desc_c, v_lang_o, v_lang_c, v_created_o, v_created_c, v_modified_o, v_modified_c, v_checks_o, v_checks_c, v_check_o, v_check_mid, v_check_tail, v_check_c, v_check_find, v_gt, v_quote, v_pattern_o, v_pattern_c, v_repl_o, v_repl_c, v_cat_o, v_cat_c, v_cs_o, v_cs_c, v_ex_o, v_ex_c, v_true_lit, v_false_lit, v_order_attr, v_enabled_attr};
use crate::engine::{sort_rules_spec, sort_rules, rules_vw};

verus! {

/// `pre` extended with one element: open tag, escaped value, close tag.
pub open spec fn fielded(pre: Seq<u8>, open: Seq<u8>, val: Seq<u8>, close: Seq<u8>) -> Seq<u8> {
    pre + open + escape_spec(val) + close
}

/// `pre` extended with one element whose content is written raw.
pub open spec fn rawed(pre: Seq<u8>, open: Seq<u8>, raw: Seq<u8>, close: Seq<u8>) -> Seq<u8> {
    pre + open + raw + close
}

/// The stored form of a flag.
pub open spec fn bool_lit(b: bool) -> Seq<u8> {
    if b {
        s_true_lit()
    } else {
        s_false_lit()
    }
}

/// One `check` element appended to `pre`: `order` and `enabled` as
/// attributes, then every field as a child element, all explicit.
pub open spec fn rule_doc(pre: Seq<u8>, r: RuleV) -> Seq<u8> {
    let a = pre + s_check_o() + fmt_i32_spec(r.order) + s_check_mid() + bool_lit(r.enabled)
        + s_check_tail();
    let b = fielded(a, s_name_o(), r.name, s_name_c());
    let c = fielded(b, s_desc_o(), r.description, s_desc_c());
    let d = fielded(c, s_pattern_o(), r.pattern, s_pattern_c());
    let e = fielded(d, s_repl_o(), r.replacement, s_repl_c());
    let f = fielded(e, s_cat_o(), r.category, s_cat_c());
    let g = rawed(f, s_cs_o(), bool_lit(r.case_sensitive), s_cs_c());
    let h = fielded(g, s_ex_o(), r.exclude_pattern, s_ex_c());
    h + s_check_c()
}

/// The `check` elements of the rules from position `i` on, appended to
/// `pre` in order.
pub open spec fn rules_doc(pre: Seq<u8>, rules: Seq<RuleV>, i: int) -> Seq<u8>
    decreases rules.len() - i,
{
    if i < 0 || i >= rules.len() {
        pre
    } else {
        rules_doc(rule_doc(pre, rules[i]), rules, i + 1)
    }
}

/// The stored form of a profile: a `metadata` block with every field
/// written explicitly, then a `checks` block with one `check` element per
/// rule, in the sequence's order.
pub open spec fn profile_doc(p: ProfileV) -> Seq<u8> {
    let a = Seq::<u8>::empty() + s_qa_open() + s_meta_open();
    let b = fielded(a, s_name_o(), p.name, s_name_c());
    let c = fielded(b, s_desc_o(), p.description, s_desc_c());
    let d = fielded(c, s_lang_o(), p.language, s_lang_c());
    let e = rawed(d, s_created_o(), dec_digits(p.created as nat), s_created_c());
    let f = rawed(e, s_modified_o(), dec_digits(p.modified as nat), s_modified_c());
    let g = f + s_meta_close() + s_checks_o();
    let h = rules_doc(g, p.rules, 0);
    h + s_checks_c() + s_qa_close()
}

/// Appends an open tag, the escaped value, and a close tag.
pub(crate) fn push_field(out: &mut Vec<u8>, open: &Vec<u8>, val: &Vec<u8>, close: &Vec<u8>)
    ensures
        final(out)@ == fielded(old(out)@, open@, val@, close@),
{
    push_range(out, open, 0, open.len());
    let esc = escape_xml(val);
    push_range(out, &esc, 0, esc.len());
    push_range(out, close, 0, close.len());
    proof {
        assert(open@.subrange(0, open@.len() as int) =~= open@);
        assert(esc@.subrange(0, esc@.len() as int) =~= esc@);
        assert(close@.subrange(0, close@.len() as int) =~= close@);
        assert(out@ =~= fielded(old(out)@, open@, val@, close@));
    }
}

/// Appends an open tag, the content bytes unchanged, and a close tag.
pub(crate) fn push_raw(out: &mut Vec<u8>, open: &Vec<u8>, raw: &Vec<u8>, close: &Vec<u8>)
    ensures
        final(out)@ == rawed(old(out)@, open@, raw@, close@),
{
    push_range(out, open, 0, open.len());
    push_range(out, raw, 0, raw.len());
    push_range(out, close, 0, close.len());
    proof {
        assert(open@.subrange(0, open@.len() as int) =~= open@);
        assert(raw@.subrange(0, raw@.len() as int) =~= raw@);
        assert(close@.subrange(0, close@.len() as int) =~= close@);
        assert(out@ =~= rawed(old(out)@, open@, raw@, close@));
    }
}

/// Appends a whole byte string.
pub(crate) fn push_all(out: &mut Vec<u8>, v: &Vec<u8>)
    ensures
        final(out)@ == old(out)@ + v@,
{
    push_range(out, v, 0, v.len());
    proof {
        assert(v@.subrange(0, v@.len() as int) =~= v@);
    }
}

/// The stored form of a flag.
pub(crate) fn bool_bytes(b: bool) -> (r: Vec<u8>)
    ensures
        r@ == bool_lit(b),
{
    if b {
        v_true_lit()
    } else {
        v_false_lit()
    }
}

/// Writes a profile out as its document: every field explicit, the five
/// reserved markup bytes escaped so that each field value round-trips
/// exactly.
pub fn save_qa_profile(p: &Profile) -> (r: Vec<u8>)
    ensures
        r@ == profile_doc(p@),
{
    let mut out: Vec<u8> = Vec::new();
    push_all(&mut out, &v_qa_open());
    push_all(&mut out, &v_meta_open());
    push_field(&mut out, &v_name_o(), &p.name, &v_name_c());
    push_field(&mut out, &v_desc_o(), &p.description, &v_desc_c());
    push_field(&mut out, &v_lang_o(), &p.language, &v_lang_c());
    push_raw(&mut out, &v_created_o(), &fmt_u64(p.created), &v_created_c());
    push_raw(&mut out, &v_modified_o(), &fmt_u64(p.modified), &v_modified_c());
    push_all(&mut out, &v_meta_close());
    push_all(&mut out, &v_checks_o());
    let ghost g = out@;
    let ghost rv = rules_vw(p.rules@);
    proof {
        assert(rv =~= p@.rules);
    }
    let mut i: usize = 0;
    while i < p.rules.len()
        invariant
            i <= p.rules@.len(),
            rv == rules_vw(p.rules@),
            rules_doc(g, rv, 0) == rules_doc(out@, rv, i as int),
        decreases p.rules@.len() - i,
    {
        let r = &p.rules[i];
        let ghost pre = out@;
        proof {
            assert(rv[i as int] == r@);
        }
        push_all(&mut out, &v_check_o());
        push_all(&mut out, &fmt_i32(r.order));
        push_all(&mut out, &v_check_mid());
        push_all(&mut out, &bool_bytes(r.enabled));
        push_all(&mut out, &v_check_tail());
        push_field(&mut out, &v_name_o(), &r.name, &v_name_c());
        push_field(&mut out, &v_desc_o(), &r.description, &v_desc_c());
        push_field(&mut out, &v_pattern_o(), &r.pattern, &v_pattern_c());
        push_field(&mut out, &v_repl_o(), &r.replacement, &v_repl_c());
        push_field(&mut out, &v_cat_o(), &r.category, &v_cat_c());
        push_raw(&mut out, &v_cs_o(), &bool_bytes(r.case_sensitive), &v_cs_c());
        push_field(&mut out, &v_ex_o(), &r.exclude_pattern, &v_ex_c());
        push_all(&mut out, &v_check_c());
        proof {
            assert(out@ == rule_doc(pre, rv[i as int]));
            assert(rules_doc(pre, rv, i as int) == rules_doc(
                rule_doc(pre, rv[i as int]),
                rv,
                i + 1,
            ));
        }
        i = i + 1;
    }
    proof {
        assert(rules_doc(out@, rv, rv.len() as int) == out@);
    }
    push_all(&mut out, &v_checks_c());
    push_all(&mut out, &v_qa_close());
    proof {
        assert(out@ == profile_doc(p@));
    }
    out
}


/// The outcome of reading one element's content out of a region of the
/// document: not there, malformed at a position, or found with the position
/// after its close tag.
pub enum FieldR {
    Missing,
    Bad(int),
    Got(Seq<u8>, int),
}

/// Reads the raw content of the first `open`..`close` element that begins
/// in `[lo, hi)`.
pub open spec fn raw_field_spec(
    doc: Seq<u8>,
    lo: int,
    hi: int,
    open: Seq<u8>,
    close: Seq<u8>,
) -> FieldR {
    let p = find_sub(doc, open, lo);
    if p >= hi {
        FieldR::Missing
    } else {
        let vs = p + open.len();
        let c = if vs <= doc.len() {
            find_sub(doc, close, vs)
        } else {
            doc.len() as int
        };
        if c >= hi {
            FieldR::Bad(vs)
        } else {
            FieldR::Got(doc.subrange(vs, c), c + close.len())
        }
    }
}

/// Reads the content of the first `open`..`close` element that begins in
/// `[lo, hi)` and unescapes it.
pub open spec fn field_spec(doc: Seq<u8>, lo: int, hi: int, open: Seq<u8>, close: Seq<u8>) -> FieldR {
    match raw_field_spec(doc, lo, hi, open, close) {
        FieldR::Got(v, n) => match unescape_spec(v) {
            Option::None => FieldR::Bad(n),
            Option::Some(u) => FieldR::Got(u, n),
        },
        FieldR::Missing => FieldR::Missing,
        FieldR::Bad(x) => FieldR::Bad(x),
    }
}

/// The machine-level outcome of reading one element's content.
pub enum FieldOut {
    Missing,
    Bad(usize),
    Got(Vec<u8>, usize),
}

/// Reads the raw content of the first `open`..`close` element beginning in
/// `[lo, hi)` of the document.
pub(crate) fn raw_field(doc: &Vec<u8>, lo: usize, hi: usize, open: &Vec<u8>, close: &Vec<u8>) -> (r: FieldOut)
    requires
        lo <= doc@.len(),
        hi <= doc@.len(),
        open@.len() >= 1,
        close@.len() >= 1,
    ensures
        match r {
            FieldOut::Missing => raw_field_spec(doc@, lo as int, hi as int, open@, close@)
                is Missing,
            FieldOut::Bad(x) => raw_field_spec(doc@, lo as int, hi as int, open@, close@)
                == FieldR::Bad(x as int),
            FieldOut::Got(v, n) => raw_field_spec(doc@, lo as int, hi as int, open@, close@)
                == FieldR::Got(v@, n as int),
        },
{
    let n = doc.len();
    let p = find_sub_at(doc, open, lo);
    if p >= hi {
        return FieldOut::Missing;
    }
    proof {
        lemma_find_sub(doc@, open@, lo as int);
        assert(match_at(doc@, open@, p as int));
        assert(p + open@.len() <= n);
    }
    let vs = p + open.len();
    let c = find_sub_at(doc, close, vs);
    if c >= hi {
        return FieldOut::Bad(vs);
    }
    proof {
        lemma_find_sub(doc@, close@, vs as int);
        assert(match_at(doc@, close@, c as int));
        assert(c + close@.len() <= n);
    }
    let mut v: Vec<u8> = Vec::new();
    push_range(&mut v, doc, vs, c);
    proof {
        assert(v@ =~= doc@.subrange(vs as int, c as int));
    }
    FieldOut::Got(v, c + close.len())
}

/// Reads and unescapes the content of the first `open`..`close` element
/// beginning in `[lo, hi)` of the document.
pub(crate) fn field(doc: &Vec<u8>, lo: usize, hi: usize, open: &Vec<u8>, close: &Vec<u8>) -> (r: FieldOut)
    requires
        lo <= doc@.len(),
        hi <= doc@.len(),
        open@.len() >= 1,
        close@.len() >= 1,
    ensures
        match r {
            FieldOut::Missing => field_spec(doc@, lo as int, hi as int, open@, close@) is Missing,
            FieldOut::Bad(x) => field_spec(doc@, lo as int, hi as int, open@, close@)
                == FieldR::Bad(x as int),
            FieldOut::Got(v, n) => field_spec(doc@, lo as int, hi as int, open@, close@)
                == FieldR::Got(v@, n as int),
        },
{
    match raw_field(doc, lo, hi, open, close) {
        FieldOut::Missing => FieldOut::Missing,
        FieldOut::Bad(x) => FieldOut::Bad(x),
        FieldOut::Got(v, n) => match unescape_xml(&v) {
            Option::None => FieldOut::Bad(n),
            Option::Some(u) => FieldOut::Got(u, n),
        },
    }
}

/// The outcome of reading one `check` element body.
pub enum CheckOne {
    BadC(int),
    GotC(RuleV),
}

/// The rule stored in the `check` element whose tag spans `[cpos, gt]` and
/// whose body runs to `close`: attributes `order` (default zero) and
/// `enabled` (default on), then the field elements, `case_sensitive`
/// defaulting to off and `exclude_pattern` to empty.
pub open spec fn check_of(doc: Seq<u8>, cpos: int, gt: int, close: int) -> CheckOne {
    let ord = raw_field_spec(doc, cpos, gt, s_order_attr(), s_quote());
    let ena = raw_field_spec(doc, cpos, gt, s_enabled_attr(), s_quote());
    let lo = gt + 1;
    let nm = field_spec(doc, lo, close, s_name_o(), s_name_c());
    let ds = field_spec(doc, lo, close, s_desc_o(), s_desc_c());
    let pt = field_spec(doc, lo, close, s_pattern_o(), s_pattern_c());
    let rp = field_spec(doc, lo, close, s_repl_o(), s_repl_c());
    let ct = field_spec(doc, lo, close, s_cat_o(), s_cat_c());
    let cs = field_spec(doc, lo, close, s_cs_o(), s_cs_c());
    let ex = field_spec(doc, lo, close, s_ex_o(), s_ex_c());
    if ord is Bad {
        CheckOne::BadC(ord->Bad_0)
    } else if ena is Bad {
        CheckOne::BadC(ena->Bad_0)
    } else if nm is Bad {
        CheckOne::BadC(nm->Bad_0)
    } else if ds is Bad {
        CheckOne::BadC(ds->Bad_0)
    } else if pt is Bad {
        CheckOne::BadC(pt->Bad_0)
    } else if rp is Bad {
        CheckOne::BadC(rp->Bad_0)
    } else if ct is Bad {
        CheckOne::BadC(ct->Bad_0)
    } else if cs is Bad {
        CheckOne::BadC(cs->Bad_0)
    } else if ex is Bad {
        CheckOne::BadC(ex->Bad_0)
    } else {
        CheckOne::GotC(
            RuleV {
                order: if ord is Got {
                    parse_i32_spec(ord->Got_0) as int
                } else {
                    0
                },
                enabled: if ena is Got {
                    ena->Got_0 == s_true_lit()
                } else {
                    true
                },
                name: if nm is Got {
                    nm->Got_0
                } else {
                    Seq::empty()
                },
                description: if ds is Got {
                    ds->Got_0
                } else {
                    Seq::empty()
                },
                category: if ct is Got {
                    ct->Got_0
                } else {
                    Seq::empty()
                },
                pattern: if pt is Got {
                    pt->Got_0
                } else {
                    Seq::empty()
                },
                replacement: if rp is Got {
                    rp->Got_0
                } else {
                    Seq::empty()
                },
                case_sensitive: if cs is Got {
                    cs->Got_0 == s_true_lit()
                } else {
                    false
                },
                exclude_pattern: if ex is Got {
                    ex->Got_0
                } else {
                    Seq::empty()
                },
            },
        )
    }
}

/// The outcome of reading the `check` elements.
pub enum CheckR {
    COk(Seq<RuleV>),
    CErr(int),
}

/// Reads every `check` element from position `from` on, in storage order.
pub open spec fn parse_checks(doc: Seq<u8>, from: int, acc: Seq<RuleV>) -> CheckR
    decreases doc.len() - from
        via parse_checks_dec
{
    if from < 0 || from > doc.len() {
        CheckR::COk(acc)
    } else {
        let cpos = find_sub(doc, s_check_find(), from);
        if cpos >= doc.len() {
            CheckR::COk(acc)
        } else {
            let gt = find_sub(doc, s_gt(), cpos);
            if gt >= doc.len() {
                CheckR::CErr(cpos)
            } else {
                let close = find_sub(doc, s_check_c(), gt);
                if close >= doc.len() {
                    CheckR::CErr(gt)
                } else {
                    match check_of(doc, cpos, gt, close) {
                        CheckOne::BadC(x) => CheckR::CErr(x),
                        CheckOne::GotC(r) => parse_checks(
                            doc,
                            if close + 8 <= doc.len() {
                                close + 8
                            } else {
                                doc.len() as int
                            },
                            acc.push(r),
                        ),
                    }
                }
            }
        }
    }
}

#[via_fn]
proof fn parse_checks_dec(doc: Seq<u8>, from: int, acc: Seq<RuleV>) {
    if 0 <= from && from <= doc.len() {
        lemma_find_sub(doc, s_check_find(), from);
        let cpos = find_sub(doc, s_check_find(), from);
        if cpos < doc.len() {
            lemma_find_sub(doc, s_gt(), cpos);
            let gt = find_sub(doc, s_gt(), cpos);
            if gt < doc.len() {
                lemma_find_sub(doc, s_check_c(), gt);
            }
        }
    }
}

/// The outcome of reading a profile document.
pub enum ProfR {
    POk(ProfileV),
    PErr(int),
}

/// How a stored profile reads back: the metadata fields out of the region
/// before `</metadata>`, each defaulting when absent, then every `check`
/// element, the rules re-sorted ascending by `order` with ties kept in
/// storage order.
pub open spec fn parse_profile_spec(doc: Seq<u8>) -> ProfR {
    let hi = find_sub(doc, s_meta_close(), 0);
    let meta_absent = hi >= doc.len();
    let nm = if meta_absent {
        FieldR::Missing
    } else {
        field_spec(doc, 0, hi, s_name_o(), s_name_c())
    };
    let ds = if meta_absent {
        FieldR::Missing
    } else {
        field_spec(doc, 0, hi, s_desc_o(), s_desc_c())
    };
    let lg = if meta_absent {
        FieldR::Missing
    } else {
        field_spec(doc, 0, hi, s_lang_o(), s_lang_c())
    };
    let cr = if meta_absent {
        FieldR::Missing
    } else {
        raw_field_spec(doc, 0, hi, s_created_o(), s_created_c())
    };
    let md = if meta_absent {
        FieldR::Missing
    } else {
        raw_field_spec(doc, 0, hi, s_modified_o(), s_modified_c())
    };
    if nm is Bad {
        ProfR::PErr(nm->Bad_0)
    } else if ds is Bad {
        ProfR::PErr(ds->Bad_0)
    } else if lg is Bad {
        ProfR::PErr(lg->Bad_0)
    } else if cr is Bad {
        ProfR::PErr(cr->Bad_0)
    } else if md is Bad {
        ProfR::PErr(md->Bad_0)
    } else {
        let start = if meta_absent {
            0int
        } else {
            hi
        };
        match parse_checks(doc, start, Seq::empty()) {
            CheckR::CErr(x) => ProfR::PErr(x),
            CheckR::COk(rs) => ProfR::POk(
                ProfileV {
                    name: if nm is Got {
                        nm->Got_0
                    } else {
                        Seq::empty()
                    },
                    description: if ds is Got {
                        ds->Got_0
                    } else {
                        Seq::empty()
                    },
                    language: if lg is Got {
                        lg->Got_0
                    } else {
                        Seq::empty()
                    },
                    created: if cr is Got {
                        parse_u64_spec(cr->Got_0) as int
                    } else {
                        0
                    },
                    modified: if md is Got {
                        parse_u64_spec(md->Got_0) as int
                    } else {
                        0
                    },
                    rules: sort_rules_spec(rs),
                },
            ),
        }
    }
}

/// Reads one `check` element whose tag spans `[cpos, gt]` and whose body
/// runs to `close`.
#[verifier::rlimit(100)]
fn parse_one_check(doc: &Vec<u8>, cpos: usize, gt: usize, close: usize) -> (r: Result<
    PatternRule,
    ParseError,
>)
    requires
        cpos <= gt < doc@.len(),
        gt + 1 <= close <= doc@.len(),
    ensures
        match r {
            Ok(rule) => check_of(doc@, cpos as int, gt as int, close as int) == CheckOne::GotC(
                rule@,
            ),
            Err(e) => check_of(doc@, cpos as int, gt as int, close as int) == CheckOne::BadC(
                e.pos as int,
            ),
        },
{
    let t_true = v_true_lit();
    let mut order: i32 = 0;
    let mut enabled = true;
    match raw_field(doc, cpos, gt, &v_order_attr(), &v_quote()) {
        FieldOut::Bad(x) => {
            return Err(ParseError { pos: x });
        },
        FieldOut::Got(v, _) => {
            order = parse_i32(&v);
        },
        FieldOut::Missing => {},
    }
    match raw_field(doc, cpos, gt, &v_enabled_attr(), &v_quote()) {
        FieldOut::Bad(x) => {
            return Err(ParseError { pos: x });
        },
        FieldOut::Got(v, _) => {
            enabled = bytes_eq(&v, &t_true);
        },
        FieldOut::Missing => {},
    }
    let lo = gt + 1;
    let mut rname: Vec<u8> = Vec::new();
    let mut rdesc: Vec<u8> = Vec::new();
    let mut rpattern: Vec<u8> = Vec::new();
    let mut rrepl: Vec<u8> = Vec::new();
    let mut rcat: Vec<u8> = Vec::new();
    let mut rcase = false;
    let mut rex: Vec<u8> = Vec::new();
    match field(doc, lo, close, &v_name_o(), &v_name_c()) {
        FieldOut::Bad(x) => {
            return Err(ParseError { pos: x });
        },
        FieldOut::Got(v, _) => {
            rname = v;
        },
        FieldOut::Missing => {},
    }
    match field(doc, lo, close, &v_desc_o(), &v_desc_c()) {
        FieldOut::Bad(x) => {
            return Err(ParseError { pos: x });
        },
        FieldOut::Got(v, _) => {
            rdesc = v;
        },
        FieldOut::Missing => {},
    }
    match field(doc, lo, close, &v_pattern_o(), &v_pattern_c()) {
        FieldOut::Bad(x) => {
            return Err(ParseError { pos: x });
        },
        FieldOut::Got(v, _) => {
            rpattern = v;
        },
        FieldOut::Missing => {},
    }
    match field(doc, lo, close, &v_repl_o(), &v_repl_c()) {
        FieldOut::Bad(x) => {
            return Err(ParseError { pos: x });
        },
        FieldOut::Got(v, _) => {
            rrepl = v;
        },
        FieldOut::Missing => {},
    }
    match field(doc, lo, close, &v_cat_o(), &v_cat_c()) {
        FieldOut::Bad(x) => {
            return Err(ParseError { pos: x });
        },
        FieldOut::Got(v, _) => {
            rcat = v;
        },
        FieldOut::Missing => {},
    }
    match field(doc, lo, close, &v_cs_o(), &v_cs_c()) {
        FieldOut::Bad(x) => {
            return Err(ParseError { pos: x });
        },
        FieldOut::Got(v, _) => {
            rcase = bytes_eq(&v, &t_true);
        },
        FieldOut::Missing => {},
    }
    match field(doc, lo, close, &v_ex_o(), &v_ex_c()) {
        FieldOut::Bad(x) => {
            return Err(ParseError { pos: x });
        },
        FieldOut::Got(v, _) => {
            rex = v;
        },
        FieldOut::Missing => {},
    }
    let rule = PatternRule {
        order,
        enabled,
        name: rname,
        description: rdesc,
        category: rcat,
        pattern: rpattern,
        replacement: rrepl,
        case_sensitive: rcase,
        exclude_pattern: rex,
    };
    proof {
        let co = check_of(doc@, cpos as int, gt as int, close as int);
        assert(co is GotC);
        assert(rule@ =~= co->GotC_0);
    }
    Ok(rule)
}

/// Reads a profile document back: metadata fields default when absent, a
/// malformed element is an error with its byte position, and the rules come
/// out re-sorted ascending by `order` before use.
#[verifier::rlimit(100)]
pub fn load_qa_profile(doc: &Vec<u8>) -> (r: Result<Profile, ParseError>)
    ensures
        match r {
            Ok(p) => parse_profile_spec(doc@) == ProfR::POk(p@),
            Err(e) => parse_profile_spec(doc@) == ProfR::PErr(e.pos as int),
        },
{
    let n = doc.len();
    let hi_raw = find_sub_at(doc, &v_meta_close(), 0);
    let meta_absent = hi_raw >= n;
    let hi = if meta_absent {
        0
    } else {
        hi_raw
    };
    proof {
        lemma_find_sub(doc@, s_meta_close(), 0);
    }
    let mut name: Vec<u8> = Vec::new();
    let mut description: Vec<u8> = Vec::new();
    let mut language: Vec<u8> = Vec::new();
    let mut created: u64 = 0;
    let mut modified: u64 = 0;
    if !meta_absent {
        match field(doc, 0, hi, &v_name_o(), &v_name_c()) {
            FieldOut::Bad(x) => {
                return Err(ParseError { pos: x });
            },
            FieldOut::Got(v, _) => {
                name = v;
            },
            FieldOut::Missing => {},
        }
        match field(doc, 0, hi, &v_desc_o(), &v_desc_c()) {
            FieldOut::Bad(x) => {
                return Err(ParseError { pos: x });
            },
            FieldOut::Got(v, _) => {
                description = v;
            },
            FieldOut::Missing => {},
        }
        match field(doc, 0, hi, &v_lang_o(), &v_lang_c()) {
            FieldOut::Bad(x) => {
                return Err(ParseError { pos: x });
            },
            FieldOut::Got(v, _) => {
                language = v;
            },
            FieldOut::Missing => {},
        }
        match raw_field(doc, 0, hi, &v_created_o(), &v_created_c()) {
            FieldOut::Bad(x) => {
                return Err(ParseError { pos: x });
            },
            FieldOut::Got(v, _) => {
                created = parse_u64(&v);
            },
            FieldOut::Missing => {},
        }
        match raw_field(doc, 0, hi, &v_modified_o(), &v_modified_c()) {
            FieldOut::Bad(x) => {
                return Err(ParseError { pos: x });
            },
            FieldOut::Got(v, _) => {
                modified = parse_u64(&v);
            },
            FieldOut::Missing => {},
        }
    }
    let t_check_find = v_check_find();
    let t_gt = v_gt();
    let t_check_c = v_check_c();
    let mut rules: Vec<PatternRule> = Vec::new();
    let mut pos: usize = if meta_absent {
        0
    } else {
        hi
    };
    proof {
        assert(rules_vw(rules@) =~= Seq::<RuleV>::empty());
    }
    let ghost start = pos as int;
    while pos <= n
        invariant
            pos <= n,
            n == doc@.len(),
            t_check_find@ == s_check_find(),
            t_gt@ == s_gt(),
            t_check_c@ == s_check_c(),
            parse_checks(doc@, start, Seq::empty()) == parse_checks(
                doc@,
                pos as int,
                rules_vw(rules@),
            ),
            match parse_checks(doc@, start, Seq::empty()) {
                CheckR::CErr(x) => parse_profile_spec(doc@) == ProfR::PErr(x),
                CheckR::COk(rs) => parse_profile_spec(doc@) == ProfR::POk(
                    ProfileV {
                        name: name@,
                        description: description@,
                        language: language@,
                        created: created as int,
                        modified: modified as int,
                        rules: sort_rules_spec(rs),
                    },
                ),
            },
        ensures
            parse_checks(doc@, start, Seq::empty()) == CheckR::COk(rules_vw(rules@)),
        decreases n - pos + 1,
    {
        let cpos = find_sub_at(doc, &t_check_find, pos);
        if cpos >= n {
            proof {
                assert(parse_checks(doc@, pos as int, rules_vw(rules@)) == CheckR::COk(
                    rules_vw(rules@),
                ));
            }
            break ;
        }
        proof {
            lemma_find_sub(doc@, t_check_find@, pos as int);
        }
        let gt = find_sub_at(doc, &t_gt, cpos);
        if gt >= n {
            proof {
                assert(parse_checks(doc@, pos as int, rules_vw(rules@)) == CheckR::CErr(
                    cpos as int,
                ));
            }
            return Err(ParseError { pos: cpos });
        }
        proof {
            lemma_find_sub(doc@, t_gt@, cpos as int);
        }
        let close = find_sub_at(doc, &t_check_c, gt);
        if close >= n {
            proof {
                assert(parse_checks(doc@, pos as int, rules_vw(rules@)) == CheckR::CErr(
                    gt as int,
                ));
            }
            return Err(ParseError { pos: gt });
        }
        proof {
            lemma_find_sub(doc@, t_check_c@, gt as int);
            assert(match_at(doc@, t_check_c@, close as int));
        }
        let rule = match parse_one_check(doc, cpos, gt, close) {
            Ok(rule) => rule,
            Err(e) => {
                proof {
                    assert(parse_checks(doc@, pos as int, rules_vw(rules@)) == CheckR::CErr(
                        e.pos as int,
                    ));
                }
                return Err(e);
            },
        };
        let ghost rules_old = rules_vw(rules@);
        rules.push(rule);
        proof {
            assert(rules_vw(rules@) =~= rules_old.push(rule@));
        }
        let next = if close <= n - 8 {
            close + 8
        } else {
            n
        };
        proof {
            assert(parse_checks(doc@, pos as int, rules_old) == parse_checks(
                doc@,
                next as int,
                rules_old.push(rule@),
            ));
        }
        pos = next;
    }
    let sorted = sort_rules(&rules);
    let p = Profile { name, description, language, created, modified, rules: sorted };
    proof {
        let spec_r = parse_profile_spec(doc@);
        assert(spec_r is POk);
        assert(p@ =~= spec_r->POk_0);
    }
    Ok(p)
}


/// How one byte of a profile name appears in its file name: spaces become
/// underscores and ASCII capitals fold to lower case.
pub open spec fn file_name_byte(b: u8) -> u8 {
    if b == 32 {
        95
    } else if 65 <= b && b <= 90 {
        (b + 32) as u8
    } else {
        b
    }
}

/// The file name a profile is stored under: its name lower-cased with
/// spaces as underscores, then the fixed suffix.
pub open spec fn profile_file_name_spec(name: Seq<u8>) -> Seq<u8> {
    name.map_values(|b: u8| file_name_byte(b)) + s_qa_suffix()
}

/// Derives the file name an imported profile is stored under from its
/// metadata name.
pub fn profile_file_name(name: &Vec<u8>) -> (r: Vec<u8>)
    ensures
        r@ == profile_file_name_spec(name@),
{
    let ghost mapped = name@.map_values(|b: u8| file_name_byte(b));
    let mut out: Vec<u8> = Vec::new();
    let mut i: usize = 0;
    while i < name.len()
        invariant
            i <= name@.len(),
            mapped == name@.map_values(|b: u8| file_name_byte(b)),
            out@ == mapped.take(i as int),
        decreases name@.len() - i,
    {
        let b = name[i];
        if b == 32 {
            out.push(95);
        } else if 65 <= b && b <= 90 {
            out.push(b + 32);
        } else {
            out.push(b);
        }
        proof {
            assert(mapped[i as int] == file_name_byte(name@[i as int]));
            assert(out@ =~= mapped.take(i as int).push(mapped[i as int]));
            assert(mapped.take(i as int).push(mapped[i as int]) =~= mapped.take(i + 1));
        }
        i = i + 1;
    }
    proof {
        assert(mapped.take(mapped.len() as int) =~= mapped);
    }
    push_all(&mut out, &v_qa_suffix());
    out
}


} // verus!
