//! The snippet library document: category elements carrying a `name`
//! attribute, each holding entry elements with `name`, `description`,
//! `pattern` and `replace` child elements. Duplicate category names are
//! kept as they stand, never merged.
use vstd::prelude::*;
use crate::model::{RegexLibrary, LibraryV, RegexCategory, CategoryV, RegexEntry, EntryV, ParseError, clone_bytes};
use crate::text::{escape_spec, find_sub, lemma_find_sub, match_at, find_sub_at};
use crate::tags::{s_lib_open, s_lib_close, s_lcat_o, s_lcat_mid, s_lcat_c, s_lcat_find, s_entry_o, s_entry_c, s_name_o, s_name_c, s_desc_o, s_desc_c, s_pattern_o, s_pattern_c, s_replace_o, s_replace_c, s_gt, s_quote, s_name_attr, s_uncat, s_cat1, s_cat2, s_cat3, s_cat4, v_lib_open, v_lib_close, v_lcat_o, v_lcat_mid, v_lcat_c, v_lcat_find, v_entry_o, v_entry_c, v_name_o, v_name_c, v_desc_o, v_desc_c, v_pattern_o, v_pattern_c, v_replace_o, v_replace_c, v_gt, v_quote, v_name_attr, v_uncat, v_cat1, v_cat2, v_cat3, v_cat4};
use crate::profile_doc::{fielded, field_spec, FieldOut, field, push_field, push_all};
use crate::rex::fresh_entry_id;

verus! {

/// One `entry` element appended to `pre`: the four persisted fields, each
/// escaped; an entry's id and category live in memory only.
pub open spec fn entry_doc(pre: Seq<u8>, e: EntryV) -> Seq<u8> {
    let a = pre + s_entry_o();
    let b = fielded(a, s_name_o(), e.name, s_name_c());
    let c = fielded(b, s_desc_o(), e.description, s_desc_c());
    let d = fielded(c, s_pattern_o(), e.pattern, s_pattern_c());
    let f = fielded(d, s_replace_o(), e.replace, s_replace_c());
    f + s_entry_c()
}

/// The `entry` elements of the entries from position `i` on.
pub open spec fn entries_doc(pre: Seq<u8>, es: Seq<EntryV>, i: int) -> Seq<u8>
    decreases es.len() - i,
{
    if i < 0 || i >= es.len() {
        pre
    } else {
        entries_doc(entry_doc(pre, es[i]), es, i + 1)
    }
}

/// One `category` element appended to `pre`: its name as an escaped
/// attribute, then its entries.
pub open spec fn category_doc(pre: Seq<u8>, c: CategoryV) -> Seq<u8> {
    let a = pre + s_lcat_o() + escape_spec(c.name) + s_lcat_mid();
    let b = entries_doc(a, c.entries, 0);
    b + s_lcat_c()
}

/// The `category` elements of the categories from position `i` on.
pub open spec fn categories_doc(pre: Seq<u8>, cs: Seq<CategoryV>, i: int) -> Seq<u8>
    decreases cs.len() - i,
{
    if i < 0 || i >= cs.len() {
        pre
    } else {
        categories_doc(category_doc(pre, cs[i]), cs, i + 1)
    }
}

/// The stored form of a snippet library.
pub open spec fn library_doc(l: LibraryV) -> Seq<u8> {
    let a = Seq::<u8>::empty() + s_lib_open();
    let b = categories_doc(a, l.categories, 0);
    b + s_lib_close()
}

/// Writes the library out verbatim, in storage order, each text escaped.
pub fn save_regex_library(l: &RegexLibrary) -> (r: Vec<u8>)
    ensures
        r@ == library_doc(l@),
{
    let ghost lv = l@;
    let mut out: Vec<u8> = Vec::new();
    push_all(&mut out, &v_lib_open());
    let ghost g = out@;
    let mut i: usize = 0;
    while i < l.categories.len()
        invariant
            i <= l.categories@.len(),
            lv == l@,
            categories_doc(g, lv.categories, 0) == categories_doc(out@, lv.categories, i as int),
        decreases l.categories@.len() - i,
    {
        let c = &l.categories[i];
        let ghost pre = out@;
        proof {
            assert(lv.categories[i as int] == c@);
        }
        push_all(&mut out, &v_lcat_o());
        let esc = crate::text::escape_xml(&c.name);
        push_all(&mut out, &esc);
        push_all(&mut out, &v_lcat_mid());
        let ghost a = out@;
        let mut j: usize = 0;
        while j < c.entries.len()
            invariant
                j <= c.entries@.len(),
                c == &l.categories@[i as int],
                lv == l@,
                i < l.categories@.len(),
                entries_doc(a, c@.entries, 0) == entries_doc(out@, c@.entries, j as int),
            decreases c.entries@.len() - j,
        {
            let e = &c.entries[j];
            let ghost epre = out@;
            proof {
                assert(c@.entries[j as int] == e@);
            }
            push_all(&mut out, &v_entry_o());
            push_field(&mut out, &v_name_o(), &e.name, &v_name_c());
            push_field(&mut out, &v_desc_o(), &e.description, &v_desc_c());
            push_field(&mut out, &v_pattern_o(), &e.pattern, &v_pattern_c());
            push_field(&mut out, &v_replace_o(), &e.replace, &v_replace_c());
            push_all(&mut out, &v_entry_c());
            proof {
                assert(out@ == entry_doc(epre, c@.entries[j as int]));
                assert(entries_doc(epre, c@.entries, j as int) == entries_doc(
                    entry_doc(epre, c@.entries[j as int]),
                    c@.entries,
                    j + 1,
                ));
            }
            j = j + 1;
        }
        proof {
            assert(entries_doc(out@, c@.entries, c@.entries.len() as int) == out@);
        }
        push_all(&mut out, &v_lcat_c());
        proof {
            assert(out@ == category_doc(pre, lv.categories[i as int]));
            assert(categories_doc(pre, lv.categories, i as int) == categories_doc(
                category_doc(pre, lv.categories[i as int]),
                lv.categories,
                i + 1,
            ));
        }
        i = i + 1;
    }
    proof {
        assert(categories_doc(out@, lv.categories, lv.categories.len() as int) == out@);
    }
    push_all(&mut out, &v_lib_close());
    proof {
        assert(out@ == library_doc(lv));
    }
    out
}

/// The outcome of reading the entries of one category.
pub enum EntR {
    EOk(Seq<EntryV>),
    EErr(int),
}

/// Reads every `entry` element that begins in `[from, hi)`, in storage
/// order; a parsed entry carries its enclosing category's name and an empty
/// id, to be assigned at import.
pub open spec fn parse_entries(
    doc: Seq<u8>,
    from: int,
    hi: int,
    cat: Seq<u8>,
    acc: Seq<EntryV>,
) -> EntR
    decreases doc.len() - from
        via parse_entries_dec
{
    if from < 0 || from > doc.len() || hi > doc.len() {
        EntR::EOk(acc)
    } else {
        let p = find_sub(doc, s_entry_o(), from);
        if p >= hi {
            EntR::EOk(acc)
        } else {
            let close = find_sub(doc, s_entry_c(), p);
            if close >= hi {
                EntR::EErr(p)
            } else {
                let nm = field_spec(doc, p, close, s_name_o(), s_name_c());
                let ds = field_spec(doc, p, close, s_desc_o(), s_desc_c());
                let pt = field_spec(doc, p, close, s_pattern_o(), s_pattern_c());
                let rp = field_spec(doc, p, close, s_replace_o(), s_replace_c());
                if nm is Bad {
                    EntR::EErr(nm->Bad_0)
                } else if ds is Bad {
                    EntR::EErr(ds->Bad_0)
                } else if pt is Bad {
                    EntR::EErr(pt->Bad_0)
                } else if rp is Bad {
                    EntR::EErr(rp->Bad_0)
                } else {
                    let e = EntryV {
                        id: Seq::empty(),
                        name: if nm is Got {
                            nm->Got_0
                        } else {
                            Seq::empty()
                        },
                        description: if ds is Got {
                            ds->Got_0
                        } else {
                            Seq::empty()
                        },
                        pattern: if pt is Got {
                            pt->Got_0
                        } else {
                            Seq::empty()
                        },
                        replace: if rp is Got {
                            rp->Got_0
                        } else {
                            Seq::empty()
                        },
                        category: cat,
                    };
                    parse_entries(
                        doc,
                        if close + 8 <= doc.len() {
                            close + 8
                        } else {
                            doc.len() as int
                        },
                        hi,
                        cat,
                        acc.push(e),
                    )
                }
            }
        }
    }
}

#[via_fn]
proof fn parse_entries_dec(doc: Seq<u8>, from: int, hi: int, cat: Seq<u8>, acc: Seq<EntryV>) {
    if 0 <= from && from <= doc.len() && hi <= doc.len() {
        lemma_find_sub(doc, s_entry_o(), from);
        let p = find_sub(doc, s_entry_o(), from);
        if p < hi {
            lemma_find_sub(doc, s_entry_c(), p);
        }
    }
}

/// The outcome of reading a library document.
pub enum LibR {
    LOk(LibraryV),
    LErr(int),
}

/// Reads every `category` element from position `from` on, in storage
/// order, keeping duplicate names.
pub open spec fn parse_categories(doc: Seq<u8>, from: int, acc: Seq<CategoryV>) -> LibR
    decreases doc.len() - from
        via parse_categories_dec
{
    if from < 0 || from > doc.len() {
        LibR::LOk(LibraryV { categories: acc })
    } else {
        let cpos = find_sub(doc, s_lcat_find(), from);
        if cpos >= doc.len() {
            LibR::LOk(LibraryV { categories: acc })
        } else {
            let gt = find_sub(doc, s_gt(), cpos);
            if gt >= doc.len() {
                LibR::LErr(cpos)
            } else {
                let close = find_sub(doc, s_lcat_c(), gt);
                if close >= doc.len() {
                    LibR::LErr(gt)
                } else {
                    let nm = field_spec(doc, cpos, gt, s_name_attr(), s_quote());
                    if nm is Bad {
                        LibR::LErr(nm->Bad_0)
                    } else {
                        let cname = if nm is Got {
                            nm->Got_0
                        } else {
                            s_uncat()
                        };
                        match parse_entries(doc, gt + 1, close, cname, Seq::empty()) {
                            EntR::EErr(x) => LibR::LErr(x),
                            EntR::EOk(es) => parse_categories(
                                doc,
                                if close + 11 <= doc.len() {
                                    close + 11
                                } else {
                                    doc.len() as int
                                },
                                acc.push(CategoryV { name: cname, entries: es }),
                            ),
                        }
                    }
                }
            }
        }
    }
}

#[via_fn]
proof fn parse_categories_dec(doc: Seq<u8>, from: int, acc: Seq<CategoryV>) {
    if 0 <= from && from <= doc.len() {
        lemma_find_sub(doc, s_lcat_find(), from);
        let cpos = find_sub(doc, s_lcat_find(), from);
        if cpos < doc.len() {
            lemma_find_sub(doc, s_gt(), cpos);
            let gt = find_sub(doc, s_gt(), cpos);
            if gt < doc.len() {
                lemma_find_sub(doc, s_lcat_c(), gt);
            }
        }
    }
}

/// How a stored library reads back: its categories in storage order, each
/// entry carrying its enclosing category's name (an `Uncategorized` label
/// when the attribute is absent) and an id still to be assigned.
pub open spec fn parse_library_spec(doc: Seq<u8>) -> LibR {
    parse_categories(doc, 0, Seq::empty())
}

/// The views of an entry list.
pub open spec fn entries_vw(s: Seq<RegexEntry>) -> Seq<EntryV> {
    s.map_values(|e: RegexEntry| e@)
}

/// The views of a category list.
pub open spec fn cats_vw(s: Seq<RegexCategory>) -> Seq<CategoryV> {
    s.map_values(|c: RegexCategory| c@)
}

/// Reads the entries of one category region.
#[verifier::rlimit(100)]
fn parse_entries_exec(doc: &Vec<u8>, from: usize, hi: usize, cat: &Vec<u8>) -> (r: Result<
    Vec<RegexEntry>,
    ParseError,
>)
    requires
        from <= doc@.len(),
        hi <= doc@.len(),
    ensures
        match r {
            Ok(es) => parse_entries(doc@, from as int, hi as int, cat@, Seq::empty())
                == EntR::EOk(entries_vw(es@)),
            Err(e) => parse_entries(doc@, from as int, hi as int, cat@, Seq::empty())
                == EntR::EErr(e.pos as int),
        },
{
    let n = doc.len();
    let t_entry_o = v_entry_o();
    let t_entry_c = v_entry_c();
    let t_name_o = v_name_o();
    let t_name_c = v_name_c();
    let t_desc_o = v_desc_o();
    let t_desc_c = v_desc_c();
    let t_pattern_o = v_pattern_o();
    let t_pattern_c = v_pattern_c();
    let t_replace_o = v_replace_o();
    let t_replace_c = v_replace_c();
    let mut out: Vec<RegexEntry> = Vec::new();
    let mut pos: usize = from;
    let ghost start = from as int;
    proof {
        assert(entries_vw(out@) =~= Seq::<EntryV>::empty());
    }
    while pos <= n
        invariant
            pos <= n,
            n == doc@.len(),
            hi <= n,
            start == from as int,
            t_entry_o@ == s_entry_o(),
            t_entry_c@ == s_entry_c(),
            t_name_o@ == s_name_o(),
            t_name_c@ == s_name_c(),
            t_desc_o@ == s_desc_o(),
            t_desc_c@ == s_desc_c(),
            t_pattern_o@ == s_pattern_o(),
            t_pattern_c@ == s_pattern_c(),
            t_replace_o@ == s_replace_o(),
            t_replace_c@ == s_replace_c(),
            parse_entries(doc@, start, hi as int, cat@, Seq::empty()) == parse_entries(
                doc@,
                pos as int,
                hi as int,
                cat@,
                entries_vw(out@),
            ),
        ensures
            parse_entries(doc@, start, hi as int, cat@, Seq::empty()) == EntR::EOk(
                entries_vw(out@),
            ),
        decreases n - pos + 1,
    {
        let p = find_sub_at(doc, &t_entry_o, pos);
        if p >= hi {
            break ;
        }
        proof {
            lemma_find_sub(doc@, t_entry_o@, pos as int);
        }
        let close = find_sub_at(doc, &t_entry_c, p);
        if close >= hi {
            proof {
                assert(parse_entries(doc@, pos as int, hi as int, cat@, entries_vw(out@))
                    == EntR::EErr(p as int));
            }
            return Err(ParseError { pos: p });
        }
        proof {
            lemma_find_sub(doc@, t_entry_c@, p as int);
            assert(match_at(doc@, t_entry_c@, close as int));
        }
        let mut ename: Vec<u8> = Vec::new();
        let mut edesc: Vec<u8> = Vec::new();
        let mut epattern: Vec<u8> = Vec::new();
        let mut ereplace: Vec<u8> = Vec::new();
        match field(doc, p, close, &t_name_o, &t_name_c) {
            FieldOut::Bad(x) => {
                proof {
                    assert(parse_entries(doc@, pos as int, hi as int, cat@, entries_vw(out@))
                        == EntR::EErr(x as int));
                }
                return Err(ParseError { pos: x });
            },
            FieldOut::Got(v, _) => {
                ename = v;
            },
            FieldOut::Missing => {},
        }
        match field(doc, p, close, &t_desc_o, &t_desc_c) {
            FieldOut::Bad(x) => {
                proof {
                    assert(parse_entries(doc@, pos as int, hi as int, cat@, entries_vw(out@))
                        == EntR::EErr(x as int));
                }
                return Err(ParseError { pos: x });
            },
            FieldOut::Got(v, _) => {
                edesc = v;
            },
            FieldOut::Missing => {},
        }
        match field(doc, p, close, &t_pattern_o, &t_pattern_c) {
            FieldOut::Bad(x) => {
                proof {
                    assert(parse_entries(doc@, pos as int, hi as int, cat@, entries_vw(out@))
                        == EntR::EErr(x as int));
                }
                return Err(ParseError { pos: x });
            },
            FieldOut::Got(v, _) => {
                epattern = v;
            },
            FieldOut::Missing => {},
        }
        match field(doc, p, close, &t_replace_o, &t_replace_c) {
            FieldOut::Bad(x) => {
                proof {
                    assert(parse_entries(doc@, pos as int, hi as int, cat@, entries_vw(out@))
                        == EntR::EErr(x as int));
                }
                return Err(ParseError { pos: x });
            },
            FieldOut::Got(v, _) => {
                ereplace = v;
            },
            FieldOut::Missing => {},
        }
        let entry = RegexEntry {
            id: Vec::new(),
            name: ename,
            description: edesc,
            pattern: epattern,
            replace: ereplace,
            category: clone_bytes(cat),
        };
        let ghost out_old = entries_vw(out@);
        proof {
            assert(entry@.id =~= Seq::<u8>::empty());
        }
        out.push(entry);
        let next = if close <= n - 8 {
            close + 8
        } else {
            n
        };
        proof {
            assert(entries_vw(out@) =~= out_old.push(out@[out@.len() - 1]@));
            assert(parse_entries(doc@, pos as int, hi as int, cat@, out_old) == parse_entries(
                doc@,
                next as int,
                hi as int,
                cat@,
                entries_vw(out@),
            ));
        }
        pos = next;
    }
    Ok(out)
}

/// Reads a library document back: categories in storage order, duplicates
/// kept; a category without a `name` attribute is labelled `Uncategorized`;
/// parsed entries carry empty ids until an import assigns them.
#[verifier::rlimit(100)]
pub fn parse_regex_library(doc: &Vec<u8>) -> (r: Result<RegexLibrary, ParseError>)
    ensures
        match r {
            Ok(l) => parse_library_spec(doc@) == LibR::LOk(l@),
            Err(e) => parse_library_spec(doc@) == LibR::LErr(e.pos as int),
        },
{
    let n = doc.len();
    let t_lcat_find = v_lcat_find();
    let t_gt = v_gt();
    let t_lcat_c = v_lcat_c();
    let t_name_attr = v_name_attr();
    let t_quote = v_quote();
    let mut cats: Vec<RegexCategory> = Vec::new();
    let mut pos: usize = 0;
    proof {
        assert(cats_vw(cats@) =~= Seq::<CategoryV>::empty());
    }
    while pos <= n
        invariant
            pos <= n,
            n == doc@.len(),
            t_lcat_find@ == s_lcat_find(),
            t_gt@ == s_gt(),
            t_lcat_c@ == s_lcat_c(),
            t_name_attr@ == s_name_attr(),
            t_quote@ == s_quote(),
            parse_categories(doc@, 0, Seq::empty()) == parse_categories(
                doc@,
                pos as int,
                cats_vw(cats@),
            ),
        ensures
            parse_categories(doc@, 0, Seq::empty()) == LibR::LOk(
                LibraryV { categories: cats_vw(cats@) },
            ),
        decreases n - pos + 1,
    {
        let cpos = find_sub_at(doc, &t_lcat_find, pos);
        if cpos >= n {
            break ;
        }
        proof {
            lemma_find_sub(doc@, t_lcat_find@, pos as int);
        }
        let gt = find_sub_at(doc, &t_gt, cpos);
        if gt >= n {
            proof {
                assert(parse_categories(doc@, pos as int, cats_vw(cats@)) == LibR::LErr(
                    cpos as int,
                ));
            }
            return Err(ParseError { pos: cpos });
        }
        proof {
            lemma_find_sub(doc@, t_gt@, cpos as int);
        }
        let close = find_sub_at(doc, &t_lcat_c, gt);
        if close >= n {
            proof {
                assert(parse_categories(doc@, pos as int, cats_vw(cats@)) == LibR::LErr(
                    gt as int,
                ));
            }
            return Err(ParseError { pos: gt });
        }
        proof {
            lemma_find_sub(doc@, t_lcat_c@, gt as int);
            assert(match_at(doc@, t_lcat_c@, close as int));
        }
        let cname: Vec<u8>;
        match field(doc, cpos, gt, &t_name_attr, &t_quote) {
            FieldOut::Bad(x) => {
                proof {
                    assert(parse_categories(doc@, pos as int, cats_vw(cats@)) == LibR::LErr(
                        x as int,
                    ));
                }
                return Err(ParseError { pos: x });
            },
            FieldOut::Got(v, _) => {
                cname = v;
            },
            FieldOut::Missing => {
                cname = v_uncat();
            },
        }
        let es = match parse_entries_exec(doc, gt + 1, close, &cname) {
            Ok(es) => es,
            Err(e) => {
                proof {
                    assert(parse_categories(doc@, pos as int, cats_vw(cats@)) == LibR::LErr(
                        e.pos as int,
                    ));
                }
                return Err(e);
            },
        };
        let cat = RegexCategory { name: cname, entries: es };
        let ghost cats_old = cats_vw(cats@);
        cats.push(cat);
        let next = if close <= n - 11 {
            close + 11
        } else {
            n
        };
        proof {
            assert(cats_vw(cats@) =~= cats_old.push(cats@[cats@.len() - 1]@));
            assert(parse_categories(doc@, pos as int, cats_old) == parse_categories(
                doc@,
                next as int,
                cats_vw(cats@),
            ));
        }
        pos = next;
    }
    Ok(RegexLibrary { categories: cats })
}

/// The library seeded when none is stored yet: a fixed set of empty, named
/// starter categories.
pub open spec fn default_library_spec() -> LibraryV {
    LibraryV {
        categories: seq![
            CategoryV { name: s_cat1(), entries: Seq::empty() },
            CategoryV { name: s_cat2(), entries: Seq::empty() },
            CategoryV { name: s_cat3(), entries: Seq::empty() },
            CategoryV { name: s_cat4(), entries: Seq::empty() },
        ],
    }
}

/// Builds the starter library returned when no stored library exists: four
/// named, empty categories. A pure factory; nothing global.
pub fn default_library() -> (r: RegexLibrary)
    ensures
        r@ == default_library_spec(),
{
    let mut cats: Vec<RegexCategory> = Vec::new();
    cats.push(RegexCategory { name: v_cat1(), entries: Vec::new() });
    cats.push(RegexCategory { name: v_cat2(), entries: Vec::new() });
    cats.push(RegexCategory { name: v_cat3(), entries: Vec::new() });
    cats.push(RegexCategory { name: v_cat4(), entries: Vec::new() });
    let r = RegexLibrary { categories: cats };
    proof {
        assert(r@ =~~= default_library_spec());
    }
    r
}

/// Whether two libraries agree on everything but entry ids.
pub open spec fn same_but_ids(a: LibraryV, b: LibraryV) -> bool {
    a.categories.len() == b.categories.len() && forall|i: int|
        0 <= i < a.categories.len() ==> {
            &&& (#[trigger] a.categories[i]).name == b.categories[i].name
            &&& a.categories[i].entries.len() == b.categories[i].entries.len()
            &&& forall|j: int|
                0 <= j < a.categories[i].entries.len() ==> {
                    let x = #[trigger] a.categories[i].entries[j];
                    let y = b.categories[i].entries[j];
                    x.name == y.name && x.description == y.description && x.pattern == y.pattern
                        && x.replace == y.replace && x.category == y.category
                }
        }
}

/// Whether every entry id has the 36-byte generated form.
pub open spec fn ids_assigned(l: LibraryV) -> bool {
    forall|i: int, j: int|
        0 <= i < l.categories.len() && 0 <= j < (#[trigger] l.categories[i]).entries.len() ==> (
        #[trigger] l.categories[i].entries[j]).id.len() == 36
}

/// Gives every entry that lacks an id a freshly generated unique one; every
/// other field stands as parsed.
pub fn assign_entry_ids(l: RegexLibrary) -> (r: RegexLibrary)
    ensures
        same_but_ids(r@, l@),
        ids_assigned(r@),
{
    let mut cats: Vec<RegexCategory> = Vec::new();
    let mut i: usize = 0;
    let ghost lv = l@;
    while i < l.categories.len()
        invariant
            i <= l.categories@.len(),
            lv == l@,
            cats@.len() == i,
            forall|k: int|
                0 <= k < i ==> {
                    &&& (#[trigger] cats@[k]@).name == lv.categories[k].name
                    &&& cats@[k]@.entries.len() == lv.categories[k].entries.len()
                    &&& forall|j: int|
                        0 <= j < cats@[k]@.entries.len() ==> {
                            let x = #[trigger] cats@[k]@.entries[j];
                            let y = lv.categories[k].entries[j];
                            x.name == y.name && x.description == y.description && x.pattern
                                == y.pattern && x.replace == y.replace && x.category == y.category
                                && x.id.len() == 36
                        }
                },
        decreases l.categories@.len() - i,
    {
        let c = &l.categories[i];
        let mut es: Vec<RegexEntry> = Vec::new();
        let mut j: usize = 0;
        while j < c.entries.len()
            invariant
                j <= c.entries@.len(),
                c == &l.categories@[i as int],
                i < l.categories@.len(),
                lv == l@,
                es@.len() == j,
                forall|k: int|
                    0 <= k < j ==> {
                        let x = #[trigger] es@[k]@;
                        let y = lv.categories[i as int].entries[k];
                        x.name == y.name && x.description == y.description && x.pattern
                            == y.pattern && x.replace == y.replace && x.category == y.category
                            && x.id.len() == 36
                    },
            decreases c.entries@.len() - j,
        {
            let e = &c.entries[j];
            proof {
                assert(lv.categories[i as int].entries[j as int] == e@);
            }
            es.push(
                RegexEntry {
                    id: fresh_entry_id(),
                    name: clone_bytes(&e.name),
                    description: clone_bytes(&e.description),
                    pattern: clone_bytes(&e.pattern),
                    replace: clone_bytes(&e.replace),
                    category: clone_bytes(&e.category),
                },
            );
            j = j + 1;
        }
        cats.push(RegexCategory { name: clone_bytes(&c.name), entries: es });
        i = i + 1;
    }
    let r = RegexLibrary { categories: cats };
    proof {
        assert(r@.categories.len() == lv.categories.len());
        assert forall|k: int| 0 <= k < r@.categories.len() implies (#[trigger] r@.categories[k])
            == cats@[k]@ by {}
    }
    r
}

} // verus!
