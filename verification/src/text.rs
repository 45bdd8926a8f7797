//! Byte-level text primitives: markup escaping, substring search, and
//! decimal number formatting, each with an exact specification.
use vstd::prelude::*;

verus! {

pub const B_AMP: u8 = 38;

pub const B_LT: u8 = 60;

pub const B_GT: u8 = 62;

pub const B_QUOT: u8 = 34;

pub const B_APOS: u8 = 39;

/// The five named entities, as byte sequences.
pub open spec fn ent_amp() -> Seq<u8> {
    seq![38u8, 97u8, 109u8, 112u8, 59u8]
}

pub open spec fn ent_lt() -> Seq<u8> {
    seq![38u8, 108u8, 116u8, 59u8]
}

pub open spec fn ent_gt() -> Seq<u8> {
    seq![38u8, 103u8, 116u8, 59u8]
}

pub open spec fn ent_quot() -> Seq<u8> {
    seq![38u8, 113u8, 117u8, 111u8, 116u8, 59u8]
}

pub open spec fn ent_apos() -> Seq<u8> {
    seq![38u8, 97u8, 112u8, 111u8, 115u8, 59u8]
}

/// The escaped form of one byte: an entity for the five reserved markup
/// bytes, the byte itself otherwise.
pub open spec fn escape_byte(b: u8) -> Seq<u8> {
    if b == B_AMP {
        ent_amp()
    } else if b == B_LT {
        ent_lt()
    } else if b == B_GT {
        ent_gt()
    } else if b == B_QUOT {
        ent_quot()
    } else if b == B_APOS {
        ent_apos()
    } else {
        seq![b]
    }
}

/// Replaces each reserved markup byte of `s` by its entity, leaving every
/// other byte unchanged.
pub open spec fn escape_spec(s: Seq<u8>) -> Seq<u8>
    decreases s.len(),
{
    if s.len() == 0 {
        Seq::empty()
    } else {
        escape_byte(s[0]) + escape_spec(s.skip(1))
    }
}

/// Escapes the five reserved markup bytes (`&`, `<`, `>`, `"`, `'`) so that
/// arbitrary text can stand inside a structured document and round-trip
/// exactly.
pub fn escape_xml(s: &Vec<u8>) -> (r: Vec<u8>)
    ensures
        r@ == escape_spec(s@),
{
    let mut out: Vec<u8> = Vec::new();
    let mut i: usize = 0;
    while i < s.len()
        invariant
            i <= s.len(),
            out@ == escape_spec(s@.take(i as int)),
        decreases s.len() - i,
    {
        let b = s[i];
        if b == B_AMP {
            out.push(38);
            out.push(97);
            out.push(109);
            out.push(112);
            out.push(59);
        } else if b == B_LT {
            out.push(38);
            out.push(108);
            out.push(116);
            out.push(59);
        } else if b == B_GT {
            out.push(38);
            out.push(103);
            out.push(116);
            out.push(59);
        } else if b == B_QUOT {
            out.push(38);
            out.push(113);
            out.push(117);
            out.push(111);
            out.push(116);
            out.push(59);
        } else if b == B_APOS {
            out.push(38);
            out.push(97);
            out.push(112);
            out.push(111);
            out.push(115);
            out.push(59);
        } else {
            out.push(b);
        }
        proof {
            lemma_escape_take_step(s@, i as int);
            assert(out@ =~= escape_spec(s@.take(i as int)) + escape_byte(s@[i as int]));
        }
        i = i + 1;
    }
    proof {
        assert(s@.take(s@.len() as int) =~= s@);
    }
    out
}

proof fn lemma_escape_take_step(s: Seq<u8>, i: int)
    requires
        0 <= i < s.len(),
    ensures
        escape_spec(s.take(i + 1)) == escape_spec(s.take(i)) + escape_byte(s[i]),
    decreases i,
{
    let t = s.take(i + 1);
    assert(t[0] == s[0]);
    if i == 0 {
        assert(t.skip(1) =~= Seq::<u8>::empty());
        assert(escape_spec(Seq::<u8>::empty()) == Seq::<u8>::empty());
        assert(escape_spec(s.take(0)) =~= Seq::<u8>::empty());
        assert(escape_byte(s[0]) + Seq::<u8>::empty() =~= escape_byte(s[0]));
        assert(escape_spec(t) == escape_byte(t[0]) + escape_spec(t.skip(1)));
        assert(escape_spec(t) =~= escape_byte(s[0]));
    } else {
        let s1 = s.skip(1);
        assert(t.skip(1) =~= s1.take(i));
        assert(s.take(i).skip(1) =~= s1.take(i - 1));
        lemma_escape_take_step(s1, i - 1);
        assert(s1.take(i - 1 + 1) =~= s1.take(i));
        assert(s1[i - 1] == s[i]);
        assert(escape_spec(t) == escape_byte(s[0]) + escape_spec(s1.take(i)));
        assert(escape_spec(s.take(i)) == escape_byte(s[0]) + escape_spec(s1.take(i - 1)));
        assert(escape_byte(s[0]) + (escape_spec(s1.take(i - 1)) + escape_byte(s[i]))
            =~= (escape_byte(s[0]) + escape_spec(s1.take(i - 1))) + escape_byte(s[i]));
    }
}

/// Escaped text never holds a literal `<`, `>`, `"` or `'`: entities spell
/// them out, and every other byte passes through unchanged.
pub proof fn lemma_escape_no_specials(s: Seq<u8>)
    ensures
        forall|i: int|
            0 <= i < escape_spec(s).len() ==> #[trigger] escape_spec(s)[i] != B_LT
                && escape_spec(s)[i] != B_GT && escape_spec(s)[i] != B_QUOT && escape_spec(s)[i]
                != B_APOS,
    decreases s.len(),
{
    if s.len() > 0 {
        lemma_escape_no_specials(s.skip(1));
        let e = escape_spec(s);
        let h = escape_byte(s[0]);
        let t = escape_spec(s.skip(1));
        assert forall|i: int| 0 <= i < e.len() implies #[trigger] e[i] != B_LT && e[i] != B_GT
            && e[i] != B_QUOT && e[i] != B_APOS by {
            if i < h.len() {
                assert(e[i] == h[i]);
            } else {
                assert(e[i] == t[i - h.len()]);
            }
        }
    }
}

/// Whether `p` stands at the front of `s`.
pub open spec fn has_prefix(s: Seq<u8>, p: Seq<u8>) -> bool {
    p.len() <= s.len() && s.subrange(0, p.len() as int) == p
}

/// A `None` result threaded through a front extension.
pub open spec fn opt_cons(b: u8, o: Option<Seq<u8>>) -> Option<Seq<u8>> {
    match o {
        Option::None => Option::None,
        Option::Some(r) => Option::Some(seq![b] + r),
    }
}

/// Undoes `escape_spec`: the five named entities turn back into their bytes,
/// every other byte is copied, and an unrecognized entity is an error.
pub open spec fn unescape_spec(s: Seq<u8>) -> Option<Seq<u8>>
    decreases s.len(),
{
    if s.len() == 0 {
        Option::Some(Seq::empty())
    } else if s[0] == B_AMP {
        if has_prefix(s, ent_amp()) {
            opt_cons(B_AMP, unescape_spec(s.skip(5)))
        } else if has_prefix(s, ent_lt()) {
            opt_cons(B_LT, unescape_spec(s.skip(4)))
        } else if has_prefix(s, ent_gt()) {
            opt_cons(B_GT, unescape_spec(s.skip(4)))
        } else if has_prefix(s, ent_quot()) {
            opt_cons(B_QUOT, unescape_spec(s.skip(6)))
        } else if has_prefix(s, ent_apos()) {
            opt_cons(B_APOS, unescape_spec(s.skip(6)))
        } else {
            Option::None
        }
    } else {
        opt_cons(s[0], unescape_spec(s.skip(1)))
    }
}

/// Restores escaped text: entities become their bytes again. Fails exactly
/// when a `&` begins something other than one of the five named entities.
pub fn unescape_xml(s: &Vec<u8>) -> (r: Option<Vec<u8>>)
    ensures
        match r {
            Option::Some(v) => unescape_spec(s@) == Option::Some(v@),
            Option::None => unescape_spec(s@) is None,
        },
{
    let mut out: Vec<u8> = Vec::new();
    let mut i: usize = 0;
    proof {
        assert(s@.skip(0) =~= s@);
        match unescape_spec(s@) {
            Option::Some(t) => {
                assert(out@ + t =~= t);
            },
            Option::None => {},
        }
    }
    while i < s.len()
        invariant
            i <= s.len(),
            unescape_spec(s@) == match unescape_spec(s@.skip(i as int)) {
                Option::None => Option::<Seq<u8>>::None,
                Option::Some(t) => Option::Some(out@ + t),
            },
        decreases s.len() - i,
    {
        let ghost rest = s@.skip(i as int);
        assert(rest[0] == s@[i as int]);
        let b = s[i];
        let step: usize;
        if b == B_AMP {
            if ent_match(s, i, 1) {
                out.push(B_AMP);
                step = 5;
                proof {
                    assert(has_prefix(rest, ent_amp()));
                }
            } else if ent_match(s, i, 2) {
                out.push(B_LT);
                step = 4;
                proof {
                    assert(!has_prefix(rest, ent_amp()));
                    assert(has_prefix(rest, ent_lt()));
                }
            } else if ent_match(s, i, 3) {
                out.push(B_GT);
                step = 4;
                proof {
                    assert(!has_prefix(rest, ent_amp()));
                    assert(!has_prefix(rest, ent_lt()));
                    assert(has_prefix(rest, ent_gt()));
                }
            } else if ent_match(s, i, 4) {
                out.push(B_QUOT);
                step = 6;
                proof {
                    assert(!has_prefix(rest, ent_amp()));
                    assert(!has_prefix(rest, ent_lt()));
                    assert(!has_prefix(rest, ent_gt()));
                    assert(has_prefix(rest, ent_quot()));
                }
            } else if ent_match(s, i, 5) {
                out.push(B_APOS);
                step = 6;
                proof {
                    assert(!has_prefix(rest, ent_amp()));
                    assert(!has_prefix(rest, ent_lt()));
                    assert(!has_prefix(rest, ent_gt()));
                    assert(!has_prefix(rest, ent_quot()));
                    assert(has_prefix(rest, ent_apos()));
                }
            } else {
                proof {
                    assert(!has_prefix(rest, ent_amp()));
                    assert(!has_prefix(rest, ent_lt()));
                    assert(!has_prefix(rest, ent_gt()));
                    assert(!has_prefix(rest, ent_quot()));
                    assert(!has_prefix(rest, ent_apos()));
                    assert(unescape_spec(rest) is None);
                }
                return Option::None;
            }
        } else {
            out.push(b);
            step = 1;
        }
        proof {
            assert(s@.skip(i as int).skip(step as int) =~= s@.skip(i + step as int));
        }
        i = i + step;
    }
    proof {
        assert(s@.skip(s@.len() as int) =~= Seq::<u8>::empty());
        assert(out@ + Seq::<u8>::empty() =~= out@);
    }
    Option::Some(out)
}

/// Whether the bytes of entity number `which` stand at `s[i..]`, compared
/// byte by byte.
fn ent_match(s: &Vec<u8>, i: usize, which: u8) -> (r: bool)
    requires
        0 <= i < s@.len(),
        1 <= which <= 5,
    ensures
        r == has_prefix(
            s@.skip(i as int),
            if which == 1 {
                ent_amp()
            } else if which == 2 {
                ent_lt()
            } else if which == 3 {
                ent_gt()
            } else if which == 4 {
                ent_quot()
            } else {
                ent_apos()
            },
        ),
{
    let ghost rest = s@.skip(i as int);
    let n = s.len();
    let r: bool;
    if which == 1 {
        r = n - i >= 5 && s[i] == 38 && s[i + 1] == 97 && s[i + 2] == 109 && s[i + 3] == 112 && s[i
            + 4] == 59;
        proof {
            if r {
                assert(rest.subrange(0, 5) =~= ent_amp());
            } else {
                if n - i >= 5 && rest.subrange(0, 5) == ent_amp() {
                    assert(rest.subrange(0, 5)[0] == s@[i as int]);
                    assert(rest.subrange(0, 5)[1] == s@[i + 1]);
                    assert(rest.subrange(0, 5)[2] == s@[i + 2]);
                    assert(rest.subrange(0, 5)[3] == s@[i + 3]);
                    assert(rest.subrange(0, 5)[4] == s@[i + 4]);
                }
            }
        }
    } else if which == 2 {
        r = n - i >= 4 && s[i] == 38 && s[i + 1] == 108 && s[i + 2] == 116 && s[i + 3] == 59;
        proof {
            if r {
                assert(rest.subrange(0, 4) =~= ent_lt());
            } else {
                if n - i >= 4 && rest.subrange(0, 4) == ent_lt() {
                    assert(rest.subrange(0, 4)[0] == s@[i as int]);
                    assert(rest.subrange(0, 4)[1] == s@[i + 1]);
                    assert(rest.subrange(0, 4)[2] == s@[i + 2]);
                    assert(rest.subrange(0, 4)[3] == s@[i + 3]);
                }
            }
        }
    } else if which == 3 {
        r = n - i >= 4 && s[i] == 38 && s[i + 1] == 103 && s[i + 2] == 116 && s[i + 3] == 59;
        proof {
            if r {
                assert(rest.subrange(0, 4) =~= ent_gt());
            } else {
                if n - i >= 4 && rest.subrange(0, 4) == ent_gt() {
                    assert(rest.subrange(0, 4)[0] == s@[i as int]);
                    assert(rest.subrange(0, 4)[1] == s@[i + 1]);
                    assert(rest.subrange(0, 4)[2] == s@[i + 2]);
                    assert(rest.subrange(0, 4)[3] == s@[i + 3]);
                }
            }
        }
    } else if which == 4 {
        r = n - i >= 6 && s[i] == 38 && s[i + 1] == 113 && s[i + 2] == 117 && s[i + 3] == 111 && s[i
            + 4] == 116 && s[i + 5] == 59;
        proof {
            if r {
                assert(rest.subrange(0, 6) =~= ent_quot());
            } else {
                if n - i >= 6 && rest.subrange(0, 6) == ent_quot() {
                    assert(rest.subrange(0, 6)[0] == s@[i as int]);
                    assert(rest.subrange(0, 6)[1] == s@[i + 1]);
                    assert(rest.subrange(0, 6)[2] == s@[i + 2]);
                    assert(rest.subrange(0, 6)[3] == s@[i + 3]);
                    assert(rest.subrange(0, 6)[4] == s@[i + 4]);
                    assert(rest.subrange(0, 6)[5] == s@[i + 5]);
                }
            }
        }
    } else {
        r = n - i >= 6 && s[i] == 38 && s[i + 1] == 97 && s[i + 2] == 112 && s[i + 3] == 111 && s[i
            + 4] == 115 && s[i + 5] == 59;
        proof {
            if r {
                assert(rest.subrange(0, 6) =~= ent_apos());
            } else {
                if n - i >= 6 && rest.subrange(0, 6) == ent_apos() {
                    assert(rest.subrange(0, 6)[0] == s@[i as int]);
                    assert(rest.subrange(0, 6)[1] == s@[i + 1]);
                    assert(rest.subrange(0, 6)[2] == s@[i + 2]);
                    assert(rest.subrange(0, 6)[3] == s@[i + 3]);
                    assert(rest.subrange(0, 6)[4] == s@[i + 4]);
                    assert(rest.subrange(0, 6)[5] == s@[i + 5]);
                }
            }
        }
    }
    r
}

/// Unescaping undoes escaping exactly, for every byte sequence.
pub proof fn lemma_unescape_escape(s: Seq<u8>)
    ensures
        unescape_spec(escape_spec(s)) == Option::Some(s),
    decreases s.len(),
{
    if s.len() == 0 {
        assert(escape_spec(s) =~= Seq::<u8>::empty());
    } else {
        lemma_unescape_escape(s.skip(1));
        let e = escape_spec(s);
        let h = escape_byte(s[0]);
        let t = escape_spec(s.skip(1));
        assert(e == h + t);
        assert(e.len() >= h.len());
        assert forall|k: int| 0 <= k < h.len() implies e[k] == h[k] by {}
        assert(e.skip(h.len() as int) =~= t);
        let b = s[0];
        if b == B_AMP {
            assert(e.subrange(0, 5) =~= ent_amp());
            assert(has_prefix(e, ent_amp()));
            assert(e[0] == B_AMP);
            assert(unescape_spec(e) == opt_cons(B_AMP, unescape_spec(e.skip(5))));
        } else if b == B_LT {
            assert(e.subrange(0, 4) =~= ent_lt());
            assert(e[0] == B_AMP);
            assert(e[1] == 108u8);
            assert(!has_prefix(e, ent_amp())) by {
                if has_prefix(e, ent_amp()) {
                    assert(e.subrange(0, 5)[1] == e[1]);
                }
            }
            assert(unescape_spec(e) == opt_cons(B_LT, unescape_spec(e.skip(4))));
        } else if b == B_GT {
            assert(e.subrange(0, 4) =~= ent_gt());
            assert(e[0] == B_AMP);
            assert(e[1] == 103u8);
            assert(!has_prefix(e, ent_amp())) by {
                if has_prefix(e, ent_amp()) {
                    assert(e.subrange(0, 5)[1] == e[1]);
                }
            }
            assert(!has_prefix(e, ent_lt())) by {
                if has_prefix(e, ent_lt()) {
                    assert(e.subrange(0, 4)[1] == e[1]);
                }
            }
            assert(unescape_spec(e) == opt_cons(B_GT, unescape_spec(e.skip(4))));
        } else if b == B_QUOT {
            assert(e.subrange(0, 6) =~= ent_quot());
            assert(e[0] == B_AMP);
            assert(e[1] == 113u8);
            assert(!has_prefix(e, ent_amp())) by {
                if has_prefix(e, ent_amp()) {
                    assert(e.subrange(0, 5)[1] == e[1]);
                }
            }
            assert(!has_prefix(e, ent_lt())) by {
                if has_prefix(e, ent_lt()) {
                    assert(e.subrange(0, 4)[1] == e[1]);
                }
            }
            assert(!has_prefix(e, ent_gt())) by {
                if has_prefix(e, ent_gt()) {
                    assert(e.subrange(0, 4)[1] == e[1]);
                }
            }
            assert(unescape_spec(e) == opt_cons(B_QUOT, unescape_spec(e.skip(6))));
        } else if b == B_APOS {
            assert(e.subrange(0, 6) =~= ent_apos());
            assert(e[0] == B_AMP);
            assert(e[1] == 97u8);
            assert(e[2] == 112u8);
            assert(!has_prefix(e, ent_amp())) by {
                if has_prefix(e, ent_amp()) {
                    assert(e.subrange(0, 5)[2] == e[2]);
                }
            }
            assert(!has_prefix(e, ent_lt())) by {
                if has_prefix(e, ent_lt()) {
                    assert(e.subrange(0, 4)[1] == e[1]);
                }
            }
            assert(!has_prefix(e, ent_gt())) by {
                if has_prefix(e, ent_gt()) {
                    assert(e.subrange(0, 4)[1] == e[1]);
                }
            }
            assert(!has_prefix(e, ent_quot())) by {
                if has_prefix(e, ent_quot()) {
                    assert(e.subrange(0, 6)[1] == e[1]);
                }
            }
            assert(unescape_spec(e) == opt_cons(B_APOS, unescape_spec(e.skip(6))));
        } else {
            assert(e[0] == b);
            assert(e.skip(1) =~= t);
            assert(unescape_spec(e) == opt_cons(b, unescape_spec(e.skip(1))));
        }
        assert(seq![s[0]] + s.skip(1) =~= s);
    }
}


/// Whether `p` occurs in `h` starting at position `i`.
pub open spec fn match_at(h: Seq<u8>, p: Seq<u8>, i: int) -> bool {
    0 <= i && i + p.len() <= h.len() && h.subrange(i, i + p.len()) == p
}

/// The first position at or after `from` where `p` occurs in `h`, or
/// `h.len()` when it occurs nowhere there.
pub open spec fn find_sub(h: Seq<u8>, p: Seq<u8>, from: int) -> int
    decreases h.len() - from,
{
    if from < 0 || p.len() == 0 {
        h.len() as int
    } else if from + p.len() > h.len() {
        h.len() as int
    } else if h.subrange(from, from + p.len()) == p {
        from
    } else {
        find_sub(h, p, from + 1)
    }
}

/// What `find_sub` returns: the least matching position at or after `from`,
/// or the length marker when there is none.
pub proof fn lemma_find_sub(h: Seq<u8>, p: Seq<u8>, from: int)
    requires
        0 <= from <= h.len(),
        p.len() >= 1,
    ensures
        from <= find_sub(h, p, from) <= h.len(),
        forall|j: int| from <= j < find_sub(h, p, from) ==> !match_at(h, p, j),
        find_sub(h, p, from) < h.len() ==> match_at(h, p, find_sub(h, p, from)),
    decreases h.len() - from,
{
    if from + p.len() > h.len() {
        assert forall|j: int| from <= j < h.len() implies !match_at(h, p, j) by {}
    } else if h.subrange(from, from + p.len()) == p {
    } else {
        lemma_find_sub(h, p, from + 1);
    }
}

/// Whether `p` stands at position `i` of `h`, compared byte by byte.
pub fn occurs_at(h: &Vec<u8>, p: &Vec<u8>, i: usize) -> (r: bool)
    requires
        i + p@.len() <= h@.len(),
    ensures
        r == match_at(h@, p@, i as int),
{
    let hn = h.len();
    let mut k: usize = 0;
    while k < p.len()
        invariant
            k <= p@.len(),
            i + p@.len() <= h@.len(),
            hn == h@.len(),
            forall|m: int| 0 <= m < k ==> h@[i + m] == p@[m],
        decreases p@.len() - k,
    {
        if h[i + k] != p[k] {
            proof {
                assert(h@.subrange(i as int, i + p@.len())[k as int] == h@[i + k]);
            }
            return false;
        }
        k = k + 1;
    }
    proof {
        assert(h@.subrange(i as int, i + p@.len()) =~= p@);
    }
    true
}

/// Finds the first occurrence of `p` in `h` at or after `from`; the length
/// of `h` stands for "not found".
pub fn find_sub_at(h: &Vec<u8>, p: &Vec<u8>, from: usize) -> (r: usize)
    requires
        from <= h@.len(),
        p@.len() >= 1,
    ensures
        r as int == find_sub(h@, p@, from as int),
{
    let n = h.len();
    let m = p.len();
    if m > n {
        proof {
            lemma_find_sub(h@, p@, from as int);
            let r = find_sub(h@, p@, from as int);
            if r < h@.len() {
                assert(match_at(h@, p@, r));
            }
        }
        return h.len();
    }
    let mut i: usize = from;
    while i <= n - m
        invariant
            from <= i,
            i <= h@.len(),
            n == h@.len(),
            m == p@.len() >= 1,
            m <= n,
            forall|j: int| from <= j < i ==> !match_at(h@, p@, j),
        decreases h@.len() - i,
    {
        if occurs_at(h, p, i) {
            proof {
                lemma_find_sub(h@, p@, from as int);
                let r = find_sub(h@, p@, from as int);
                if r < i {
                    assert(match_at(h@, p@, r));
                } else if r > i {
                    assert(!match_at(h@, p@, i as int));
                }
            }
            return i;
        }
        i = i + 1;
    }
    proof {
        lemma_find_sub(h@, p@, from as int);
        let r = find_sub(h@, p@, from as int);
        if r < h@.len() {
            assert(match_at(h@, p@, r));
            assert(r + p@.len() <= h@.len());
        }
    }
    h.len()
}

/// The decimal digits of `n`, most significant first.
pub open spec fn dec_digits(n: nat) -> Seq<u8>
    decreases n,
{
    if n < 10 {
        seq![(48 + n) as u8]
    } else {
        dec_digits(n / 10) + seq![(48 + n % 10) as u8]
    }
}

/// Whether every byte of `s` is a decimal digit.
pub open spec fn all_digits(s: Seq<u8>) -> bool {
    forall|i: int| 0 <= i < s.len() ==> 48 <= #[trigger] s[i] <= 57
}

/// The value of a digit string, most significant first.
pub open spec fn digits_value(s: Seq<u8>) -> nat
    decreases s.len(),
{
    if s.len() == 0 {
        0
    } else {
        digits_value(s.take(s.len() - 1)) * 10 + (s.last() - 48) as nat
    }
}

/// Ten to the `k`.
pub open spec fn pow10(k: nat) -> nat
    decreases k,
{
    if k == 0 {
        1
    } else {
        10 * pow10((k - 1) as nat)
    }
}

/// `dec_digits` yields digits, at least one.
pub proof fn lemma_dec_digits_wf(n: nat)
    ensures
        dec_digits(n).len() >= 1,
        all_digits(dec_digits(n)),
    decreases n,
{
    if n >= 10 {
        lemma_dec_digits_wf(n / 10);
        let d = dec_digits(n);
        let h = dec_digits(n / 10);
        assert forall|i: int| 0 <= i < d.len() implies 48 <= #[trigger] d[i] <= 57 by {
            if i < h.len() {
                assert(d[i] == h[i]);
            } else {
                assert(d[i] == (48 + n % 10) as u8);
            }
        }
    }
}

/// `n` below ten to the `k` prints in at most `k` digits.
pub proof fn lemma_dec_digits_len(n: nat, k: nat)
    requires
        k >= 1,
        n < pow10(k),
    ensures
        dec_digits(n).len() <= k,
    decreases n,
{
    if n >= 10 {
        assert(pow10(0) == 1);
        assert(pow10(1) == 10 * pow10(0));
        assert(k >= 2) by {
            if k == 1 {
                assert(n < 10);
            }
        }
        assert(n / 10 < pow10((k - 1) as nat)) by (nonlinear_arith)
            requires
                n < pow10(k),
                pow10(k) == 10 * pow10((k - 1) as nat),
                n >= 10,
        ;
        lemma_dec_digits_len(n / 10, (k - 1) as nat);
    }
}

/// Parsing the printed digits of `n` gives back `n`.
pub proof fn lemma_digits_roundtrip(n: nat)
    ensures
        digits_value(dec_digits(n)) == n,
    decreases n,
{
    if n < 10 {
        let d = dec_digits(n);
        assert(d == seq![(48 + n) as u8]);
        assert(d.take(d.len() - 1) =~= Seq::<u8>::empty());
        assert(digits_value(Seq::<u8>::empty()) == 0);
        assert(digits_value(d) == 0 * 10 + (d.last() - 48) as nat);
    } else {
        lemma_digits_roundtrip(n / 10);
        let d = dec_digits(n);
        assert(d.take(d.len() - 1) =~= dec_digits(n / 10));
        assert(d.last() == (48 + n % 10) as u8);
        assert(digits_value(d) == (n / 10) * 10 + n % 10);
        assert((n / 10) * 10 + n % 10 == n) by {
            vstd::arithmetic::div_mod::lemma_fundamental_div_mod(n as int, 10);
        }
    }
}

/// Prints `n` in decimal, most significant digit first.
pub fn fmt_u64(n: u64) -> (r: Vec<u8>)
    ensures
        r@ == dec_digits(n as nat),
    decreases n,
{
    if n < 10 {
        let mut v: Vec<u8> = Vec::new();
        v.push(48 + n as u8);
        proof {
            assert(v@ =~= dec_digits(n as nat));
        }
        v
    } else {
        let mut v = fmt_u64(n / 10);
        v.push(48 + (n % 10) as u8);
        proof {
            assert(v@ =~= dec_digits((n / 10) as nat) + seq![(48 + n as nat % 10) as u8]);
        }
        v
    }
}

/// How a stored decimal field reads back: the value of a run of at most
/// twenty digits that fits the type, and zero for anything else.
pub open spec fn parse_u64_spec(s: Seq<u8>) -> u64 {
    if 1 <= s.len() <= 20 && all_digits(s) && digits_value(s) <= u64::MAX {
        digits_value(s) as u64
    } else {
        0
    }
}

/// Reads a decimal field tolerantly: a malformed or overlong value becomes
/// zero rather than an error.
pub fn parse_u64(s: &Vec<u8>) -> (r: u64)
    ensures
        r == parse_u64_spec(s@),
{
    let n = s.len();
    if n == 0 || n > 20 {
        return 0;
    }
    let mut i: usize = 0;
    let mut acc: u128 = 0;
    while i < n
        invariant
            i <= n,
            n == s@.len() <= 20,
            all_digits(s@.take(i as int)),
            acc == digits_value(s@.take(i as int)),
            acc < pow10(i as nat),
        decreases n - i,
    {
        let b = s[i];
        if b < 48 || b > 57 {
            proof {
                assert(s@[i as int] == b);
                assert(!all_digits(s@));
            }
            return 0;
        }
        proof {
            assert(s@.take(i + 1).take(i as int) =~= s@.take(i as int));
            assert(s@.take(i + 1).last() == s@[i as int]);
            lemma_pow10_bound(i as nat);
            assert(acc * 10 + (b - 48) < pow10(i as nat) * 10) by (nonlinear_arith)
                requires
                    acc < pow10(i as nat),
                    b - 48 < 10,
            ;
        }
        acc = acc * 10 + (b - 48) as u128;
        i = i + 1;
    }
    proof {
        assert(s@.take(n as int) =~= s@);
    }
    if acc > u64::MAX as u128 {
        0
    } else {
        acc as u64
    }
}

/// Ten to the twenty fits a `u128`; used to bound parsing accumulators.
proof fn lemma_pow10_bound(k: nat)
    requires
        k <= 20,
    ensures
        pow10(k) <= pow10(20),
        pow10(20) == 0x56bc75e2d63100000,
    decreases 20 - k,
{
    assert(pow10(0) == 1);
    assert(pow10(1) == 10 * pow10(0));
    assert(pow10(2) == 10 * pow10(1));
    assert(pow10(3) == 10 * pow10(2));
    assert(pow10(4) == 10 * pow10(3));
    assert(pow10(5) == 10 * pow10(4));
    assert(pow10(6) == 10 * pow10(5));
    assert(pow10(7) == 10 * pow10(6));
    assert(pow10(8) == 10 * pow10(7));
    assert(pow10(9) == 10 * pow10(8));
    assert(pow10(10) == 10 * pow10(9));
    assert(pow10(11) == 10 * pow10(10));
    assert(pow10(12) == 10 * pow10(11));
    assert(pow10(13) == 10 * pow10(12));
    assert(pow10(14) == 10 * pow10(13));
    assert(pow10(15) == 10 * pow10(14));
    assert(pow10(16) == 10 * pow10(15));
    assert(pow10(17) == 10 * pow10(16));
    assert(pow10(18) == 10 * pow10(17));
    assert(pow10(19) == 10 * pow10(18));
    assert(pow10(20) == 10 * pow10(19));
    if k < 20 {
        lemma_pow10_bound(k + 1);
        assert(pow10(k + 1) == 10 * pow10(k));
    }
}

/// Parsing the printed digits of a `u64` gives it back.
pub proof fn lemma_parse_fmt_u64(n: u64)
    ensures
        parse_u64_spec(dec_digits(n as nat)) == n,
{
    lemma_dec_digits_wf(n as nat);
    lemma_digits_roundtrip(n as nat);
    lemma_pow10_bound(20);
    assert((n as nat) < pow10(20));
    lemma_dec_digits_len(n as nat, 20);
}

/// The stored form of a rule order: a minus sign for a negative value,
/// then decimal digits.
pub open spec fn fmt_i32_spec(n: int) -> Seq<u8> {
    if n < 0 {
        seq![45u8] + dec_digits((-n) as nat)
    } else {
        dec_digits(n as nat)
    }
}

/// Prints a rule order in decimal.
pub fn fmt_i32(n: i32) -> (r: Vec<u8>)
    ensures
        r@ == fmt_i32_spec(n as int),
{
    if n < 0 {
        let m: u64 = (-(n as i64)) as u64;
        let mut v: Vec<u8> = Vec::new();
        v.push(45);
        let d = fmt_u64(m);
        let mut k: usize = 0;
        while k < d.len()
            invariant
                k <= d@.len(),
                v@ == seq![45u8] + d@.take(k as int),
        decreases d@.len() - k,
        {
            v.push(d[k]);
            proof {
                assert(seq![45u8] + d@.take(k + 1) =~= (seq![45u8] + d@.take(k as int)).push(
                    d@[k as int],
                ));
            }
            k = k + 1;
        }
        proof {
            assert(d@.take(d@.len() as int) =~= d@);
        }
        v
    } else {
        let r = fmt_u64(n as u64);
        r
    }
}

/// How a stored rule order reads back: an optional minus sign and digits,
/// valued if it fits an `i32`, and zero for anything else.
pub open spec fn parse_i32_spec(s: Seq<u8>) -> i32 {
    if s.len() >= 2 && s[0] == 45 {
        let v = parse_u64_spec(s.skip(1));
        if 1 <= s.skip(1).len() <= 20 && all_digits(s.skip(1)) && v <= 0x80000000u64 && (
        digits_value(s.skip(1)) <= u64::MAX) {
            (-(v as int)) as i32
        } else {
            0
        }
    } else if parse_u64_spec(s) <= i32::MAX as u64 {
        parse_u64_spec(s) as i32
    } else {
        0
    }
}

/// Reads a rule order tolerantly: a malformed or out-of-range value becomes
/// zero rather than an error.
pub fn parse_i32(s: &Vec<u8>) -> (r: i32)
    ensures
        r == parse_i32_spec(s@),
{
    if s.len() >= 2 && s[0] == 45 {
        let mut rest: Vec<u8> = Vec::new();
        push_range(&mut rest, s, 1, s.len());
        proof {
            assert(rest@ =~= s@.skip(1));
        }
        let v = parse_u64(&rest);
        let digits_ok = all_digits_exec(&rest);
        if digits_ok && rest.len() <= 20 && v <= 0x80000000u64 {
            proof {
                if digits_value(s@.skip(1)) > u64::MAX {
                    assert(parse_u64_spec(s@.skip(1)) == 0);
                }
            }
            if v == 0 && digits_value_is_large(&rest) {
                0
            } else {
                (-(v as i64)) as i32
            }
        } else {
            0
        }
    } else {
        let v = parse_u64(s);
        if v <= i32::MAX as u64 {
            v as i32
        } else {
            0
        }
    }
}

/// Whether the digits of `s` overflow a `u64`; meaningful only beside a
/// zero parse result.
fn digits_value_is_large(s: &Vec<u8>) -> (r: bool)
    requires
        1 <= s@.len() <= 20,
        all_digits(s@),
    ensures
        r == (digits_value(s@) > u64::MAX),
{
    let mut i: usize = 0;
    let mut acc: u128 = 0;
    while i < s.len()
        invariant
            i <= s@.len(),
            s@.len() <= 20,
            all_digits(s@),
            acc == digits_value(s@.take(i as int)),
            acc < pow10(i as nat),
        decreases s@.len() - i,
    {
        let b = s[i];
        proof {
            assert(s@.take(i + 1).take(i as int) =~= s@.take(i as int));
            assert(s@.take(i + 1).last() == s@[i as int]);
            lemma_pow10_bound(i as nat);
            assert(acc * 10 + (b - 48) < pow10(i as nat) * 10) by (nonlinear_arith)
                requires
                    acc < pow10(i as nat),
                    b - 48 < 10,
            ;
        }
        acc = acc * 10 + (b - 48) as u128;
        i = i + 1;
    }
    proof {
        assert(s@.take(s@.len() as int) =~= s@);
    }
    acc > u64::MAX as u128
}

/// Whether every byte of `s` is a decimal digit.
pub fn all_digits_exec(s: &Vec<u8>) -> (r: bool)
    ensures
        r == all_digits(s@),
{
    let mut i: usize = 0;
    while i < s.len()
        invariant
            i <= s@.len(),
            forall|j: int| 0 <= j < i ==> 48 <= #[trigger] s@[j] <= 57,
        decreases s@.len() - i,
    {
        if s[i] < 48 || s[i] > 57 {
            return false;
        }
        i = i + 1;
    }
    true
}

/// Parsing the printed form of an order gives it back.
pub proof fn lemma_parse_fmt_i32(n: i32)
    ensures
        parse_i32_spec(fmt_i32_spec(n as int)) == n,
{
    if n < 0 {
        let m = (-(n as int)) as nat;
        let s = fmt_i32_spec(n as int);
        lemma_dec_digits_wf(m);
        assert(s[0] == 45);
        assert(s.len() >= 2);
        assert(s.skip(1) =~= dec_digits(m));
        lemma_parse_fmt_u64(m as u64);
        lemma_digits_roundtrip(m);
        lemma_pow10_bound(20);
        assert(m < pow10(20));
        lemma_dec_digits_len(m, 20);
    } else {
        let s = fmt_i32_spec(n as int);
        lemma_dec_digits_wf(n as nat);
        assert(s[0] != 45) by {
            assert(48 <= s[0] <= 57);
        }
        lemma_parse_fmt_u64(n as u64);
    }
}

/// Appends `text[a..b]` to `out`.
pub fn push_range(out: &mut Vec<u8>, text: &Vec<u8>, a: usize, b: usize)
    requires
        a <= b <= text@.len(),
    ensures
        final(out)@ == old(out)@ + text@.subrange(a as int, b as int),
{
    let mut i: usize = a;
    proof {
        assert(out@ =~= out@ + text@.subrange(a as int, a as int));
    }
    while i < b
        invariant
            a <= i <= b <= text@.len(),
            out@ == old(out)@ + text@.subrange(a as int, i as int),
        decreases b - i,
    {
        out.push(text[i]);
        proof {
            assert(old(out)@ + text@.subrange(a as int, i + 1) =~= (old(out)@ + text@.subrange(
                a as int,
                i as int,
            )).push(text@[i as int]));
        }
        i = i + 1;
    }
}


/// Whether `b` is an ASCII whitespace byte.
pub open spec fn is_ws(b: u8) -> bool {
    b == 32 || b == 9 || b == 10 || b == 13
}

/// `s` without its leading whitespace.
pub open spec fn trim_start_spec(s: Seq<u8>) -> Seq<u8>
    decreases s.len(),
{
    if s.len() > 0 && is_ws(s[0]) {
        trim_start_spec(s.skip(1))
    } else {
        s
    }
}

/// `s` without its trailing whitespace.
pub open spec fn trim_end_spec(s: Seq<u8>) -> Seq<u8>
    decreases s.len(),
{
    if s.len() > 0 && is_ws(s.last()) {
        trim_end_spec(s.take(s.len() - 1))
    } else {
        s
    }
}

/// `s` without leading and trailing whitespace.
pub open spec fn trim_spec(s: Seq<u8>) -> Seq<u8> {
    trim_end_spec(trim_start_spec(s))
}

/// Dropping each leading whitespace byte in turn strips the whole prefix.
proof fn lemma_trim_start(s: Seq<u8>, a: int)
    requires
        0 <= a <= s.len(),
        forall|j: int| 0 <= j < a ==> is_ws(s[j]),
        a < s.len() ==> !is_ws(s[a]),
    ensures
        trim_start_spec(s) == s.skip(a),
    decreases a,
{
    if a == 0 {
        if s.len() > 0 && is_ws(s[0]) {
            assert(false);
        }
        assert(s.skip(0) =~= s);
    } else {
        assert(is_ws(s[0]));
        let s1 = s.skip(1);
        assert(forall|j: int| 0 <= j < a - 1 ==> is_ws(#[trigger] s1[j]));
        assert(a - 1 < s1.len() ==> !is_ws(s1[a - 1]));
        lemma_trim_start(s1, a - 1);
        assert(s1.skip(a - 1) =~= s.skip(a));
    }
}

/// Dropping each trailing whitespace byte in turn strips the whole suffix.
proof fn lemma_trim_end(s: Seq<u8>, b: int)
    requires
        0 <= b <= s.len(),
        forall|j: int| b <= j < s.len() ==> is_ws(s[j]),
        b > 0 ==> !is_ws(s[b - 1]),
    ensures
        trim_end_spec(s) == s.take(b),
    decreases s.len() - b,
{
    if b == s.len() {
        if s.len() > 0 && is_ws(s.last()) {
            assert(false);
        }
        assert(s.take(b) =~= s);
    } else {
        assert(is_ws(s.last()));
        let s1 = s.take(s.len() - 1);
        assert(forall|j: int| b <= j < s1.len() ==> is_ws(#[trigger] s1[j]));
        assert(b > 0 ==> !is_ws(s1[b - 1]));
        lemma_trim_end(s1, b);
        assert(s1.take(b) =~= s.take(b));
    }
}

/// Strips ASCII whitespace from both ends.
pub fn trim_bytes(s: &Vec<u8>) -> (r: Vec<u8>)
    ensures
        r@ == trim_spec(s@),
{
    let n = s.len();
    let mut a: usize = 0;
    while a < n && (s[a] == 32 || s[a] == 9 || s[a] == 10 || s[a] == 13)
        invariant
            a <= n,
            n == s@.len(),
            forall|j: int| 0 <= j < a ==> is_ws(s@[j]),
        decreases n - a,
    {
        a = a + 1;
    }
    proof {
        lemma_trim_start(s@, a as int);
    }
    let ghost t = trim_start_spec(s@);
    let mut b: usize = n;
    while b > a && (s[b - 1] == 32 || s[b - 1] == 9 || s[b - 1] == 10 || s[b - 1] == 13)
        invariant
            a <= b <= n,
            n == s@.len(),
            t == s@.skip(a as int),
            forall|j: int| b <= j < n ==> is_ws(s@[j]),
        decreases b,
    {
        b = b - 1;
    }
    proof {
        assert(forall|j: int| b - a <= j < t.len() ==> is_ws(#[trigger] t[j]));
        assert(b - a > 0 ==> !is_ws(t[b - a - 1]));
        lemma_trim_end(t, b - a);
    }
    let mut out: Vec<u8> = Vec::new();
    push_range(&mut out, s, a, b);
    proof {
        assert(out@ =~= s@.subrange(a as int, b as int));
        assert(s@.subrange(a as int, b as int) =~= t.take(b - a));
    }
    out
}

/// What best-effort metadata extraction yields: the trimmed text between
/// the first `<tag>` and the first `</tag>` after it, or nothing when the
/// pair is absent or stands malformed.
pub open spec fn extract_tag_spec(xml: Seq<u8>, tag: Seq<u8>) -> Option<Seq<u8>> {
    let open = seq![60u8] + tag + seq![62u8];
    let close = seq![60u8, 47u8] + tag + seq![62u8];
    let s = find_sub(xml, open, 0);
    if s >= xml.len() {
        Option::None
    } else {
        let c = find_sub(xml, close, s);
        if c >= xml.len() || c < s + open.len() {
            Option::None
        } else {
            Option::Some(trim_spec(xml.subrange(s + open.len(), c)))
        }
    }
}

/// Best-effort extraction of one element's text for display: the trimmed
/// content between the first `<tag>` and the following `</tag>`, without
/// unescaping.
pub fn extract_xml_tag(xml: &Vec<u8>, tag: &Vec<u8>) -> (r: Option<Vec<u8>>)
    ensures
        match r {
            Option::Some(v) => extract_tag_spec(xml@, tag@) == Option::Some(v@),
            Option::None => extract_tag_spec(xml@, tag@) is None,
        },
{
    let n = xml.len();
    let mut open: Vec<u8> = Vec::new();
    open.push(60);
    push_range(&mut open, tag, 0, tag.len());
    open.push(62);
    let mut close: Vec<u8> = Vec::new();
    close.push(60);
    close.push(47);
    push_range(&mut close, tag, 0, tag.len());
    close.push(62);
    proof {
        assert(tag@.subrange(0, tag@.len() as int) =~= tag@);
        assert(open@ =~= seq![60u8] + tag@ + seq![62u8]);
        assert(close@ =~= seq![60u8, 47u8] + tag@ + seq![62u8]);
    }
    let s = find_sub_at(xml, &open, 0);
    if s >= n {
        return Option::None;
    }
    let c = find_sub_at(xml, &close, s);
    if c >= n || c < s + open.len() {
        return Option::None;
    }
    proof {
        lemma_find_sub(xml@, close@, s as int);
        assert(match_at(xml@, close@, c as int));
    }
    let mut content: Vec<u8> = Vec::new();
    push_range(&mut content, xml, s + open.len(), c);
    proof {
        assert(content@ =~= xml@.subrange(s + open@.len(), c as int));
    }
    Option::Some(trim_bytes(&content))
}


} // verus!
