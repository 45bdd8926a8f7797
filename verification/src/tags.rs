//! The byte literals of the two document formats: one spec constant and
//! one checked builder for each tag.
use vstd::prelude::*;

verus! {
/// The bytes of `<qa_profile>`.
pub open spec fn s_qa_open() -> Seq<u8> {
    seq![60u8, 113u8, 97u8, 95u8, 112u8, 114u8, 111u8, 102u8, 105u8, 108u8, 101u8, 62u8]
}

/// Builds the bytes of `<qa_profile>`.
pub fn v_qa_open() -> (r: Vec<u8>)
    ensures
        r@ == s_qa_open(),
{
    let mut v: Vec<u8> = Vec::new();
    v.push(60);
    v.push(113);
    v.push(97);
    v.push(95);
    v.push(112);
    v.push(114);
    v.push(111);
    v.push(102);
    v.push(105);
    v.push(108);
    v.push(101);
    v.push(62);
    proof {
        assert(v@ =~= s_qa_open());
    }
    v
}

/// The bytes of `</qa_profile>`.
pub open spec fn s_qa_close() -> Seq<u8> {
    seq![60u8, 47u8, 113u8, 97u8, 95u8, 112u8, 114u8, 111u8, 102u8, 105u8, 108u8, 101u8, 62u8]
}

/// Builds the bytes of `</qa_profile>`.
pub fn v_qa_close() -> (r: Vec<u8>)
    ensures
        r@ == s_qa_close(),
{
    let mut v: Vec<u8> = Vec::new();
    v.push(60);
    v.push(47);
    v.push(113);
    v.push(97);
    v.push(95);
    v.push(112);
    v.push(114);
    v.push(111);
    v.push(102);
    v.push(105);
    v.push(108);
    v.push(101);
    v.push(62);
    proof {
        assert(v@ =~= s_qa_close());
    }
    v
}

/// The bytes of `<metadata>`.
pub open spec fn s_meta_open() -> Seq<u8> {
    seq![60u8, 109u8, 101u8, 116u8, 97u8, 100u8, 97u8, 116u8, 97u8, 62u8]
}

/// Builds the bytes of `<metadata>`.
pub fn v_meta_open() -> (r: Vec<u8>)
    ensures
        r@ == s_meta_open(),
{
    let mut v: Vec<u8> = Vec::new();
    v.push(60);
    v.push(109);
    v.push(101);
    v.push(116);
    v.push(97);
    v.push(100);
    v.push(97);
    v.push(116);
    v.push(97);
    v.push(62);
    proof {
        assert(v@ =~= s_meta_open());
    }
    v
}

/// The bytes of `</metadata>`.
pub open spec fn s_meta_close() -> Seq<u8> {
    seq![60u8, 47u8, 109u8, 101u8, 116u8, 97u8, 100u8, 97u8, 116u8, 97u8, 62u8]
}

/// Builds the bytes of `</metadata>`.
pub fn v_meta_close() -> (r: Vec<u8>)
    ensures
        r@ == s_meta_close(),
{
    let mut v: Vec<u8> = Vec::new();
    v.push(60);
    v.push(47);
    v.push(109);
    v.push(101);
    v.push(116);
    v.push(97);
    v.push(100);
    v.push(97);
    v.push(116);
    v.push(97);
    v.push(62);
    proof {
        assert(v@ =~= s_meta_close());
    }
    v
}

/// The bytes of `<name>`.
pub open spec fn s_name_o() -> Seq<u8> {
    seq![60u8, 110u8, 97u8, 109u8, 101u8, 62u8]
}

/// Builds the bytes of `<name>`.
pub fn v_name_o() -> (r: Vec<u8>)
    ensures
        r@ == s_name_o(),
{
    let mut v: Vec<u8> = Vec::new();
    v.push(60);
    v.push(110);
    v.push(97);
    v.push(109);
    v.push(101);
    v.push(62);
    proof {
        assert(v@ =~= s_name_o());
    }
    v
}

/// The bytes of `</name>`.
pub open spec fn s_name_c() -> Seq<u8> {
    seq![60u8, 47u8, 110u8, 97u8, 109u8, 101u8, 62u8]
}

/// Builds the bytes of `</name>`.
pub fn v_name_c() -> (r: Vec<u8>)
    ensures
        r@ == s_name_c(),
{
    let mut v: Vec<u8> = Vec::new();
    v.push(60);
    v.push(47);
    v.push(110);
    v.push(97);
    v.push(109);
    v.push(101);
    v.push(62);
    proof {
        assert(v@ =~= s_name_c());
    }
    v
}

/// The bytes of `<description>`.
pub open spec fn s_desc_o() -> Seq<u8> {
    seq![60u8, 100u8, 101u8, 115u8, 99u8, 114u8, 105u8, 112u8, 116u8, 105u8, 111u8, 110u8, 62u8]
}

/// Builds the bytes of `<description>`.
pub fn v_desc_o() -> (r: Vec<u8>)
    ensures
        r@ == s_desc_o(),
{
    let mut v: Vec<u8> = Vec::new();
    v.push(60);
    v.push(100);
    v.push(101);
    v.push(115);
    v.push(99);
    v.push(114);
    v.push(105);
    v.push(112);
    v.push(116);
    v.push(105);
    v.push(111);
    v.push(110);
    v.push(62);
    proof {
        assert(v@ =~= s_desc_o());
    }
    v
}

/// The bytes of `</description>`.
pub open spec fn s_desc_c() -> Seq<u8> {
    seq![60u8, 47u8, 100u8, 101u8, 115u8, 99u8, 114u8, 105u8, 112u8, 116u8, 105u8, 111u8, 110u8, 62u8]
}

/// Builds the bytes of `</description>`.
pub fn v_desc_c() -> (r: Vec<u8>)
    ensures
        r@ == s_desc_c(),
{
    let mut v: Vec<u8> = Vec::new();
    v.push(60);
    v.push(47);
    v.push(100);
    v.push(101);
    v.push(115);
    v.push(99);
    v.push(114);
    v.push(105);
    v.push(112);
    v.push(116);
    v.push(105);
    v.push(111);
    v.push(110);
    v.push(62);
    proof {
        assert(v@ =~= s_desc_c());
    }
    v
}

/// The bytes of `<language>`.
pub open spec fn s_lang_o() -> Seq<u8> {
    seq![60u8, 108u8, 97u8, 110u8, 103u8, 117u8, 97u8, 103u8, 101u8, 62u8]
}

/// Builds the bytes of `<language>`.
pub fn v_lang_o() -> (r: Vec<u8>)
    ensures
        r@ == s_lang_o(),
{
    let mut v: Vec<u8> = Vec::new();
    v.push(60);
    v.push(108);
    v.push(97);
    v.push(110);
    v.push(103);
    v.push(117);
    v.push(97);
    v.push(103);
    v.push(101);
    v.push(62);
    proof {
        assert(v@ =~= s_lang_o());
    }
    v
}

/// The bytes of `</language>`.
pub open spec fn s_lang_c() -> Seq<u8> {
    seq![60u8, 47u8, 108u8, 97u8, 110u8, 103u8, 117u8, 97u8, 103u8, 101u8, 62u8]
}

/// Builds the bytes of `</language>`.
pub fn v_lang_c() -> (r: Vec<u8>)
    ensures
        r@ == s_lang_c(),
{
    let mut v: Vec<u8> = Vec::new();
    v.push(60);
    v.push(47);
    v.push(108);
    v.push(97);
    v.push(110);
    v.push(103);
    v.push(117);
    v.push(97);
    v.push(103);
    v.push(101);
    v.push(62);
    proof {
        assert(v@ =~= s_lang_c());
    }
    v
}

/// The bytes of `<created>`.
pub open spec fn s_created_o() -> Seq<u8> {
    seq![60u8, 99u8, 114u8, 101u8, 97u8, 116u8, 101u8, 100u8, 62u8]
}

/// Builds the bytes of `<created>`.
pub fn v_created_o() -> (r: Vec<u8>)
    ensures
        r@ == s_created_o(),
{
    let mut v: Vec<u8> = Vec::new();
    v.push(60);
    v.push(99);
    v.push(114);
    v.push(101);
    v.push(97);
    v.push(116);
    v.push(101);
    v.push(100);
    v.push(62);
    proof {
        assert(v@ =~= s_created_o());
    }
    v
}

/// The bytes of `</created>`.
pub open spec fn s_created_c() -> Seq<u8> {
    seq![60u8, 47u8, 99u8, 114u8, 101u8, 97u8, 116u8, 101u8, 100u8, 62u8]
}

/// Builds the bytes of `</created>`.
pub fn v_created_c() -> (r: Vec<u8>)
    ensures
        r@ == s_created_c(),
{
    let mut v: Vec<u8> = Vec::new();
    v.push(60);
    v.push(47);
    v.push(99);
    v.push(114);
    v.push(101);
    v.push(97);
    v.push(116);
    v.push(101);
    v.push(100);
    v.push(62);
    proof {
        assert(v@ =~= s_created_c());
    }
    v
}

/// The bytes of `<modified>`.
pub open spec fn s_modified_o() -> Seq<u8> {
    seq![60u8, 109u8, 111u8, 100u8, 105u8, 102u8, 105u8, 101u8, 100u8, 62u8]
}

/// Builds the bytes of `<modified>`.
pub fn v_modified_o() -> (r: Vec<u8>)
    ensures
        r@ == s_modified_o(),
{
    let mut v: Vec<u8> = Vec::new();
    v.push(60);
    v.push(109);
    v.push(111);
    v.push(100);
    v.push(105);
    v.push(102);
    v.push(105);
    v.push(101);
    v.push(100);
    v.push(62);
    proof {
        assert(v@ =~= s_modified_o());
    }
    v
}

/// The bytes of `</modified>`.
pub open spec fn s_modified_c() -> Seq<u8> {
    seq![60u8, 47u8, 109u8, 111u8, 100u8, 105u8, 102u8, 105u8, 101u8, 100u8, 62u8]
}

/// Builds the bytes of `</modified>`.
pub fn v_modified_c() -> (r: Vec<u8>)
    ensures
        r@ == s_modified_c(),
{
    let mut v: Vec<u8> = Vec::new();
    v.push(60);
    v.push(47);
    v.push(109);
    v.push(111);
    v.push(100);
    v.push(105);
    v.push(102);
    v.push(105);
    v.push(101);
    v.push(100);
    v.push(62);
    proof {
        assert(v@ =~= s_modified_c());
    }
    v
}

/// The bytes of `<checks>`.
pub open spec fn s_checks_o() -> Seq<u8> {
    seq![60u8, 99u8, 104u8, 101u8, 99u8, 107u8, 115u8, 62u8]
}

/// Builds the bytes of `<checks>`.
pub fn v_checks_o() -> (r: Vec<u8>)
    ensures
        r@ == s_checks_o(),
{
    let mut v: Vec<u8> = Vec::new();
    v.push(60);
    v.push(99);
    v.push(104);
    v.push(101);
    v.push(99);
    v.push(107);
    v.push(115);
    v.push(62);
    proof {
        assert(v@ =~= s_checks_o());
    }
    v
}

/// The bytes of `</checks>`.
pub open spec fn s_checks_c() -> Seq<u8> {
    seq![60u8, 47u8, 99u8, 104u8, 101u8, 99u8, 107u8, 115u8, 62u8]
}

/// Builds the bytes of `</checks>`.
pub fn v_checks_c() -> (r: Vec<u8>)
    ensures
        r@ == s_checks_c(),
{
    let mut v: Vec<u8> = Vec::new();
    v.push(60);
    v.push(47);
    v.push(99);
    v.push(104);
    v.push(101);
    v.push(99);
    v.push(107);
    v.push(115);
    v.push(62);
    proof {
        assert(v@ =~= s_checks_c());
    }
    v
}

/// The bytes of `<check order=\"`.
pub open spec fn s_check_o() -> Seq<u8> {
    seq![60u8, 99u8, 104u8, 101u8, 99u8, 107u8, 32u8, 111u8, 114u8, 100u8, 101u8, 114u8, 61u8, 34u8]
}

/// Builds the bytes of `<check order=\"`.
pub fn v_check_o() -> (r: Vec<u8>)
    ensures
        r@ == s_check_o(),
{
    let mut v: Vec<u8> = Vec::new();
    v.push(60);
    v.push(99);
    v.push(104);
    v.push(101);
    v.push(99);
    v.push(107);
    v.push(32);
    v.push(111);
    v.push(114);
    v.push(100);
    v.push(101);
    v.push(114);
    v.push(61);
    v.push(34);
    proof {
        assert(v@ =~= s_check_o());
    }
    v
}

/// The bytes of `\" enabled=\"`.
pub open spec fn s_check_mid() -> Seq<u8> {
    seq![34u8, 32u8, 101u8, 110u8, 97u8, 98u8, 108u8, 101u8, 100u8, 61u8, 34u8]
}

/// Builds the bytes of `\" enabled=\"`.
pub fn v_check_mid() -> (r: Vec<u8>)
    ensures
        r@ == s_check_mid(),
{
    let mut v: Vec<u8> = Vec::new();
    v.push(34);
    v.push(32);
    v.push(101);
    v.push(110);
    v.push(97);
    v.push(98);
    v.push(108);
    v.push(101);
    v.push(100);
    v.push(61);
    v.push(34);
    proof {
        assert(v@ =~= s_check_mid());
    }
    v
}

/// The bytes of `\">`.
pub open spec fn s_check_tail() -> Seq<u8> {
    seq![34u8, 62u8]
}

/// Builds the bytes of `\">`.
pub fn v_check_tail() -> (r: Vec<u8>)
    ensures
        r@ == s_check_tail(),
{
    let mut v: Vec<u8> = Vec::new();
    v.push(34);
    v.push(62);
    proof {
        assert(v@ =~= s_check_tail());
    }
    v
}

/// The bytes of `</check>`.
pub open spec fn s_check_c() -> Seq<u8> {
    seq![60u8, 47u8, 99u8, 104u8, 101u8, 99u8, 107u8, 62u8]
}

/// Builds the bytes of `</check>`.
pub fn v_check_c() -> (r: Vec<u8>)
    ensures
        r@ == s_check_c(),
{
    let mut v: Vec<u8> = Vec::new();
    v.push(60);
    v.push(47);
    v.push(99);
    v.push(104);
    v.push(101);
    v.push(99);
    v.push(107);
    v.push(62);
    proof {
        assert(v@ =~= s_check_c());
    }
    v
}

/// The bytes of `<check `.
pub open spec fn s_check_find() -> Seq<u8> {
    seq![60u8, 99u8, 104u8, 101u8, 99u8, 107u8, 32u8]
}

/// Builds the bytes of `<check `.
pub fn v_check_find() -> (r: Vec<u8>)
    ensures
        r@ == s_check_find(),
{
    let mut v: Vec<u8> = Vec::new();
    v.push(60);
    v.push(99);
    v.push(104);
    v.push(101);
    v.push(99);
    v.push(107);
    v.push(32);
    proof {
        assert(v@ =~= s_check_find());
    }
    v
}

/// The bytes of `>`.
pub open spec fn s_gt() -> Seq<u8> {
    seq![62u8]
}

/// Builds the bytes of `>`.
pub fn v_gt() -> (r: Vec<u8>)
    ensures
        r@ == s_gt(),
{
    let mut v: Vec<u8> = Vec::new();
    v.push(62);
    proof {
        assert(v@ =~= s_gt());
    }
    v
}

/// The bytes of `\"`.
pub open spec fn s_quote() -> Seq<u8> {
    seq![34u8]
}

/// Builds the bytes of `\"`.
pub fn v_quote() -> (r: Vec<u8>)
    ensures
        r@ == s_quote(),
{
    let mut v: Vec<u8> = Vec::new();
    v.push(34);
    proof {
        assert(v@ =~= s_quote());
    }
    v
}

/// The bytes of `<pattern>`.
pub open spec fn s_pattern_o() -> Seq<u8> {
    seq![60u8, 112u8, 97u8, 116u8, 116u8, 101u8, 114u8, 110u8, 62u8]
}

/// Builds the bytes of `<pattern>`.
pub fn v_pattern_o() -> (r: Vec<u8>)
    ensures
        r@ == s_pattern_o(),
{
    let mut v: Vec<u8> = Vec::new();
    v.push(60);
    v.push(112);
    v.push(97);
    v.push(116);
    v.push(116);
    v.push(101);
    v.push(114);
    v.push(110);
    v.push(62);
    proof {
        assert(v@ =~= s_pattern_o());
    }
    v
}

/// The bytes of `</pattern>`.
pub open spec fn s_pattern_c() -> Seq<u8> {
    seq![60u8, 47u8, 112u8, 97u8, 116u8, 116u8, 101u8, 114u8, 110u8, 62u8]
}

/// Builds the bytes of `</pattern>`.
pub fn v_pattern_c() -> (r: Vec<u8>)
    ensures
        r@ == s_pattern_c(),
{
    let mut v: Vec<u8> = Vec::new();
    v.push(60);
    v.push(47);
    v.push(112);
    v.push(97);
    v.push(116);
    v.push(116);
    v.push(101);
    v.push(114);
    v.push(110);
    v.push(62);
    proof {
        assert(v@ =~= s_pattern_c());
    }
    v
}

/// The bytes of `<replacement>`.
pub open spec fn s_repl_o() -> Seq<u8> {
    seq![60u8, 114u8, 101u8, 112u8, 108u8, 97u8, 99u8, 101u8, 109u8, 101u8, 110u8, 116u8, 62u8]
}

/// Builds the bytes of `<replacement>`.
pub fn v_repl_o() -> (r: Vec<u8>)
    ensures
        r@ == s_repl_o(),
{
    let mut v: Vec<u8> = Vec::new();
    v.push(60);
    v.push(114);
    v.push(101);
    v.push(112);
    v.push(108);
    v.push(97);
    v.push(99);
    v.push(101);
    v.push(109);
    v.push(101);
    v.push(110);
    v.push(116);
    v.push(62);
    proof {
        assert(v@ =~= s_repl_o());
    }
    v
}

/// The bytes of `</replacement>`.
pub open spec fn s_repl_c() -> Seq<u8> {
    seq![60u8, 47u8, 114u8, 101u8, 112u8, 108u8, 97u8, 99u8, 101u8, 109u8, 101u8, 110u8, 116u8, 62u8]
}

/// Builds the bytes of `</replacement>`.
pub fn v_repl_c() -> (r: Vec<u8>)
    ensures
        r@ == s_repl_c(),
{
    let mut v: Vec<u8> = Vec::new();
    v.push(60);
    v.push(47);
    v.push(114);
    v.push(101);
    v.push(112);
    v.push(108);
    v.push(97);
    v.push(99);
    v.push(101);
    v.push(109);
    v.push(101);
    v.push(110);
    v.push(116);
    v.push(62);
    proof {
        assert(v@ =~= s_repl_c());
    }
    v
}

/// The bytes of `<category>`.
pub open spec fn s_cat_o() -> Seq<u8> {
    seq![60u8, 99u8, 97u8, 116u8, 101u8, 103u8, 111u8, 114u8, 121u8, 62u8]
}

/// Builds the bytes of `<category>`.
pub fn v_cat_o() -> (r: Vec<u8>)
    ensures
        r@ == s_cat_o(),
{
    let mut v: Vec<u8> = Vec::new();
    v.push(60);
    v.push(99);
    v.push(97);
    v.push(116);
    v.push(101);
    v.push(103);
    v.push(111);
    v.push(114);
    v.push(121);
    v.push(62);
    proof {
        assert(v@ =~= s_cat_o());
    }
    v
}

/// The bytes of `</category>`.
pub open spec fn s_cat_c() -> Seq<u8> {
    seq![60u8, 47u8, 99u8, 97u8, 116u8, 101u8, 103u8, 111u8, 114u8, 121u8, 62u8]
}

/// Builds the bytes of `</category>`.
pub fn v_cat_c() -> (r: Vec<u8>)
    ensures
        r@ == s_cat_c(),
{
    let mut v: Vec<u8> = Vec::new();
    v.push(60);
    v.push(47);
    v.push(99);
    v.push(97);
    v.push(116);
    v.push(101);
    v.push(103);
    v.push(111);
    v.push(114);
    v.push(121);
    v.push(62);
    proof {
        assert(v@ =~= s_cat_c());
    }
    v
}

/// The bytes of `<case_sensitive>`.
pub open spec fn s_cs_o() -> Seq<u8> {
    seq![60u8, 99u8, 97u8, 115u8, 101u8, 95u8, 115u8, 101u8, 110u8, 115u8, 105u8, 116u8, 105u8, 118u8, 101u8, 62u8]
}

/// Builds the bytes of `<case_sensitive>`.
pub fn v_cs_o() -> (r: Vec<u8>)
    ensures
        r@ == s_cs_o(),
{
    let mut v: Vec<u8> = Vec::new();
    v.push(60);
    v.push(99);
    v.push(97);
    v.push(115);
    v.push(101);
    v.push(95);
    v.push(115);
    v.push(101);
    v.push(110);
    v.push(115);
    v.push(105);
    v.push(116);
    v.push(105);
    v.push(118);
    v.push(101);
    v.push(62);
    proof {
        assert(v@ =~= s_cs_o());
    }
    v
}

/// The bytes of `</case_sensitive>`.
pub open spec fn s_cs_c() -> Seq<u8> {
    seq![60u8, 47u8, 99u8, 97u8, 115u8, 101u8, 95u8, 115u8, 101u8, 110u8, 115u8, 105u8, 116u8, 105u8, 118u8, 101u8, 62u8]
}

/// Builds the bytes of `</case_sensitive>`.
pub fn v_cs_c() -> (r: Vec<u8>)
    ensures
        r@ == s_cs_c(),
{
    let mut v: Vec<u8> = Vec::new();
    v.push(60);
    v.push(47);
    v.push(99);
    v.push(97);
    v.push(115);
    v.push(101);
    v.push(95);
    v.push(115);
    v.push(101);
    v.push(110);
    v.push(115);
    v.push(105);
    v.push(116);
    v.push(105);
    v.push(118);
    v.push(101);
    v.push(62);
    proof {
        assert(v@ =~= s_cs_c());
    }
    v
}

/// The bytes of `<exclude_pattern>`.
pub open spec fn s_ex_o() -> Seq<u8> {
    seq![60u8, 101u8, 120u8, 99u8, 108u8, 117u8, 100u8, 101u8, 95u8, 112u8, 97u8, 116u8, 116u8, 101u8, 114u8, 110u8, 62u8]
}

/// Builds the bytes of `<exclude_pattern>`.
pub fn v_ex_o() -> (r: Vec<u8>)
    ensures
        r@ == s_ex_o(),
{
    let mut v: Vec<u8> = Vec::new();
    v.push(60);
    v.push(101);
    v.push(120);
    v.push(99);
    v.push(108);
    v.push(117);
    v.push(100);
    v.push(101);
    v.push(95);
    v.push(112);
    v.push(97);
    v.push(116);
    v.push(116);
    v.push(101);
    v.push(114);
    v.push(110);
    v.push(62);
    proof {
        assert(v@ =~= s_ex_o());
    }
    v
}

/// The bytes of `</exclude_pattern>`.
pub open spec fn s_ex_c() -> Seq<u8> {
    seq![60u8, 47u8, 101u8, 120u8, 99u8, 108u8, 117u8, 100u8, 101u8, 95u8, 112u8, 97u8, 116u8, 116u8, 101u8, 114u8, 110u8, 62u8]
}

/// Builds the bytes of `</exclude_pattern>`.
pub fn v_ex_c() -> (r: Vec<u8>)
    ensures
        r@ == s_ex_c(),
{
    let mut v: Vec<u8> = Vec::new();
    v.push(60);
    v.push(47);
    v.push(101);
    v.push(120);
    v.push(99);
    v.push(108);
    v.push(117);
    v.push(100);
    v.push(101);
    v.push(95);
    v.push(112);
    v.push(97);
    v.push(116);
    v.push(116);
    v.push(101);
    v.push(114);
    v.push(110);
    v.push(62);
    proof {
        assert(v@ =~= s_ex_c());
    }
    v
}

/// The bytes of `true`.
pub open spec fn s_true_lit() -> Seq<u8> {
    seq![116u8, 114u8, 117u8, 101u8]
}

/// Builds the bytes of `true`.
pub fn v_true_lit() -> (r: Vec<u8>)
    ensures
        r@ == s_true_lit(),
{
    let mut v: Vec<u8> = Vec::new();
    v.push(116);
    v.push(114);
    v.push(117);
    v.push(101);
    proof {
        assert(v@ =~= s_true_lit());
    }
    v
}

/// The bytes of `false`.
pub open spec fn s_false_lit() -> Seq<u8> {
    seq![102u8, 97u8, 108u8, 115u8, 101u8]
}

/// Builds the bytes of `false`.
pub fn v_false_lit() -> (r: Vec<u8>)
    ensures
        r@ == s_false_lit(),
{
    let mut v: Vec<u8> = Vec::new();
    v.push(102);
    v.push(97);
    v.push(108);
    v.push(115);
    v.push(101);
    proof {
        assert(v@ =~= s_false_lit());
    }
    v
}

/// The bytes of `order=\"`.
pub open spec fn s_order_attr() -> Seq<u8> {
    seq![111u8, 114u8, 100u8, 101u8, 114u8, 61u8, 34u8]
}

/// Builds the bytes of `order=\"`.
pub fn v_order_attr() -> (r: Vec<u8>)
    ensures
        r@ == s_order_attr(),
{
    let mut v: Vec<u8> = Vec::new();
    v.push(111);
    v.push(114);
    v.push(100);
    v.push(101);
    v.push(114);
    v.push(61);
    v.push(34);
    proof {
        assert(v@ =~= s_order_attr());
    }
    v
}

/// The bytes of `enabled=\"`.
pub open spec fn s_enabled_attr() -> Seq<u8> {
    seq![101u8, 110u8, 97u8, 98u8, 108u8, 101u8, 100u8, 61u8, 34u8]
}

/// Builds the bytes of `enabled=\"`.
pub fn v_enabled_attr() -> (r: Vec<u8>)
    ensures
        r@ == s_enabled_attr(),
{
    let mut v: Vec<u8> = Vec::new();
    v.push(101);
    v.push(110);
    v.push(97);
    v.push(98);
    v.push(108);
    v.push(101);
    v.push(100);
    v.push(61);
    v.push(34);
    proof {
        assert(v@ =~= s_enabled_attr());
    }
    v
}

/// The bytes of `<regex-library>`.
pub open spec fn s_lib_open() -> Seq<u8> {
    seq![60u8, 114u8, 101u8, 103u8, 101u8, 120u8, 45u8, 108u8, 105u8, 98u8, 114u8, 97u8, 114u8, 121u8, 62u8]
}

/// Builds the bytes of `<regex-library>`.
pub fn v_lib_open() -> (r: Vec<u8>)
    ensures
        r@ == s_lib_open(),
{
    let mut v: Vec<u8> = Vec::new();
    v.push(60);
    v.push(114);
    v.push(101);
    v.push(103);
    v.push(101);
    v.push(120);
    v.push(45);
    v.push(108);
    v.push(105);
    v.push(98);
    v.push(114);
    v.push(97);
    v.push(114);
    v.push(121);
    v.push(62);
    proof {
        assert(v@ =~= s_lib_open());
    }
    v
}

/// The bytes of `</regex-library>`.
pub open spec fn s_lib_close() -> Seq<u8> {
    seq![60u8, 47u8, 114u8, 101u8, 103u8, 101u8, 120u8, 45u8, 108u8, 105u8, 98u8, 114u8, 97u8, 114u8, 121u8, 62u8]
}

/// Builds the bytes of `</regex-library>`.
pub fn v_lib_close() -> (r: Vec<u8>)
    ensures
        r@ == s_lib_close(),
{
    let mut v: Vec<u8> = Vec::new();
    v.push(60);
    v.push(47);
    v.push(114);
    v.push(101);
    v.push(103);
    v.push(101);
    v.push(120);
    v.push(45);
    v.push(108);
    v.push(105);
    v.push(98);
    v.push(114);
    v.push(97);
    v.push(114);
    v.push(121);
    v.push(62);
    proof {
        assert(v@ =~= s_lib_close());
    }
    v
}

/// The bytes of `<category name=\"`.
pub open spec fn s_lcat_o() -> Seq<u8> {
    seq![60u8, 99u8, 97u8, 116u8, 101u8, 103u8, 111u8, 114u8, 121u8, 32u8, 110u8, 97u8, 109u8, 101u8, 61u8, 34u8]
}

/// Builds the bytes of `<category name=\"`.
pub fn v_lcat_o() -> (r: Vec<u8>)
    ensures
        r@ == s_lcat_o(),
{
    let mut v: Vec<u8> = Vec::new();
    v.push(60);
    v.push(99);
    v.push(97);
    v.push(116);
    v.push(101);
    v.push(103);
    v.push(111);
    v.push(114);
    v.push(121);
    v.push(32);
    v.push(110);
    v.push(97);
    v.push(109);
    v.push(101);
    v.push(61);
    v.push(34);
    proof {
        assert(v@ =~= s_lcat_o());
    }
    v
}

/// The bytes of `\">`.
pub open spec fn s_lcat_mid() -> Seq<u8> {
    seq![34u8, 62u8]
}

/// Builds the bytes of `\">`.
pub fn v_lcat_mid() -> (r: Vec<u8>)
    ensures
        r@ == s_lcat_mid(),
{
    let mut v: Vec<u8> = Vec::new();
    v.push(34);
    v.push(62);
    proof {
        assert(v@ =~= s_lcat_mid());
    }
    v
}

/// The bytes of `</category>`.
pub open spec fn s_lcat_c() -> Seq<u8> {
    seq![60u8, 47u8, 99u8, 97u8, 116u8, 101u8, 103u8, 111u8, 114u8, 121u8, 62u8]
}

/// Builds the bytes of `</category>`.
pub fn v_lcat_c() -> (r: Vec<u8>)
    ensures
        r@ == s_lcat_c(),
{
    let mut v: Vec<u8> = Vec::new();
    v.push(60);
    v.push(47);
    v.push(99);
    v.push(97);
    v.push(116);
    v.push(101);
    v.push(103);
    v.push(111);
    v.push(114);
    v.push(121);
    v.push(62);
    proof {
        assert(v@ =~= s_lcat_c());
    }
    v
}

/// The bytes of `<category `.
pub open spec fn s_lcat_find() -> Seq<u8> {
    seq![60u8, 99u8, 97u8, 116u8, 101u8, 103u8, 111u8, 114u8, 121u8, 32u8]
}

/// Builds the bytes of `<category `.
pub fn v_lcat_find() -> (r: Vec<u8>)
    ensures
        r@ == s_lcat_find(),
{
    let mut v: Vec<u8> = Vec::new();
    v.push(60);
    v.push(99);
    v.push(97);
    v.push(116);
    v.push(101);
    v.push(103);
    v.push(111);
    v.push(114);
    v.push(121);
    v.push(32);
    proof {
        assert(v@ =~= s_lcat_find());
    }
    v
}

/// The bytes of `<entry>`.
pub open spec fn s_entry_o() -> Seq<u8> {
    seq![60u8, 101u8, 110u8, 116u8, 114u8, 121u8, 62u8]
}

/// Builds the bytes of `<entry>`.
pub fn v_entry_o() -> (r: Vec<u8>)
    ensures
        r@ == s_entry_o(),
{
    let mut v: Vec<u8> = Vec::new();
    v.push(60);
    v.push(101);
    v.push(110);
    v.push(116);
    v.push(114);
    v.push(121);
    v.push(62);
    proof {
        assert(v@ =~= s_entry_o());
    }
    v
}

/// The bytes of `</entry>`.
pub open spec fn s_entry_c() -> Seq<u8> {
    seq![60u8, 47u8, 101u8, 110u8, 116u8, 114u8, 121u8, 62u8]
}

/// Builds the bytes of `</entry>`.
pub fn v_entry_c() -> (r: Vec<u8>)
    ensures
        r@ == s_entry_c(),
{
    let mut v: Vec<u8> = Vec::new();
    v.push(60);
    v.push(47);
    v.push(101);
    v.push(110);
    v.push(116);
    v.push(114);
    v.push(121);
    v.push(62);
    proof {
        assert(v@ =~= s_entry_c());
    }
    v
}

/// The bytes of `<replace>`.
pub open spec fn s_replace_o() -> Seq<u8> {
    seq![60u8, 114u8, 101u8, 112u8, 108u8, 97u8, 99u8, 101u8, 62u8]
}

/// Builds the bytes of `<replace>`.
pub fn v_replace_o() -> (r: Vec<u8>)
    ensures
        r@ == s_replace_o(),
{
    let mut v: Vec<u8> = Vec::new();
    v.push(60);
    v.push(114);
    v.push(101);
    v.push(112);
    v.push(108);
    v.push(97);
    v.push(99);
    v.push(101);
    v.push(62);
    proof {
        assert(v@ =~= s_replace_o());
    }
    v
}

/// The bytes of `</replace>`.
pub open spec fn s_replace_c() -> Seq<u8> {
    seq![60u8, 47u8, 114u8, 101u8, 112u8, 108u8, 97u8, 99u8, 101u8, 62u8]
}

/// Builds the bytes of `</replace>`.
pub fn v_replace_c() -> (r: Vec<u8>)
    ensures
        r@ == s_replace_c(),
{
    let mut v: Vec<u8> = Vec::new();
    v.push(60);
    v.push(47);
    v.push(114);
    v.push(101);
    v.push(112);
    v.push(108);
    v.push(97);
    v.push(99);
    v.push(101);
    v.push(62);
    proof {
        assert(v@ =~= s_replace_c());
    }
    v
}

/// The bytes of `name=\"`.
pub open spec fn s_name_attr() -> Seq<u8> {
    seq![110u8, 97u8, 109u8, 101u8, 61u8, 34u8]
}

/// Builds the bytes of `name=\"`.
pub fn v_name_attr() -> (r: Vec<u8>)
    ensures
        r@ == s_name_attr(),
{
    let mut v: Vec<u8> = Vec::new();
    v.push(110);
    v.push(97);
    v.push(109);
    v.push(101);
    v.push(61);
    v.push(34);
    proof {
        assert(v@ =~= s_name_attr());
    }
    v
}

/// The bytes of `Uncategorized`.
pub open spec fn s_uncat() -> Seq<u8> {
    seq![85u8, 110u8, 99u8, 97u8, 116u8, 101u8, 103u8, 111u8, 114u8, 105u8, 122u8, 101u8, 100u8]
}

/// Builds the bytes of `Uncategorized`.
pub fn v_uncat() -> (r: Vec<u8>)
    ensures
        r@ == s_uncat(),
{
    let mut v: Vec<u8> = Vec::new();
    v.push(85);
    v.push(110);
    v.push(99);
    v.push(97);
    v.push(116);
    v.push(101);
    v.push(103);
    v.push(111);
    v.push(114);
    v.push(105);
    v.push(122);
    v.push(101);
    v.push(100);
    proof {
        assert(v@ =~= s_uncat());
    }
    v
}

/// The bytes of `Tegnsetting`.
pub open spec fn s_cat1() -> Seq<u8> {
    seq![84u8, 101u8, 103u8, 110u8, 115u8, 101u8, 116u8, 116u8, 105u8, 110u8, 103u8]
}

/// Builds the bytes of `Tegnsetting`.
pub fn v_cat1() -> (r: Vec<u8>)
    ensures
        r@ == s_cat1(),
{
    let mut v: Vec<u8> = Vec::new();
    v.push(84);
    v.push(101);
    v.push(103);
    v.push(110);
    v.push(115);
    v.push(101);
    v.push(116);
    v.push(116);
    v.push(105);
    v.push(110);
    v.push(103);
    proof {
        assert(v@ =~= s_cat1());
    }
    v
}

/// The bytes of `Harde mellomrom`.
pub open spec fn s_cat2() -> Seq<u8> {
    seq![72u8, 97u8, 114u8, 100u8, 101u8, 32u8, 109u8, 101u8, 108u8, 108u8, 111u8, 109u8, 114u8, 111u8, 109u8]
}

/// Builds the bytes of `Harde mellomrom`.
pub fn v_cat2() -> (r: Vec<u8>)
    ensures
        r@ == s_cat2(),
{
    let mut v: Vec<u8> = Vec::new();
    v.push(72);
    v.push(97);
    v.push(114);
    v.push(100);
    v.push(101);
    v.push(32);
    v.push(109);
    v.push(101);
    v.push(108);
    v.push(108);
    v.push(111);
    v.push(109);
    v.push(114);
    v.push(111);
    v.push(109);
    proof {
        assert(v@ =~= s_cat2());
    }
    v
}

/// The bytes of `Tall/tallformatering`.
pub open spec fn s_cat3() -> Seq<u8> {
    seq![84u8, 97u8, 108u8, 108u8, 47u8, 116u8, 97u8, 108u8, 108u8, 102u8, 111u8, 114u8, 109u8, 97u8, 116u8, 101u8, 114u8, 105u8, 110u8, 103u8]
}

/// Builds the bytes of `Tall/tallformatering`.
pub fn v_cat3() -> (r: Vec<u8>)
    ensures
        r@ == s_cat3(),
{
    let mut v: Vec<u8> = Vec::new();
    v.push(84);
    v.push(97);
    v.push(108);
    v.push(108);
    v.push(47);
    v.push(116);
    v.push(97);
    v.push(108);
    v.push(108);
    v.push(102);
    v.push(111);
    v.push(114);
    v.push(109);
    v.push(97);
    v.push(116);
    v.push(101);
    v.push(114);
    v.push(105);
    v.push(110);
    v.push(103);
    proof {
        assert(v@ =~= s_cat3());
    }
    v
}

/// The bytes of `Spesialtegn`.
pub open spec fn s_cat4() -> Seq<u8> {
    seq![83u8, 112u8, 101u8, 115u8, 105u8, 97u8, 108u8, 116u8, 101u8, 103u8, 110u8]
}

/// Builds the bytes of `Spesialtegn`.
pub fn v_cat4() -> (r: Vec<u8>)
    ensures
        r@ == s_cat4(),
{
    let mut v: Vec<u8> = Vec::new();
    v.push(83);
    v.push(112);
    v.push(101);
    v.push(115);
    v.push(105);
    v.push(97);
    v.push(108);
    v.push(116);
    v.push(101);
    v.push(103);
    v.push(110);
    proof {
        assert(v@ =~= s_cat4());
    }
    v
}


/// The bytes of `_qa_profile.xml`.
pub open spec fn s_qa_suffix() -> Seq<u8> {
    seq![95u8, 113u8, 97u8, 95u8, 112u8, 114u8, 111u8, 102u8, 105u8, 108u8, 101u8, 46u8, 120u8, 109u8, 108u8]
}

/// Builds the bytes of `_qa_profile.xml`.
pub fn v_qa_suffix() -> (r: Vec<u8>)
    ensures
        r@ == s_qa_suffix(),
{
    let mut v: Vec<u8> = Vec::new();
    v.push(95);
    v.push(113);
    v.push(97);
    v.push(95);
    v.push(112);
    v.push(114);
    v.push(111);
    v.push(102);
    v.push(105);
    v.push(108);
    v.push(101);
    v.push(46);
    v.push(120);
    v.push(109);
    v.push(108);
    proof {
        assert(v@ =~= s_qa_suffix());
    }
    v
}


} // verus!
