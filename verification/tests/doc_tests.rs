use xliff_qa::library_doc::{assign_entry_ids, default_library, parse_regex_library, save_regex_library};
use xliff_qa::model::{PatternRule, Profile, RegexCategory, RegexEntry, RegexLibrary};
use xliff_qa::profile_doc::{load_qa_profile, profile_file_name, save_qa_profile};
use xliff_qa::text::{escape_xml, extract_xml_tag, unescape_xml};

fn sample_profile() -> Profile {
    Profile {
        name: b"Nordic QA <v1> & \"extras\"".to_vec(),
        description: b"checks 'spacing' & markup".to_vec(),
        language: b"nb-NO".to_vec(),
        created: 1700006400,
        modified: 1700092800,
        rules: vec![
            PatternRule {
                order: 1,
                enabled: true,
                name: b"double space".to_vec(),
                description: b"collapse <runs> of spaces".to_vec(),
                category: b"spacing & layout".to_vec(),
                pattern: b" {2,}".to_vec(),
                replacement: b" ".to_vec(),
                case_sensitive: false,
                exclude_pattern: Vec::new(),
            },
            PatternRule {
                order: 2,
                enabled: false,
                name: b"currency".to_vec(),
                description: b"\"EUR\" after the amount".to_vec(),
                category: b"numbers".to_vec(),
                pattern: b"EUR (\\d+)".to_vec(),
                replacement: b"${1} EUR".to_vec(),
                case_sensitive: true,
                exclude_pattern: b"&approx;".to_vec(),
            },
        ],
    }
}

fn assert_profiles_equal(a: &Profile, b: &Profile) {
    assert_eq!(a.name, b.name);
    assert_eq!(a.description, b.description);
    assert_eq!(a.language, b.language);
    assert_eq!(a.created, b.created);
    assert_eq!(a.modified, b.modified);
    assert_eq!(a.rules.len(), b.rules.len());
    for (x, y) in a.rules.iter().zip(b.rules.iter()) {
        assert_eq!(x.order, y.order);
        assert_eq!(x.enabled, y.enabled);
        assert_eq!(x.name, y.name);
        assert_eq!(x.description, y.description);
        assert_eq!(x.category, y.category);
        assert_eq!(x.pattern, y.pattern);
        assert_eq!(x.replacement, y.replacement);
        assert_eq!(x.case_sensitive, y.case_sensitive);
        assert_eq!(x.exclude_pattern, y.exclude_pattern);
    }
}

#[test]
fn profile_round_trips_through_its_document() {
    let p = sample_profile();
    let doc = save_qa_profile(&p);
    let back = load_qa_profile(&doc).expect("emitted profile must load");
    assert_profiles_equal(&p, &back);
}

#[test]
fn loading_re_sorts_rules_by_order() {
    let mut p = sample_profile();
    p.rules.reverse();
    let doc = save_qa_profile(&p);
    let back = load_qa_profile(&doc).expect("emitted profile must load");
    assert_eq!(back.rules[0].order, 1);
    assert_eq!(back.rules[1].order, 2);
}

#[test]
fn load_defaults_missing_optional_fields() {
    let doc = b"<qa_profile><metadata><name>Min</name></metadata><checks>\
        <check order=\"3\" enabled=\"true\"><name>n</name><pattern>p</pattern>\
        </check></checks></qa_profile>"
        .to_vec();
    let p = load_qa_profile(&doc).expect("minimal profile must load");
    assert_eq!(p.name, b"Min".to_vec());
    assert_eq!(p.description, Vec::<u8>::new());
    assert_eq!(p.created, 0);
    assert_eq!(p.rules.len(), 1);
    let r = &p.rules[0];
    assert_eq!(r.order, 3);
    assert!(r.enabled);
    assert!(!r.case_sensitive);
    assert_eq!(r.exclude_pattern, Vec::<u8>::new());
    assert_eq!(r.replacement, Vec::<u8>::new());
}

#[test]
fn load_tolerates_indented_documents() {
    let doc = b"<?xml version=\"1.0\" encoding=\"UTF-8\"?>\n<qa_profile>\n  <metadata>\n    <name>Spaced</name>\n    <language>de-DE</language>\n  </metadata>\n  <checks>\n    <check order=\"1\" enabled=\"false\">\n      <name>r</name>\n      <pattern>x</pattern>\n      <case_sensitive>true</case_sensitive>\n    </check>\n  </checks>\n</qa_profile>\n"
        .to_vec();
    let p = load_qa_profile(&doc).expect("indented profile must load");
    assert_eq!(p.name, b"Spaced".to_vec());
    assert_eq!(p.language, b"de-DE".to_vec());
    assert_eq!(p.rules.len(), 1);
    assert!(!p.rules[0].enabled);
    assert!(p.rules[0].case_sensitive);
}

#[test]
fn load_reports_unterminated_check() {
    let doc = b"<qa_profile><metadata></metadata><checks><check order=\"1\" enabled=\"true\"><name>n</name>".to_vec();
    assert!(load_qa_profile(&doc).is_err());
}

#[test]
fn escape_xml_spells_out_the_five_reserved_bytes() {
    let s = b"a<b>&c\"d'e".to_vec();
    assert_eq!(escape_xml(&s), b"a&lt;b&gt;&amp;c&quot;d&apos;e".to_vec());
}

#[test]
fn unescape_xml_undoes_escape_xml() {
    let s = b"x & <tags> aren't \"special\" here".to_vec();
    let back = unescape_xml(&escape_xml(&s)).expect("escaped text must unescape");
    assert_eq!(back, s);
}

#[test]
fn unescape_xml_rejects_unknown_entities() {
    assert!(unescape_xml(&b"a&copy;b".to_vec()).is_none());
}

#[test]
fn extract_xml_tag_trims_display_metadata() {
    let xml = b"<metadata><name>\n   My profile  </name></metadata>".to_vec();
    let got = extract_xml_tag(&xml, &b"name".to_vec());
    assert_eq!(got, Some(b"My profile".to_vec()));
    assert_eq!(extract_xml_tag(&xml, &b"language".to_vec()), None);
}

#[test]
fn profile_file_name_lowercases_and_joins() {
    let name = b"Nordic QA Checks".to_vec();
    assert_eq!(profile_file_name(&name), b"nordic_qa_checks_qa_profile.xml".to_vec());
}

#[test]
fn default_library_has_the_four_starter_categories() {
    let l = default_library();
    let names: Vec<Vec<u8>> = l.categories.iter().map(|c| c.name.clone()).collect();
    assert_eq!(
        names,
        vec![
            b"Tegnsetting".to_vec(),
            b"Harde mellomrom".to_vec(),
            b"Tall/tallformatering".to_vec(),
            b"Spesialtegn".to_vec(),
        ]
    );
    assert!(l.categories.iter().all(|c| c.entries.is_empty()));
}

#[test]
fn library_round_trips_through_its_document() {
    let l = RegexLibrary {
        categories: vec![
            RegexCategory {
                name: b"Punctuation & spacing".to_vec(),
                entries: vec![RegexEntry {
                    id: b"unsaved-id".to_vec(),
                    name: b"ellipsis".to_vec(),
                    description: b"three dots -> one char".to_vec(),
                    pattern: b"\\.\\.\\.".to_vec(),
                    replace: b"\xe2\x80\xa6".to_vec(),
                    category: b"Punctuation & spacing".to_vec(),
                }],
            },
            RegexCategory { name: b"Empty".to_vec(), entries: vec![] },
        ],
    };
    let doc = save_regex_library(&l);
    let back = parse_regex_library(&doc).expect("emitted library must parse");
    assert_eq!(back.categories.len(), 2);
    assert_eq!(back.categories[0].name, b"Punctuation & spacing".to_vec());
    assert_eq!(back.categories[1].name, b"Empty".to_vec());
    let e = &back.categories[0].entries[0];
    assert_eq!(e.name, b"ellipsis".to_vec());
    assert_eq!(e.description, b"three dots -> one char".to_vec());
    assert_eq!(e.pattern, b"\\.\\.\\.".to_vec());
    assert_eq!(e.replace, b"\xe2\x80\xa6".to_vec());
    // The id is not persisted; an import assigns a fresh one.
    assert_eq!(e.id, Vec::<u8>::new());
    assert_eq!(e.category, b"Punctuation & spacing".to_vec());
}

#[test]
fn duplicate_category_names_are_kept_not_merged() {
    let l = RegexLibrary {
        categories: vec![
            RegexCategory { name: b"Twice".to_vec(), entries: vec![] },
            RegexCategory { name: b"Twice".to_vec(), entries: vec![] },
        ],
    };
    let doc = save_regex_library(&l);
    let back = parse_regex_library(&doc).expect("emitted library must parse");
    assert_eq!(back.categories.len(), 2);
    assert_eq!(back.categories[0].name, b"Twice".to_vec());
    assert_eq!(back.categories[1].name, b"Twice".to_vec());
}

#[test]
fn category_without_name_is_labelled_uncategorized() {
    let doc = b"<regex-library><category ><entry><name>n</name><description>d</description><pattern>p</pattern><replace>r</replace></entry></category></regex-library>".to_vec();
    let back = parse_regex_library(&doc).expect("library must parse");
    assert_eq!(back.categories[0].name, b"Uncategorized".to_vec());
    assert_eq!(back.categories[0].entries[0].category, b"Uncategorized".to_vec());
}

#[test]
fn import_assigns_fresh_ids_to_entries() {
    let doc = b"<regex-library><category name=\"C\"><entry><name>a</name><description>d</description><pattern>p</pattern><replace>r</replace></entry><entry><name>b</name><description>d</description><pattern>q</pattern><replace>s</replace></entry></category></regex-library>".to_vec();
    let parsed = parse_regex_library(&doc).expect("library must parse");
    let imported = assign_entry_ids(parsed);
    let es = &imported.categories[0].entries;
    assert_eq!(es.len(), 2);
    assert_eq!(es[0].id.len(), 36);
    assert_eq!(es[1].id.len(), 36);
    assert_ne!(es[0].id, es[1].id);
    assert_eq!(es[0].name, b"a".to_vec());
    assert_eq!(es[1].pattern, b"q".to_vec());
}

#[test]
fn empty_profile_round_trips() {
    let p = Profile {
        name: Vec::new(),
        description: Vec::new(),
        language: Vec::new(),
        created: 0,
        modified: 0,
        rules: Vec::new(),
    };
    let doc = save_qa_profile(&p);
    let back = load_qa_profile(&doc).expect("empty profile must load");
    assert_profiles_equal(&p, &back);
}

#[test]
fn negative_order_round_trips() {
    let mut p = sample_profile();
    p.rules[0].order = -7;
    let doc = save_qa_profile(&p);
    let back = load_qa_profile(&doc).expect("profile must load");
    assert_eq!(back.rules[0].order, -7);
}

#[test]
fn document_without_structure_loads_as_defaults() {
    let doc = b"just some plain text, no markup of interest".to_vec();
    let p = load_qa_profile(&doc).expect("structureless document yields defaults");
    assert_eq!(p.name, Vec::<u8>::new());
    assert_eq!(p.rules.len(), 0);
}

#[test]
fn default_library_document_round_trips() {
    let l = default_library();
    let doc = save_regex_library(&l);
    let back = parse_regex_library(&doc).expect("emitted library must parse");
    assert_eq!(back.categories.len(), 4);
    assert_eq!(back.categories[2].name, b"Tall/tallformatering".to_vec());
}
