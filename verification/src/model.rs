//! The data model: pattern rules, profiles, text records, snippet library
//! entries, match reports and batch results, each with a mathematical view.
use vstd::prelude::*;

verus! {

/// One configured check: a pattern, an optional replacement, an optional
/// exclusion pattern, a case-sensitivity flag, an enabled flag, an order,
/// and descriptive metadata.
#[derive(Debug)]
pub struct PatternRule {
    pub order: i32,
    pub enabled: bool,
    pub name: Vec<u8>,
    pub description: Vec<u8>,
    pub category: Vec<u8>,
    pub pattern: Vec<u8>,
    pub replacement: Vec<u8>,
    pub case_sensitive: bool,
    pub exclude_pattern: Vec<u8>,
}

/// The mathematical value of a `PatternRule`.
#[verifier::ext_equal]
pub struct RuleV {
    pub order: int,
    pub enabled: bool,
    pub name: Seq<u8>,
    pub description: Seq<u8>,
    pub category: Seq<u8>,
    pub pattern: Seq<u8>,
    pub replacement: Seq<u8>,
    pub case_sensitive: bool,
    pub exclude_pattern: Seq<u8>,
}

impl View for PatternRule {
    type V = RuleV;

    open spec fn view(&self) -> RuleV {
        RuleV {
            order: self.order as int,
            enabled: self.enabled,
            name: self.name@,
            description: self.description@,
            category: self.category@,
            pattern: self.pattern@,
            replacement: self.replacement@,
            case_sensitive: self.case_sensitive,
            exclude_pattern: self.exclude_pattern@,
        }
    }
}

/// An ordered, named collection of pattern rules with descriptive metadata
/// and day-aligned epoch-second timestamps.
#[derive(Debug)]
pub struct Profile {
    pub name: Vec<u8>,
    pub description: Vec<u8>,
    pub language: Vec<u8>,
    pub created: u64,
    pub modified: u64,
    pub rules: Vec<PatternRule>,
}

/// The mathematical value of a `Profile`.
#[verifier::ext_equal]
pub struct ProfileV {
    pub name: Seq<u8>,
    pub description: Seq<u8>,
    pub language: Seq<u8>,
    pub created: int,
    pub modified: int,
    pub rules: Seq<RuleV>,
}

impl View for Profile {
    type V = ProfileV;

    open spec fn view(&self) -> ProfileV {
        ProfileV {
            name: self.name@,
            description: self.description@,
            language: self.language@,
            created: self.created as int,
            modified: self.modified as int,
            rules: self.rules@.map_values(|r: PatternRule| r@),
        }
    }
}

/// One unit of translatable text: an identifier, the source text, and the
/// target text that the engine inspects and may rewrite.
#[derive(Debug)]
pub struct TextRecord {
    pub id: Vec<u8>,
    pub source: Vec<u8>,
    pub target: Vec<u8>,
}

/// The mathematical value of a `TextRecord`.
#[verifier::ext_equal]
pub struct RecordV {
    pub id: Seq<u8>,
    pub source: Seq<u8>,
    pub target: Seq<u8>,
}

impl View for TextRecord {
    type V = RecordV;

    open spec fn view(&self) -> RecordV {
        RecordV { id: self.id@, source: self.source@, target: self.target@ }
    }
}

/// One manual correction: the record to rewrite and its new target text.
#[derive(Debug)]
pub struct EditedUnit {
    pub id: Vec<u8>,
    pub target: Vec<u8>,
}

/// The mathematical value of an `EditedUnit`.
#[verifier::ext_equal]
pub struct EditV {
    pub id: Seq<u8>,
    pub target: Seq<u8>,
}

impl View for EditedUnit {
    type V = EditV;

    open spec fn view(&self) -> EditV {
        EditV { id: self.id@, target: self.target@ }
    }
}

/// One located, non-excluded occurrence of a rule's pattern in one record,
/// with offsets into that record's pre-mutation target text.
#[derive(Debug)]
pub struct BatchFindMatch {
    pub tu_id: Vec<u8>,
    pub check_name: Vec<u8>,
    pub check_order: i32,
    pub category: Vec<u8>,
    pub description: Vec<u8>,
    pub source: Vec<u8>,
    pub target: Vec<u8>,
    pub match_text: Vec<u8>,
    pub match_start: usize,
    pub match_end: usize,
    pub pattern: Vec<u8>,
    pub replacement: Vec<u8>,
}

/// The mathematical value of a `BatchFindMatch`.
#[verifier::ext_equal]
pub struct ReportV {
    pub tu_id: Seq<u8>,
    pub check_name: Seq<u8>,
    pub check_order: int,
    pub category: Seq<u8>,
    pub description: Seq<u8>,
    pub source: Seq<u8>,
    pub target: Seq<u8>,
    pub match_text: Seq<u8>,
    pub match_start: int,
    pub match_end: int,
    pub pattern: Seq<u8>,
    pub replacement: Seq<u8>,
}

impl View for BatchFindMatch {
    type V = ReportV;

    open spec fn view(&self) -> ReportV {
        ReportV {
            tu_id: self.tu_id@,
            check_name: self.check_name@,
            check_order: self.check_order as int,
            category: self.category@,
            description: self.description@,
            source: self.source@,
            target: self.target@,
            match_text: self.match_text@,
            match_start: self.match_start as int,
            match_end: self.match_end as int,
            pattern: self.pattern@,
            replacement: self.replacement@,
        }
    }
}

/// A rule whose pattern or exclusion pattern failed to compile; the rule was
/// skipped and the run went on.
#[derive(Debug)]
pub struct RuleFailure {
    pub rule_name: Vec<u8>,
    pub rule_order: i32,
}

/// The mathematical value of a `RuleFailure`.
#[verifier::ext_equal]
pub struct FailureV {
    pub rule_name: Seq<u8>,
    pub rule_order: int,
}

impl View for RuleFailure {
    type V = FailureV;

    open spec fn view(&self) -> FailureV {
        FailureV { rule_name: self.rule_name@, rule_order: self.rule_order as int }
    }
}

/// The outcome of a find run: every report in record order, then rule order,
/// the exact report count, and the rules that failed to compile.
#[derive(Debug)]
pub struct BatchFindResult {
    pub profile_name: Vec<u8>,
    pub file: Vec<u8>,
    pub total_matches: usize,
    pub matches: Vec<BatchFindMatch>,
    pub failures: Vec<RuleFailure>,
}

/// The mathematical value of a `BatchFindResult`.
#[verifier::ext_equal]
pub struct FindResultV {
    pub profile_name: Seq<u8>,
    pub file: Seq<u8>,
    pub total_matches: int,
    pub matches: Seq<ReportV>,
    pub failures: Seq<FailureV>,
}

impl View for BatchFindResult {
    type V = FindResultV;

    open spec fn view(&self) -> FindResultV {
        FindResultV {
            profile_name: self.profile_name@,
            file: self.file@,
            total_matches: self.total_matches as int,
            matches: self.matches@.map_values(|m: BatchFindMatch| m@),
            failures: self.failures@.map_values(|f: RuleFailure| f@),
        }
    }
}

/// The outcome of a replace run: how many records changed, how many spans
/// were replaced in all, where the result went, and the rules that failed
/// to compile.
#[derive(Debug)]
pub struct BatchReplaceResult {
    pub success: bool,
    pub modified_units: usize,
    pub total_replacements: usize,
    pub output_path: Vec<u8>,
    pub failures: Vec<RuleFailure>,
}

/// The mathematical value of a `BatchReplaceResult`.
#[verifier::ext_equal]
pub struct ReplaceResultV {
    pub success: bool,
    pub modified_units: int,
    pub total_replacements: int,
    pub output_path: Seq<u8>,
    pub failures: Seq<FailureV>,
}

impl View for BatchReplaceResult {
    type V = ReplaceResultV;

    open spec fn view(&self) -> ReplaceResultV {
        ReplaceResultV {
            success: self.success,
            modified_units: self.modified_units as int,
            total_replacements: self.total_replacements as int,
            output_path: self.output_path@,
            failures: self.failures@.map_values(|f: RuleFailure| f@),
        }
    }
}

/// An edit that named no record in the batch; the remaining edits were still
/// applied.
#[derive(Debug)]
pub struct UnknownRecordId {
    pub id: Vec<u8>,
}

/// The mathematical value of an `UnknownRecordId`.
#[verifier::ext_equal]
pub struct UnknownIdV {
    pub id: Seq<u8>,
}

impl View for UnknownRecordId {
    type V = UnknownIdV;

    open spec fn view(&self) -> UnknownIdV {
        UnknownIdV { id: self.id@ }
    }
}

/// A malformed persisted document, with the byte position where reading
/// stopped.
#[derive(Debug)]
pub struct ParseError {
    pub pos: usize,
}

/// The mathematical value of a `ParseError`.
#[verifier::ext_equal]
pub struct ParseErrorV {
    pub pos: int,
}

impl View for ParseError {
    type V = ParseErrorV;

    open spec fn view(&self) -> ParseErrorV {
        ParseErrorV { pos: self.pos as int }
    }
}

/// One reusable pattern/replacement snippet.
#[derive(Debug)]
pub struct RegexEntry {
    pub id: Vec<u8>,
    pub name: Vec<u8>,
    pub description: Vec<u8>,
    pub pattern: Vec<u8>,
    pub replace: Vec<u8>,
    pub category: Vec<u8>,
}

/// The mathematical value of a `RegexEntry`.
#[verifier::ext_equal]
pub struct EntryV {
    pub id: Seq<u8>,
    pub name: Seq<u8>,
    pub description: Seq<u8>,
    pub pattern: Seq<u8>,
    pub replace: Seq<u8>,
    pub category: Seq<u8>,
}

impl View for RegexEntry {
    type V = EntryV;

    open spec fn view(&self) -> EntryV {
        EntryV {
            id: self.id@,
            name: self.name@,
            description: self.description@,
            pattern: self.pattern@,
            replace: self.replace@,
            category: self.category@,
        }
    }
}

/// A named group of snippets; duplicate category names are kept, never
/// merged.
#[derive(Debug)]
pub struct RegexCategory {
    pub name: Vec<u8>,
    pub entries: Vec<RegexEntry>,
}

/// The mathematical value of a `RegexCategory`.
#[verifier::ext_equal]
pub struct CategoryV {
    pub name: Seq<u8>,
    pub entries: Seq<EntryV>,
}

impl View for RegexCategory {
    type V = CategoryV;

    open spec fn view(&self) -> CategoryV {
        CategoryV { name: self.name@, entries: self.entries@.map_values(|e: RegexEntry| e@) }
    }
}

/// The snippet library: an ordered sequence of categories.
#[derive(Debug)]
pub struct RegexLibrary {
    pub categories: Vec<RegexCategory>,
}

/// The mathematical value of a `RegexLibrary`.
#[verifier::ext_equal]
pub struct LibraryV {
    pub categories: Seq<CategoryV>,
}

impl View for RegexLibrary {
    type V = LibraryV;

    open spec fn view(&self) -> LibraryV {
        LibraryV { categories: self.categories@.map_values(|c: RegexCategory| c@) }
    }
}

/// Copies a byte string.
pub fn clone_bytes(v: &Vec<u8>) -> (r: Vec<u8>)
    ensures
        r@ == v@,
{
    let mut out: Vec<u8> = Vec::new();
    crate::text::push_range(&mut out, v, 0, v.len());
    proof {
        assert(v@.subrange(0, v@.len() as int) =~= v@);
        assert(Seq::<u8>::empty() + v@ =~= v@);
    }
    out
}

/// Whether two byte strings hold the same bytes.
pub fn bytes_eq(a: &Vec<u8>, b: &Vec<u8>) -> (r: bool)
    ensures
        r == (a@ == b@),
{
    if a.len() != b.len() {
        return false;
    }
    let mut i: usize = 0;
    while i < a.len()
        invariant
            a@.len() == b@.len(),
            i <= a@.len(),
            forall|j: int| 0 <= j < i ==> a@[j] == b@[j],
        decreases a@.len() - i,
    {
        if a[i] != b[i] {
            return false;
        }
        i = i + 1;
    }
    proof {
        assert(a@ =~= b@);
    }
    true
}

/// Copies a pattern rule.
pub fn clone_rule(r: &PatternRule) -> (c: PatternRule)
    ensures
        c@ == r@,
{
    let c = PatternRule {
        order: r.order,
        enabled: r.enabled,
        name: clone_bytes(&r.name),
        description: clone_bytes(&r.description),
        category: clone_bytes(&r.category),
        pattern: clone_bytes(&r.pattern),
        replacement: clone_bytes(&r.replacement),
        case_sensitive: r.case_sensitive,
        exclude_pattern: clone_bytes(&r.exclude_pattern),
    };
    proof {
        assert(c@ =~= r@);
    }
    c
}

/// Copies a text record.
pub fn clone_record(r: &TextRecord) -> (c: TextRecord)
    ensures
        c@ == r@,
{
    let c = TextRecord {
        id: clone_bytes(&r.id),
        source: clone_bytes(&r.source),
        target: clone_bytes(&r.target),
    };
    proof {
        assert(c@ =~= r@);
    }
    c
}

} // verus!
