//! C++
use vstd::prelude::*;
use crate::lint::config::{LintConfig, enabled};
use crate::lint::error::{ErrorView, Severity, opt_str_view};
use crate::lint::linter::{Linter, lemma_fresh};
use crate::lint::registry::LintRule;
use crate::lint::report::LintReport;
use crate::lint::rule::Rule;
use crate::lint::edit::{Fix, single_fix};
use crate::lint::support::{lemma_line_fits, sum_pieces, line_offset, Tmpl, at, col_errors, hit_cols, once, tmpl, finding, make_error, report_hits, report_once, report_cols, lemma_lines_bounds, lemma_lines_total, total_chars, lemma_total_chars_take};
use crate::linters::common::{count_matches, count_matches_exec, count_lit, find_col, find_col_exec, word_errors, report_words, comma_needs_space, comma_needs_space_exec, brace_needs_space, brace_needs_space_exec, brace_prev_ascii, brace_prev_ascii_exec, match_errors, report_matches, all_true, trues, trailing_ws_errors, acc_offsets, piece_offsets, report_trailing_ws, acc_offsets_exec, piece_offsets_exec, unreachable_errors, report_unreachable};
use crate::text::{lines, views, contains, starts_with, ends_with, trim, trim_start, trim_end, upper, lower, chars_of, lines_of_str, contains_lit, starts_with_lit, ends_with_lit, eq_lit, trimmed, trimmed_start, trimmed_end, upper_of, lower_of, owned, string_of, slice_of, find, find_char, find_lit, find_chars, lemma_find, matches_at, is_ws, is_whitespace, utf8_len, byte_len, prefix_bytes, any_upper, has_upper, lemma_utf8_len_take, lemma_utf8_len_subrange, split_char, fits, match_indices, match_positions_lit, char_width, split_on, contains_char, numeric_char, is_numeric};

verus! {

/// CPP001: Trailing whitespace.
#[derive(Clone, Copy, Debug)]
pub struct TrailingWhitespace;

impl Rule for TrailingWhitespace {
    open spec fn spec_id(&self) -> Seq<char> {
        "CPP001"@
    }

    open spec fn spec_severity(&self) -> Severity {
        Severity::Info
    }

    open spec fn is_pure(&self) -> bool {
        true
    }

    open spec fn accepts(&self, source: Seq<char>, disabled: Seq<Seq<char>>) -> bool {
        true
    }

    fn id(&self) -> (r: &'static str) {
        "CPP001"
    }

    fn severity(&self) -> (s: Severity) {
        Severity::Info
    }

    fn admits(&self, source: &str, config: &LintConfig) -> (b: bool) {
        true
    }

    open spec fn findings(&self, file: Option<Seq<char>>, source: Seq<char>, disabled: Seq<Seq<char>>) -> Seq<ErrorView> {
        if enabled(disabled, "CPP001"@) {
            trailing_ws_errors(lines(source), acc_offsets(lines(source)), tmpl(file, Severity::Info, "CPP001"@, "Trailing whitespace"@, "Remove trailing whitespace"@))
        } else {
            seq![]
        }
    }

    fn check(&self, file: Option<&str>, source: &str, report: &mut LintReport, config: &LintConfig) {
        if !config.is_enabled(self.id()) {
            return;
        }
        let ls = lines_of_str(source);
        proof {
            lemma_lines_bounds(source@);
        }
        let offs = acc_offsets_exec(&ls, Ghost(source@));
        report_trailing_ws(report, file, &ls, &offs, Severity::Info, "CPP001", "Trailing whitespace", "Remove trailing whitespace");
    }
}

/// CPP010: Avoid 'using namespace std;'.
#[derive(Clone, Copy, Debug)]
pub struct UsingNamespaceStd;

/// Whether a line is reported by CPP010.
pub open spec fn cpp010_hit(l: Seq<char>) -> bool {
    contains(l, "using namespace std"@)
}

fn cpp010_test(l: &[char]) -> (b: bool)
    ensures
        b == cpp010_hit(l@),
{
    contains_lit(l, "using namespace std")
}

impl Rule for UsingNamespaceStd {
    open spec fn spec_id(&self) -> Seq<char> {
        "CPP010"@
    }

    open spec fn spec_severity(&self) -> Severity {
        Severity::Warning
    }

    open spec fn is_pure(&self) -> bool {
        true
    }

    open spec fn accepts(&self, source: Seq<char>, disabled: Seq<Seq<char>>) -> bool {
        true
    }

    fn id(&self) -> (r: &'static str) {
        "CPP010"
    }

    fn severity(&self) -> (s: Severity) {
        Severity::Warning
    }

    fn admits(&self, source: &str, config: &LintConfig) -> (b: bool) {
        true
    }

    open spec fn findings(&self, file: Option<Seq<char>>, source: Seq<char>, disabled: Seq<Seq<char>>) -> Seq<ErrorView> {
        if enabled(disabled, "CPP010"@) {
            col_errors(hit_cols(lines(source).map_values(|l: Seq<char>| cpp010_hit(l))), tmpl(file, Severity::Warning, "CPP010"@, "Avoid 'using namespace std;'"@, "Use explicit std:: prefixes"@))
        } else {
            seq![]
        }
    }

    fn check(&self, file: Option<&str>, source: &str, report: &mut LintReport, config: &LintConfig) {
        if !config.is_enabled(self.id()) {
            return;
        }
        let ls = lines_of_str(source);
        proof {
            lemma_lines_bounds(source@);
        }
        let mut hits: Vec<bool> = Vec::new();
        let mut i: usize = 0;
        while i < ls.len()
            invariant
                i <= ls@.len(),
                hits@.len() == i,
                views(ls@) == lines(source@),
                forall|j: int| 0 <= j < i ==> hits@[j] == cpp010_hit(lines(source@)[j]),
            decreases ls@.len() - i,
        {
            assert(views(ls@)[i as int] == ls@[i as int]@);
            hits.push(cpp010_test(ls[i].as_slice()));
            i += 1;
        }
        assert(hits@ =~= lines(source@).map_values(|l: Seq<char>| cpp010_hit(l)));
        report_hits(report, file, &hits, Severity::Warning, "CPP010", "Avoid 'using namespace std;'", "Use explicit std:: prefixes");
    }
}

/// CPP020: Raw new detected.
#[derive(Clone, Copy, Debug)]
pub struct RawNewUsage;

/// Whether a line is reported by CPP020.
pub open spec fn cpp020_hit(l: Seq<char>) -> bool {
    contains(l, "new "@)
}

fn cpp020_test(l: &[char]) -> (b: bool)
    ensures
        b == cpp020_hit(l@),
{
    contains_lit(l, "new ")
}

impl Rule for RawNewUsage {
    open spec fn spec_id(&self) -> Seq<char> {
        "CPP020"@
    }

    open spec fn spec_severity(&self) -> Severity {
        Severity::Warning
    }

    open spec fn is_pure(&self) -> bool {
        true
    }

    open spec fn accepts(&self, source: Seq<char>, disabled: Seq<Seq<char>>) -> bool {
        true
    }

    fn id(&self) -> (r: &'static str) {
        "CPP020"
    }

    fn severity(&self) -> (s: Severity) {
        Severity::Warning
    }

    fn admits(&self, source: &str, config: &LintConfig) -> (b: bool) {
        true
    }

    open spec fn findings(&self, file: Option<Seq<char>>, source: Seq<char>, disabled: Seq<Seq<char>>) -> Seq<ErrorView> {
        if enabled(disabled, "CPP020"@) {
            col_errors(hit_cols(lines(source).map_values(|l: Seq<char>| cpp020_hit(l))), tmpl(file, Severity::Warning, "CPP020"@, "Raw new detected"@, "Use std::make_unique or std::make_shared"@))
        } else {
            seq![]
        }
    }

    fn check(&self, file: Option<&str>, source: &str, report: &mut LintReport, config: &LintConfig) {
        if !config.is_enabled(self.id()) {
            return;
        }
        let ls = lines_of_str(source);
        proof {
            lemma_lines_bounds(source@);
        }
        let mut hits: Vec<bool> = Vec::new();
        let mut i: usize = 0;
        while i < ls.len()
            invariant
                i <= ls@.len(),
                hits@.len() == i,
                views(ls@) == lines(source@),
                forall|j: int| 0 <= j < i ==> hits@[j] == cpp020_hit(lines(source@)[j]),
            decreases ls@.len() - i,
        {
            assert(views(ls@)[i as int] == ls@[i as int]@);
            hits.push(cpp020_test(ls[i].as_slice()));
            i += 1;
        }
        assert(hits@ =~= lines(source@).map_values(|l: Seq<char>| cpp020_hit(l)));
        report_hits(report, file, &hits, Severity::Warning, "CPP020", "Raw new detected", "Use std::make_unique or std::make_shared");
    }
}

/// CPP021: Raw delete detected.
#[derive(Clone, Copy, Debug)]
pub struct RawDeleteUsage;

/// Whether a line is reported by CPP021.
pub open spec fn cpp021_hit(l: Seq<char>) -> bool {
    contains(l, "delete "@)
}

fn cpp021_test(l: &[char]) -> (b: bool)
    ensures
        b == cpp021_hit(l@),
{
    contains_lit(l, "delete ")
}

impl Rule for RawDeleteUsage {
    open spec fn spec_id(&self) -> Seq<char> {
        "CPP021"@
    }

    open spec fn spec_severity(&self) -> Severity {
        Severity::Warning
    }

    open spec fn is_pure(&self) -> bool {
        true
    }

    open spec fn accepts(&self, source: Seq<char>, disabled: Seq<Seq<char>>) -> bool {
        true
    }

    fn id(&self) -> (r: &'static str) {
        "CPP021"
    }

    fn severity(&self) -> (s: Severity) {
        Severity::Warning
    }

    fn admits(&self, source: &str, config: &LintConfig) -> (b: bool) {
        true
    }

    open spec fn findings(&self, file: Option<Seq<char>>, source: Seq<char>, disabled: Seq<Seq<char>>) -> Seq<ErrorView> {
        if enabled(disabled, "CPP021"@) {
            col_errors(hit_cols(lines(source).map_values(|l: Seq<char>| cpp021_hit(l))), tmpl(file, Severity::Warning, "CPP021"@, "Raw delete detected"@, "Use RAII containers instead of manual delete"@))
        } else {
            seq![]
        }
    }

    fn check(&self, file: Option<&str>, source: &str, report: &mut LintReport, config: &LintConfig) {
        if !config.is_enabled(self.id()) {
            return;
        }
        let ls = lines_of_str(source);
        proof {
            lemma_lines_bounds(source@);
        }
        let mut hits: Vec<bool> = Vec::new();
        let mut i: usize = 0;
        while i < ls.len()
            invariant
                i <= ls@.len(),
                hits@.len() == i,
                views(ls@) == lines(source@),
                forall|j: int| 0 <= j < i ==> hits@[j] == cpp021_hit(lines(source@)[j]),
            decreases ls@.len() - i,
        {
            assert(views(ls@)[i as int] == ls@[i as int]@);
            hits.push(cpp021_test(ls[i].as_slice()));
            i += 1;
        }
        assert(hits@ =~= lines(source@).map_values(|l: Seq<char>| cpp021_hit(l)));
        report_hits(report, file, &hits, Severity::Warning, "CPP021", "Raw delete detected", "Use RAII containers instead of manual delete");
    }
}

/// CPP030: malloc() used in C++ code.
#[derive(Clone, Copy, Debug)]
pub struct MallocUsage;

/// Whether CPP030 reports a source.
pub open spec fn cpp030_hit(file: Option<Seq<char>>, src: Seq<char>) -> bool {
    contains(src, "malloc("@)
}

fn cpp030_test(file: Option<&str>, src: &[char]) -> (b: bool)
    requires
        fits(src@),
    ensures
        b == cpp030_hit(opt_str_view(file), src@),
{
    contains_lit(src, "malloc(")
}

impl Rule for MallocUsage {
    open spec fn spec_id(&self) -> Seq<char> {
        "CPP030"@
    }

    open spec fn spec_severity(&self) -> Severity {
        Severity::Error
    }

    open spec fn is_pure(&self) -> bool {
        true
    }

    open spec fn accepts(&self, source: Seq<char>, disabled: Seq<Seq<char>>) -> bool {
        true
    }

    fn id(&self) -> (r: &'static str) {
        "CPP030"
    }

    fn severity(&self) -> (s: Severity) {
        Severity::Error
    }

    fn admits(&self, source: &str, config: &LintConfig) -> (b: bool) {
        true
    }

    open spec fn findings(&self, file: Option<Seq<char>>, source: Seq<char>, disabled: Seq<Seq<char>>) -> Seq<ErrorView> {
        if enabled(disabled, "CPP030"@) {
            once(cpp030_hit(file, source), tmpl(file, Severity::Error, "CPP030"@, "malloc() used in C++ code"@, "Use new or STL containers instead"@))
        } else {
            seq![]
        }
    }

    fn check(&self, file: Option<&str>, source: &str, report: &mut LintReport, config: &LintConfig) {
        if !config.is_enabled(self.id()) {
            return;
        }
        let src = chars_of(source);
        let hit = cpp030_test(file, src.as_slice());
        report_once(report, file, hit, Severity::Error, "CPP030", "malloc() used in C++ code", "Use new or STL containers instead");
    }
}

/// CPP040: Potential C-style cast detected.
#[derive(Clone, Copy, Debug)]
pub struct CStyleCastUsage;

/// Whether a line is reported by CPP040.
pub open spec fn cpp040_hit(l: Seq<char>) -> bool {
    (contains(l, "("@) && contains(l, ")"@) && contains(l, ")"@) && contains(l, ")"@)) && (contains(l, ")"@) && contains(l, ");"@) && contains(l, "("@))
}

fn cpp040_test(l: &[char]) -> (b: bool)
    ensures
        b == cpp040_hit(l@),
{
    (contains_lit(l, "(") && contains_lit(l, ")") && contains_lit(l, ")") && contains_lit(l, ")")) && (contains_lit(l, ")") && contains_lit(l, ");") && contains_lit(l, "("))
}

impl Rule for CStyleCastUsage {
    open spec fn spec_id(&self) -> Seq<char> {
        "CPP040"@
    }

    open spec fn spec_severity(&self) -> Severity {
        Severity::Warning
    }

    open spec fn is_pure(&self) -> bool {
        true
    }

    open spec fn accepts(&self, source: Seq<char>, disabled: Seq<Seq<char>>) -> bool {
        true
    }

    fn id(&self) -> (r: &'static str) {
        "CPP040"
    }

    fn severity(&self) -> (s: Severity) {
        Severity::Warning
    }

    fn admits(&self, source: &str, config: &LintConfig) -> (b: bool) {
        true
    }

    open spec fn findings(&self, file: Option<Seq<char>>, source: Seq<char>, disabled: Seq<Seq<char>>) -> Seq<ErrorView> {
        if enabled(disabled, "CPP040"@) {
            col_errors(hit_cols(lines(source).map_values(|l: Seq<char>| cpp040_hit(l))), tmpl(file, Severity::Warning, "CPP040"@, "Potential C-style cast detected"@, "Use static_cast, dynamic_cast, etc."@))
        } else {
            seq![]
        }
    }

    fn check(&self, file: Option<&str>, source: &str, report: &mut LintReport, config: &LintConfig) {
        if !config.is_enabled(self.id()) {
            return;
        }
        let ls = lines_of_str(source);
        proof {
            lemma_lines_bounds(source@);
        }
        let mut hits: Vec<bool> = Vec::new();
        let mut i: usize = 0;
        while i < ls.len()
            invariant
                i <= ls@.len(),
                hits@.len() == i,
                views(ls@) == lines(source@),
                forall|j: int| 0 <= j < i ==> hits@[j] == cpp040_hit(lines(source@)[j]),
            decreases ls@.len() - i,
        {
            assert(views(ls@)[i as int] == ls@[i as int]@);
            hits.push(cpp040_test(ls[i].as_slice()));
            i += 1;
        }
        assert(hits@ =~= lines(source@).map_values(|l: Seq<char>| cpp040_hit(l)));
        report_hits(report, file, &hits, Severity::Warning, "CPP040", "Potential C-style cast detected", "Use static_cast, dynamic_cast, etc.");
    }
}

/// CPP050: printf used in C++ code.
#[derive(Clone, Copy, Debug)]
pub struct PrintfUsage;

/// Whether CPP050 reports a source.
pub open spec fn cpp050_hit(file: Option<Seq<char>>, src: Seq<char>) -> bool {
    contains(src, "printf("@)
}

fn cpp050_test(file: Option<&str>, src: &[char]) -> (b: bool)
    requires
        fits(src@),
    ensures
        b == cpp050_hit(opt_str_view(file), src@),
{
    contains_lit(src, "printf(")
}

impl Rule for PrintfUsage {
    open spec fn spec_id(&self) -> Seq<char> {
        "CPP050"@
    }

    open spec fn spec_severity(&self) -> Severity {
        Severity::Warning
    }

    open spec fn is_pure(&self) -> bool {
        true
    }

    open spec fn accepts(&self, source: Seq<char>, disabled: Seq<Seq<char>>) -> bool {
        true
    }

    fn id(&self) -> (r: &'static str) {
        "CPP050"
    }

    fn severity(&self) -> (s: Severity) {
        Severity::Warning
    }

    fn admits(&self, source: &str, config: &LintConfig) -> (b: bool) {
        true
    }

    open spec fn findings(&self, file: Option<Seq<char>>, source: Seq<char>, disabled: Seq<Seq<char>>) -> Seq<ErrorView> {
        if enabled(disabled, "CPP050"@) {
            once(cpp050_hit(file, source), tmpl(file, Severity::Warning, "CPP050"@, "printf used in C++ code"@, "Use std::cout or fmt library"@))
        } else {
            seq![]
        }
    }

    fn check(&self, file: Option<&str>, source: &str, report: &mut LintReport, config: &LintConfig) {
        if !config.is_enabled(self.id()) {
            return;
        }
        let src = chars_of(source);
        let hit = cpp050_test(file, src.as_slice());
        report_once(report, file, hit, Severity::Warning, "CPP050", "printf used in C++ code", "Use std::cout or fmt library");
    }
}

/// CPP060: Use nullptr instead of NULL.
#[derive(Clone, Copy, Debug)]
pub struct NullMacroUsage;

/// Whether a line is reported by CPP060.
pub open spec fn cpp060_hit(l: Seq<char>) -> bool {
    contains(l, "NULL"@)
}

fn cpp060_test(l: &[char]) -> (b: bool)
    ensures
        b == cpp060_hit(l@),
{
    contains_lit(l, "NULL")
}

impl Rule for NullMacroUsage {
    open spec fn spec_id(&self) -> Seq<char> {
        "CPP060"@
    }

    open spec fn spec_severity(&self) -> Severity {
        Severity::Warning
    }

    open spec fn is_pure(&self) -> bool {
        true
    }

    open spec fn accepts(&self, source: Seq<char>, disabled: Seq<Seq<char>>) -> bool {
        true
    }

    fn id(&self) -> (r: &'static str) {
        "CPP060"
    }

    fn severity(&self) -> (s: Severity) {
        Severity::Warning
    }

    fn admits(&self, source: &str, config: &LintConfig) -> (b: bool) {
        true
    }

    open spec fn findings(&self, file: Option<Seq<char>>, source: Seq<char>, disabled: Seq<Seq<char>>) -> Seq<ErrorView> {
        if enabled(disabled, "CPP060"@) {
            col_errors(hit_cols(lines(source).map_values(|l: Seq<char>| cpp060_hit(l))), tmpl(file, Severity::Warning, "CPP060"@, "Use nullptr instead of NULL"@, "Replace NULL with nullptr"@))
        } else {
            seq![]
        }
    }

    fn check(&self, file: Option<&str>, source: &str, report: &mut LintReport, config: &LintConfig) {
        if !config.is_enabled(self.id()) {
            return;
        }
        let ls = lines_of_str(source);
        proof {
            lemma_lines_bounds(source@);
        }
        let mut hits: Vec<bool> = Vec::new();
        let mut i: usize = 0;
        while i < ls.len()
            invariant
                i <= ls@.len(),
                hits@.len() == i,
                views(ls@) == lines(source@),
                forall|j: int| 0 <= j < i ==> hits@[j] == cpp060_hit(lines(source@)[j]),
            decreases ls@.len() - i,
        {
            assert(views(ls@)[i as int] == ls@[i as int]@);
            hits.push(cpp060_test(ls[i].as_slice()));
            i += 1;
        }
        assert(hits@ =~= lines(source@).map_values(|l: Seq<char>| cpp060_hit(l)));
        report_hits(report, file, &hits, Severity::Warning, "CPP060", "Use nullptr instead of NULL", "Replace NULL with nullptr");
    }
}

/// CPP090: Unreachable code detected.
#[derive(Clone, Copy, Debug)]
pub struct UnreachableCode;

/// Whether a line ends the reachable code for CPP090.
pub open spec fn cpp090_term(l: Seq<char>) -> bool {
    starts_with(trim_start(l), "return "@)
}

fn cpp090_term_test(l: &[char]) -> (b: bool)
    ensures
        b == cpp090_term(l@),
{
    starts_with_lit(trimmed_start(l).as_slice(), "return ")
}

impl Rule for UnreachableCode {
    open spec fn spec_id(&self) -> Seq<char> {
        "CPP090"@
    }

    open spec fn spec_severity(&self) -> Severity {
        Severity::Error
    }

    open spec fn is_pure(&self) -> bool {
        true
    }

    open spec fn accepts(&self, source: Seq<char>, disabled: Seq<Seq<char>>) -> bool {
        true
    }

    fn id(&self) -> (r: &'static str) {
        "CPP090"
    }

    fn severity(&self) -> (s: Severity) {
        Severity::Error
    }

    fn admits(&self, source: &str, config: &LintConfig) -> (b: bool) {
        true
    }

    open spec fn findings(&self, file: Option<Seq<char>>, source: Seq<char>, disabled: Seq<Seq<char>>) -> Seq<ErrorView> {
        if enabled(disabled, "CPP090"@) {
            unreachable_errors(lines(source), lines(source).map_values(|l: Seq<char>| cpp090_term(l)), tmpl(file, Severity::Error, "CPP090"@, "Unreachable code detected"@, "Remove unreachable statements"@))
        } else {
            seq![]
        }
    }

    fn check(&self, file: Option<&str>, source: &str, report: &mut LintReport, config: &LintConfig) {
        if !config.is_enabled(self.id()) {
            return;
        }
        let ls = lines_of_str(source);
        proof {
            lemma_lines_bounds(source@);
        }
        let mut term: Vec<bool> = Vec::new();
        let mut i: usize = 0;
        while i < ls.len()
            invariant
                i <= ls@.len(),
                term@.len() == i,
                views(ls@) == lines(source@),
                forall|j: int| 0 <= j < i ==> term@[j] == cpp090_term(lines(source@)[j]),
            decreases ls@.len() - i,
        {
            assert(views(ls@)[i as int] == ls@[i as int]@);
            term.push(cpp090_term_test(ls[i].as_slice()));
            i += 1;
        }
        assert(term@ =~= lines(source@).map_values(|l: Seq<char>| cpp090_term(l)));
        report_unreachable(report, file, &ls, &term, Severity::Error, "CPP090", "Unreachable code detected", "Remove unreachable statements");
    }
}

/// The rules of the C++ rule set, in order.
pub open spec fn rule_set() -> Seq<LintRule> {
    seq![LintRule::CPP001(TrailingWhitespace), LintRule::CPP010(UsingNamespaceStd), LintRule::CPP020(RawNewUsage), LintRule::CPP021(RawDeleteUsage), LintRule::CPP030(MallocUsage), LintRule::CPP040(CStyleCastUsage), LintRule::CPP050(PrintfUsage), LintRule::CPP060(NullMacroUsage), LintRule::CPP090(UnreachableCode)]
}

/// The C++ rule set.
pub fn linter() -> (l: Linter)
    ensures
        l@ == rule_set(),
{
    let l = Linter::new();
    assert(l@ == Seq::<LintRule>::empty());
    proof {
        lemma_fresh(l@, LintRule::CPP001(TrailingWhitespace));
    }
    let l = l.add_rule(LintRule::CPP001(TrailingWhitespace));
    proof {
        reveal_strlit("CPP001");
        reveal_strlit("CPP010");
        assert("CPP001"@[4] != "CPP010"@[4]);
        lemma_fresh(l@, LintRule::CPP010(UsingNamespaceStd));
    }
    let l = l.add_rule(LintRule::CPP010(UsingNamespaceStd));
    proof {
        reveal_strlit("CPP001");
        reveal_strlit("CPP010");
        reveal_strlit("CPP020");
        assert("CPP001"@[4] != "CPP020"@[4]);
        assert("CPP010"@[4] != "CPP020"@[4]);
        lemma_fresh(l@, LintRule::CPP020(RawNewUsage));
    }
    let l = l.add_rule(LintRule::CPP020(RawNewUsage));
    proof {
        reveal_strlit("CPP001");
        reveal_strlit("CPP010");
        reveal_strlit("CPP020");
        reveal_strlit("CPP021");
        assert("CPP001"@[4] != "CPP021"@[4]);
        assert("CPP010"@[4] != "CPP021"@[4]);
        assert("CPP020"@[5] != "CPP021"@[5]);
        lemma_fresh(l@, LintRule::CPP021(RawDeleteUsage));
    }
    let l = l.add_rule(LintRule::CPP021(RawDeleteUsage));
    proof {
        reveal_strlit("CPP001");
        reveal_strlit("CPP010");
        reveal_strlit("CPP020");
        reveal_strlit("CPP021");
        reveal_strlit("CPP030");
        assert("CPP001"@[4] != "CPP030"@[4]);
        assert("CPP010"@[4] != "CPP030"@[4]);
        assert("CPP020"@[4] != "CPP030"@[4]);
        assert("CPP021"@[4] != "CPP030"@[4]);
        lemma_fresh(l@, LintRule::CPP030(MallocUsage));
    }
    let l = l.add_rule(LintRule::CPP030(MallocUsage));
    proof {
        reveal_strlit("CPP001");
        reveal_strlit("CPP010");
        reveal_strlit("CPP020");
        reveal_strlit("CPP021");
        reveal_strlit("CPP030");
        reveal_strlit("CPP040");
        assert("CPP001"@[4] != "CPP040"@[4]);
        assert("CPP010"@[4] != "CPP040"@[4]);
        assert("CPP020"@[4] != "CPP040"@[4]);
        assert("CPP021"@[4] != "CPP040"@[4]);
        assert("CPP030"@[4] != "CPP040"@[4]);
        lemma_fresh(l@, LintRule::CPP040(CStyleCastUsage));
    }
    let l = l.add_rule(LintRule::CPP040(CStyleCastUsage));
    proof {
        reveal_strlit("CPP001");
        reveal_strlit("CPP010");
        reveal_strlit("CPP020");
        reveal_strlit("CPP021");
        reveal_strlit("CPP030");
        reveal_strlit("CPP040");
        reveal_strlit("CPP050");
        assert("CPP001"@[4] != "CPP050"@[4]);
        assert("CPP010"@[4] != "CPP050"@[4]);
        assert("CPP020"@[4] != "CPP050"@[4]);
        assert("CPP021"@[4] != "CPP050"@[4]);
        assert("CPP030"@[4] != "CPP050"@[4]);
        assert("CPP040"@[4] != "CPP050"@[4]);
        lemma_fresh(l@, LintRule::CPP050(PrintfUsage));
    }
    let l = l.add_rule(LintRule::CPP050(PrintfUsage));
    proof {
        reveal_strlit("CPP001");
        reveal_strlit("CPP010");
        reveal_strlit("CPP020");
        reveal_strlit("CPP021");
        reveal_strlit("CPP030");
        reveal_strlit("CPP040");
        reveal_strlit("CPP050");
        reveal_strlit("CPP060");
        assert("CPP001"@[4] != "CPP060"@[4]);
        assert("CPP010"@[4] != "CPP060"@[4]);
        assert("CPP020"@[4] != "CPP060"@[4]);
        assert("CPP021"@[4] != "CPP060"@[4]);
        assert("CPP030"@[4] != "CPP060"@[4]);
        assert("CPP040"@[4] != "CPP060"@[4]);
        assert("CPP050"@[4] != "CPP060"@[4]);
        lemma_fresh(l@, LintRule::CPP060(NullMacroUsage));
    }
    let l = l.add_rule(LintRule::CPP060(NullMacroUsage));
    proof {
        reveal_strlit("CPP001");
        reveal_strlit("CPP010");
        reveal_strlit("CPP020");
        reveal_strlit("CPP021");
        reveal_strlit("CPP030");
        reveal_strlit("CPP040");
        reveal_strlit("CPP050");
        reveal_strlit("CPP060");
        reveal_strlit("CPP090");
        assert("CPP001"@[4] != "CPP090"@[4]);
        assert("CPP010"@[4] != "CPP090"@[4]);
        assert("CPP020"@[4] != "CPP090"@[4]);
        assert("CPP021"@[4] != "CPP090"@[4]);
        assert("CPP030"@[4] != "CPP090"@[4]);
        assert("CPP040"@[4] != "CPP090"@[4]);
        assert("CPP050"@[4] != "CPP090"@[4]);
        assert("CPP060"@[4] != "CPP090"@[4]);
        lemma_fresh(l@, LintRule::CPP090(UnreachableCode));
    }
    let l = l.add_rule(LintRule::CPP090(UnreachableCode));
    l
}

} // verus!
