//! Dart
use vstd::prelude::*;
use crate::lint::config::{LintConfig, enabled};
use crate::lint::error::{ErrorView, Severity, opt_str_view};
use crate::lint::linter::{Linter, lemma_fresh};
use crate::lint::registry::LintRule;
use crate::lint::report::LintReport;
use crate::lint::rule::Rule;
use crate::lint::edit::{Fix, single_fix};
use crate::lint::support::{lemma_line_fits, sum_pieces, line_offset, Tmpl, at, col_errors, hit_cols, once, tmpl, finding, make_error, report_hits, report_once, report_cols, lemma_lines_bounds, lemma_lines_total, total_chars, lemma_total_chars_take};
use crate::linters::common::{count_matches, count_matches_exec, count_lit, find_col, find_col_exec, word_errors, report_words, comma_needs_space, comma_needs_space_exec, brace_needs_space, brace_needs_space_exec, brace_prev_ascii, brace_prev_ascii_exec, match_errors, report_matches, all_true, trues, trailing_ws_errors, acc_offsets, piece_offsets, report_trailing_ws, acc_offsets_exec, piece_offsets_exec, unreachable_errors, report_unreachable};
use crate::text::{lines, views, contains, starts_with, ends_with, trim, trim_start, trim_end, upper, lower, chars_of, lines_of_str, contains_lit, starts_with_lit, ends_with_lit, eq_lit, trimmed, trimmed_start, trimmed_end, upper_of, lower_of, owned, string_of, slice_of, find, find_char, find_lit, find_chars, lemma_find, matches_at, is_ws, is_whitespace, utf8_len, byte_len, prefix_bytes, any_upper, has_upper, lemma_utf8_len_take, lemma_utf8_len_subrange, split_char, fits, match_indices, match_positions_lit, char_width, split_on, contains_char, numeric_char, is_numeric};

verus! {

/// DART001: Trailing whitespace.
#[derive(Clone, Copy, Debug)]
pub struct TrailingWhitespace;

impl Rule for TrailingWhitespace {
    open spec fn spec_id(&self) -> Seq<char> {
        "DART001"@
    }

    open spec fn spec_severity(&self) -> Severity {
        Severity::Info
    }

    open spec fn is_pure(&self) -> bool {
        true
    }

    open spec fn accepts(&self, source: Seq<char>, disabled: Seq<Seq<char>>) -> bool {
        true
    }

    fn id(&self) -> (r: &'static str) {
        "DART001"
    }

    fn severity(&self) -> (s: Severity) {
        Severity::Info
    }

    fn admits(&self, source: &str, config: &LintConfig) -> (b: bool) {
        true
    }

    open spec fn findings(&self, file: Option<Seq<char>>, source: Seq<char>, disabled: Seq<Seq<char>>) -> Seq<ErrorView> {
        if enabled(disabled, "DART001"@) {
            trailing_ws_errors(lines(source), acc_offsets(lines(source)), tmpl(file, Severity::Info, "DART001"@, "Trailing whitespace"@, "Remove trailing whitespace"@))
        } else {
            seq![]
        }
    }

    fn check(&self, file: Option<&str>, source: &str, report: &mut LintReport, config: &LintConfig) {
        if !config.is_enabled(self.id()) {
            return;
        }
        let ls = lines_of_str(source);
        proof {
            lemma_lines_bounds(source@);
        }
        let offs = acc_offsets_exec(&ls, Ghost(source@));
        report_trailing_ws(report, file, &ls, &offs, Severity::Info, "DART001", "Trailing whitespace", "Remove trailing whitespace");
    }
}

/// DART010: print() detected.
#[derive(Clone, Copy, Debug)]
pub struct PrintUsage;

/// Whether a line is reported by DART010.
pub open spec fn dart010_hit(l: Seq<char>) -> bool {
    contains(l, "print("@)
}

fn dart010_test(l: &[char]) -> (b: bool)
    ensures
        b == dart010_hit(l@),
{
    contains_lit(l, "print(")
}

impl Rule for PrintUsage {
    open spec fn spec_id(&self) -> Seq<char> {
        "DART010"@
    }

    open spec fn spec_severity(&self) -> Severity {
        Severity::Info
    }

    open spec fn is_pure(&self) -> bool {
        true
    }

    open spec fn accepts(&self, source: Seq<char>, disabled: Seq<Seq<char>>) -> bool {
        true
    }

    fn id(&self) -> (r: &'static str) {
        "DART010"
    }

    fn severity(&self) -> (s: Severity) {
        Severity::Info
    }

    fn admits(&self, source: &str, config: &LintConfig) -> (b: bool) {
        true
    }

    open spec fn findings(&self, file: Option<Seq<char>>, source: Seq<char>, disabled: Seq<Seq<char>>) -> Seq<ErrorView> {
        if enabled(disabled, "DART010"@) {
            col_errors(hit_cols(lines(source).map_values(|l: Seq<char>| dart010_hit(l))), tmpl(file, Severity::Info, "DART010"@, "print() detected"@, "Remove debug prints in production"@))
        } else {
            seq![]
        }
    }

    fn check(&self, file: Option<&str>, source: &str, report: &mut LintReport, config: &LintConfig) {
        if !config.is_enabled(self.id()) {
            return;
        }
        let ls = lines_of_str(source);
        proof {
            lemma_lines_bounds(source@);
        }
        let mut hits: Vec<bool> = Vec::new();
        let mut i: usize = 0;
        while i < ls.len()
            invariant
                i <= ls@.len(),
                hits@.len() == i,
                views(ls@) == lines(source@),
                forall|j: int| 0 <= j < i ==> hits@[j] == dart010_hit(lines(source@)[j]),
            decreases ls@.len() - i,
        {
            assert(views(ls@)[i as int] == ls@[i as int]@);
            hits.push(dart010_test(ls[i].as_slice()));
            i += 1;
        }
        assert(hits@ =~= lines(source@).map_values(|l: Seq<char>| dart010_hit(l)));
        report_hits(report, file, &hits, Severity::Info, "DART010", "print() detected", "Remove debug prints in production");
    }
}

/// DART020: Usage of dynamic detected.
#[derive(Clone, Copy, Debug)]
pub struct DynamicUsage;

/// Whether a line is reported by DART020.
pub open spec fn dart020_hit(l: Seq<char>) -> bool {
    contains(l, " dynamic "@) || contains(l, ": dynamic"@)
}

fn dart020_test(l: &[char]) -> (b: bool)
    ensures
        b == dart020_hit(l@),
{
    contains_lit(l, " dynamic ") || contains_lit(l, ": dynamic")
}

impl Rule for DynamicUsage {
    open spec fn spec_id(&self) -> Seq<char> {
        "DART020"@
    }

    open spec fn spec_severity(&self) -> Severity {
        Severity::Warning
    }

    open spec fn is_pure(&self) -> bool {
        true
    }

    open spec fn accepts(&self, source: Seq<char>, disabled: Seq<Seq<char>>) -> bool {
        true
    }

    fn id(&self) -> (r: &'static str) {
        "DART020"
    }

    fn severity(&self) -> (s: Severity) {
        Severity::Warning
    }

    fn admits(&self, source: &str, config: &LintConfig) -> (b: bool) {
        true
    }

    open spec fn findings(&self, file: Option<Seq<char>>, source: Seq<char>, disabled: Seq<Seq<char>>) -> Seq<ErrorView> {
        if enabled(disabled, "DART020"@) {
            col_errors(hit_cols(lines(source).map_values(|l: Seq<char>| dart020_hit(l))), tmpl(file, Severity::Warning, "DART020"@, "Usage of dynamic detected"@, "Use specific types instead of dynamic"@))
        } else {
            seq![]
        }
    }

    fn check(&self, file: Option<&str>, source: &str, report: &mut LintReport, config: &LintConfig) {
        if !config.is_enabled(self.id()) {
            return;
        }
        let ls = lines_of_str(source);
        proof {
            lemma_lines_bounds(source@);
        }
        let mut hits: Vec<bool> = Vec::new();
        let mut i: usize = 0;
        while i < ls.len()
            invariant
                i <= ls@.len(),
                hits@.len() == i,
                views(ls@) == lines(source@),
                forall|j: int| 0 <= j < i ==> hits@[j] == dart020_hit(lines(source@)[j]),
            decreases ls@.len() - i,
        {
            assert(views(ls@)[i as int] == ls@[i as int]@);
            hits.push(dart020_test(ls[i].as_slice()));
            i += 1;
        }
        assert(hits@ =~= lines(source@).map_values(|l: Seq<char>| dart020_hit(l)));
        report_hits(report, file, &hits, Severity::Warning, "DART020", "Usage of dynamic detected", "Use specific types instead of dynamic");
    }
}

/// DART030: Avoid async void functions.
#[derive(Clone, Copy, Debug)]
pub struct AsyncVoidUsage;

/// Whether a line is reported by DART030.
pub open spec fn dart030_hit(l: Seq<char>) -> bool {
    contains(l, "async"@) && contains(l, "void "@)
}

fn dart030_test(l: &[char]) -> (b: bool)
    ensures
        b == dart030_hit(l@),
{
    contains_lit(l, "async") && contains_lit(l, "void ")
}

impl Rule for AsyncVoidUsage {
    open spec fn spec_id(&self) -> Seq<char> {
        "DART030"@
    }

    open spec fn spec_severity(&self) -> Severity {
        Severity::Error
    }

    open spec fn is_pure(&self) -> bool {
        true
    }

    open spec fn accepts(&self, source: Seq<char>, disabled: Seq<Seq<char>>) -> bool {
        true
    }

    fn id(&self) -> (r: &'static str) {
        "DART030"
    }

    fn severity(&self) -> (s: Severity) {
        Severity::Error
    }

    fn admits(&self, source: &str, config: &LintConfig) -> (b: bool) {
        true
    }

    open spec fn findings(&self, file: Option<Seq<char>>, source: Seq<char>, disabled: Seq<Seq<char>>) -> Seq<ErrorView> {
        if enabled(disabled, "DART030"@) {
            col_errors(hit_cols(lines(source).map_values(|l: Seq<char>| dart030_hit(l))), tmpl(file, Severity::Error, "DART030"@, "Avoid async void functions"@, "Use Future<void> instead"@))
        } else {
            seq![]
        }
    }

    fn check(&self, file: Option<&str>, source: &str, report: &mut LintReport, config: &LintConfig) {
        if !config.is_enabled(self.id()) {
            return;
        }
        let ls = lines_of_str(source);
        proof {
            lemma_lines_bounds(source@);
        }
        let mut hits: Vec<bool> = Vec::new();
        let mut i: usize = 0;
        while i < ls.len()
            invariant
                i <= ls@.len(),
                hits@.len() == i,
                views(ls@) == lines(source@),
                forall|j: int| 0 <= j < i ==> hits@[j] == dart030_hit(lines(source@)[j]),
            decreases ls@.len() - i,
        {
            assert(views(ls@)[i as int] == ls@[i as int]@);
            hits.push(dart030_test(ls[i].as_slice()));
            i += 1;
        }
        assert(hits@ =~= lines(source@).map_values(|l: Seq<char>| dart030_hit(l)));
        report_hits(report, file, &hits, Severity::Error, "DART030", "Avoid async void functions", "Use Future<void> instead");
    }
}

/// DART040: Null assertion operator used.
#[derive(Clone, Copy, Debug)]
pub struct NullAssertionUsage;

/// Whether a line is reported by DART040.
pub open spec fn dart040_hit(l: Seq<char>) -> bool {
    contains(l, "!."@) || ends_with(trim_end(l), "!"@)
}

fn dart040_test(l: &[char]) -> (b: bool)
    ensures
        b == dart040_hit(l@),
{
    contains_lit(l, "!.") || ends_with_lit(trimmed_end(l).as_slice(), "!")
}

impl Rule for NullAssertionUsage {
    open spec fn spec_id(&self) -> Seq<char> {
        "DART040"@
    }

    open spec fn spec_severity(&self) -> Severity {
        Severity::Warning
    }

    open spec fn is_pure(&self) -> bool {
        true
    }

    open spec fn accepts(&self, source: Seq<char>, disabled: Seq<Seq<char>>) -> bool {
        true
    }

    fn id(&self) -> (r: &'static str) {
        "DART040"
    }

    fn severity(&self) -> (s: Severity) {
        Severity::Warning
    }

    fn admits(&self, source: &str, config: &LintConfig) -> (b: bool) {
        true
    }

    open spec fn findings(&self, file: Option<Seq<char>>, source: Seq<char>, disabled: Seq<Seq<char>>) -> Seq<ErrorView> {
        if enabled(disabled, "DART040"@) {
            col_errors(hit_cols(lines(source).map_values(|l: Seq<char>| dart040_hit(l))), tmpl(file, Severity::Warning, "DART040"@, "Null assertion operator used"@, "Handle null safely instead of using !"@))
        } else {
            seq![]
        }
    }

    fn check(&self, file: Option<&str>, source: &str, report: &mut LintReport, config: &LintConfig) {
        if !config.is_enabled(self.id()) {
            return;
        }
        let ls = lines_of_str(source);
        proof {
            lemma_lines_bounds(source@);
        }
        let mut hits: Vec<bool> = Vec::new();
        let mut i: usize = 0;
        while i < ls.len()
            invariant
                i <= ls@.len(),
                hits@.len() == i,
                views(ls@) == lines(source@),
                forall|j: int| 0 <= j < i ==> hits@[j] == dart040_hit(lines(source@)[j]),
            decreases ls@.len() - i,
        {
            assert(views(ls@)[i as int] == ls@[i as int]@);
            hits.push(dart040_test(ls[i].as_slice()));
            i += 1;
        }
        assert(hits@ =~= lines(source@).map_values(|l: Seq<char>| dart040_hit(l)));
        report_hits(report, file, &hits, Severity::Warning, "DART040", "Null assertion operator used", "Handle null safely instead of using !");
    }
}

/// DART050: setState called without checking mounted.
#[derive(Clone, Copy, Debug)]
pub struct SetStateWithoutMountedCheck;

/// Whether DART050 reports a source.
pub open spec fn dart050_hit(file: Option<Seq<char>>, src: Seq<char>) -> bool {
    contains(src, "setState("@) && !contains(src, "mounted"@)
}

fn dart050_test(file: Option<&str>, src: &[char]) -> (b: bool)
    requires
        fits(src@),
    ensures
        b == dart050_hit(opt_str_view(file), src@),
{
    contains_lit(src, "setState(") && !contains_lit(src, "mounted")
}

impl Rule for SetStateWithoutMountedCheck {
    open spec fn spec_id(&self) -> Seq<char> {
        "DART050"@
    }

    open spec fn spec_severity(&self) -> Severity {
        Severity::Warning
    }

    open spec fn is_pure(&self) -> bool {
        true
    }

    open spec fn accepts(&self, source: Seq<char>, disabled: Seq<Seq<char>>) -> bool {
        true
    }

    fn id(&self) -> (r: &'static str) {
        "DART050"
    }

    fn severity(&self) -> (s: Severity) {
        Severity::Warning
    }

    fn admits(&self, source: &str, config: &LintConfig) -> (b: bool) {
        true
    }

    open spec fn findings(&self, file: Option<Seq<char>>, source: Seq<char>, disabled: Seq<Seq<char>>) -> Seq<ErrorView> {
        if enabled(disabled, "DART050"@) {
            once(dart050_hit(file, source), tmpl(file, Severity::Warning, "DART050"@, "setState called without checking mounted"@, "Check if (mounted) before calling setState"@))
        } else {
            seq![]
        }
    }

    fn check(&self, file: Option<&str>, source: &str, report: &mut LintReport, config: &LintConfig) {
        if !config.is_enabled(self.id()) {
            return;
        }
        let src = chars_of(source);
        let hit = dart050_test(file, src.as_slice());
        report_once(report, file, hit, Severity::Warning, "DART050", "setState called without checking mounted", "Check if (mounted) before calling setState");
    }
}

/// DART060: Missing explicit return type.
#[derive(Clone, Copy, Debug)]
pub struct MissingReturnType;

/// Whether a line is reported by DART060.
pub open spec fn dart060_hit(l: Seq<char>) -> bool {
    (contains(l, "("@) && contains(l, ")"@) && contains(l, "{"@) && !contains(l, "=>"@)) && (!contains(l, "Future"@) && !contains(l, "void"@) && !contains(l, "int"@))
}

fn dart060_test(l: &[char]) -> (b: bool)
    ensures
        b == dart060_hit(l@),
{
    (contains_lit(l, "(") && contains_lit(l, ")") && contains_lit(l, "{") && !contains_lit(l, "=>")) && (!contains_lit(l, "Future") && !contains_lit(l, "void") && !contains_lit(l, "int"))
}

impl Rule for MissingReturnType {
    open spec fn spec_id(&self) -> Seq<char> {
        "DART060"@
    }

    open spec fn spec_severity(&self) -> Severity {
        Severity::Info
    }

    open spec fn is_pure(&self) -> bool {
        true
    }

    open spec fn accepts(&self, source: Seq<char>, disabled: Seq<Seq<char>>) -> bool {
        true
    }

    fn id(&self) -> (r: &'static str) {
        "DART060"
    }

    fn severity(&self) -> (s: Severity) {
        Severity::Info
    }

    fn admits(&self, source: &str, config: &LintConfig) -> (b: bool) {
        true
    }

    open spec fn findings(&self, file: Option<Seq<char>>, source: Seq<char>, disabled: Seq<Seq<char>>) -> Seq<ErrorView> {
        if enabled(disabled, "DART060"@) {
            col_errors(hit_cols(lines(source).map_values(|l: Seq<char>| dart060_hit(l))), tmpl(file, Severity::Info, "DART060"@, "Missing explicit return type"@, "Declare explicit return type"@))
        } else {
            seq![]
        }
    }

    fn check(&self, file: Option<&str>, source: &str, report: &mut LintReport, config: &LintConfig) {
        if !config.is_enabled(self.id()) {
            return;
        }
        let ls = lines_of_str(source);
        proof {
            lemma_lines_bounds(source@);
        }
        let mut hits: Vec<bool> = Vec::new();
        let mut i: usize = 0;
        while i < ls.len()
            invariant
                i <= ls@.len(),
                hits@.len() == i,
                views(ls@) == lines(source@),
                forall|j: int| 0 <= j < i ==> hits@[j] == dart060_hit(lines(source@)[j]),
            decreases ls@.len() - i,
        {
            assert(views(ls@)[i as int] == ls@[i as int]@);
            hits.push(dart060_test(ls[i].as_slice()));
            i += 1;
        }
        assert(hits@ =~= lines(source@).map_values(|l: Seq<char>| dart060_hit(l)));
        report_hits(report, file, &hits, Severity::Info, "DART060", "Missing explicit return type", "Declare explicit return type");
    }
}

/// DART090: Unreachable code detected.
#[derive(Clone, Copy, Debug)]
pub struct UnreachableCode;

/// Whether a line ends the reachable code for DART090.
pub open spec fn dart090_term(l: Seq<char>) -> bool {
    starts_with(trim_start(l), "return "@)
}

fn dart090_term_test(l: &[char]) -> (b: bool)
    ensures
        b == dart090_term(l@),
{
    starts_with_lit(trimmed_start(l).as_slice(), "return ")
}

impl Rule for UnreachableCode {
    open spec fn spec_id(&self) -> Seq<char> {
        "DART090"@
    }

    open spec fn spec_severity(&self) -> Severity {
        Severity::Error
    }

    open spec fn is_pure(&self) -> bool {
        true
    }

    open spec fn accepts(&self, source: Seq<char>, disabled: Seq<Seq<char>>) -> bool {
        true
    }

    fn id(&self) -> (r: &'static str) {
        "DART090"
    }

    fn severity(&self) -> (s: Severity) {
        Severity::Error
    }

    fn admits(&self, source: &str, config: &LintConfig) -> (b: bool) {
        true
    }

    open spec fn findings(&self, file: Option<Seq<char>>, source: Seq<char>, disabled: Seq<Seq<char>>) -> Seq<ErrorView> {
        if enabled(disabled, "DART090"@) {
            unreachable_errors(lines(source), lines(source).map_values(|l: Seq<char>| dart090_term(l)), tmpl(file, Severity::Error, "DART090"@, "Unreachable code detected"@, "Remove unreachable code"@))
        } else {
            seq![]
        }
    }

    fn check(&self, file: Option<&str>, source: &str, report: &mut LintReport, config: &LintConfig) {
        if !config.is_enabled(self.id()) {
            return;
        }
        let ls = lines_of_str(source);
        proof {
            lemma_lines_bounds(source@);
        }
        let mut term: Vec<bool> = Vec::new();
        let mut i: usize = 0;
        while i < ls.len()
            invariant
                i <= ls@.len(),
                term@.len() == i,
                views(ls@) == lines(source@),
                forall|j: int| 0 <= j < i ==> term@[j] == dart090_term(lines(source@)[j]),
            decreases ls@.len() - i,
        {
            assert(views(ls@)[i as int] == ls@[i as int]@);
            term.push(dart090_term_test(ls[i].as_slice()));
            i += 1;
        }
        assert(term@ =~= lines(source@).map_values(|l: Seq<char>| dart090_term(l)));
        report_unreachable(report, file, &ls, &term, Severity::Error, "DART090", "Unreachable code detected", "Remove unreachable code");
    }
}

/// The rules of the Dart rule set, in order.
pub open spec fn rule_set() -> Seq<LintRule> {
    seq![LintRule::DART001(TrailingWhitespace), LintRule::DART010(PrintUsage), LintRule::DART020(DynamicUsage), LintRule::DART030(AsyncVoidUsage), LintRule::DART040(NullAssertionUsage), LintRule::DART060(MissingReturnType), LintRule::DART050(SetStateWithoutMountedCheck), LintRule::DART090(UnreachableCode)]
}

/// The Dart rule set.
pub fn linter() -> (l: Linter)
    ensures
        l@ == rule_set(),
{
    let l = Linter::new();
    assert(l@ == Seq::<LintRule>::empty());
    proof {
        lemma_fresh(l@, LintRule::DART001(TrailingWhitespace));
    }
    let l = l.add_rule(LintRule::DART001(TrailingWhitespace));
    proof {
        reveal_strlit("DART001");
        reveal_strlit("DART010");
        assert("DART001"@[5] != "DART010"@[5]);
        lemma_fresh(l@, LintRule::DART010(PrintUsage));
    }
    let l = l.add_rule(LintRule::DART010(PrintUsage));
    proof {
        reveal_strlit("DART001");
        reveal_strlit("DART010");
        reveal_strlit("DART020");
        assert("DART001"@[5] != "DART020"@[5]);
        assert("DART010"@[5] != "DART020"@[5]);
        lemma_fresh(l@, LintRule::DART020(DynamicUsage));
    }
    let l = l.add_rule(LintRule::DART020(DynamicUsage));
    proof {
        reveal_strlit("DART001");
        reveal_strlit("DART010");
        reveal_strlit("DART020");
        reveal_strlit("DART030");
        assert("DART001"@[5] != "DART030"@[5]);
        assert("DART010"@[5] != "DART030"@[5]);
        assert("DART020"@[5] != "DART030"@[5]);
        lemma_fresh(l@, LintRule::DART030(AsyncVoidUsage));
    }
    let l = l.add_rule(LintRule::DART030(AsyncVoidUsage));
    proof {
        reveal_strlit("DART001");
        reveal_strlit("DART010");
        reveal_strlit("DART020");
        reveal_strlit("DART030");
        reveal_strlit("DART040");
        assert("DART001"@[5] != "DART040"@[5]);
        assert("DART010"@[5] != "DART040"@[5]);
        assert("DART020"@[5] != "DART040"@[5]);
        assert("DART030"@[5] != "DART040"@[5]);
        lemma_fresh(l@, LintRule::DART040(NullAssertionUsage));
    }
    let l = l.add_rule(LintRule::DART040(NullAssertionUsage));
    proof {
        reveal_strlit("DART001");
        reveal_strlit("DART010");
        reveal_strlit("DART020");
        reveal_strlit("DART030");
        reveal_strlit("DART040");
        reveal_strlit("DART060");
        assert("DART001"@[5] != "DART060"@[5]);
        assert("DART010"@[5] != "DART060"@[5]);
        assert("DART020"@[5] != "DART060"@[5]);
        assert("DART030"@[5] != "DART060"@[5]);
        assert("DART040"@[5] != "DART060"@[5]);
        lemma_fresh(l@, LintRule::DART060(MissingReturnType));
    }
    let l = l.add_rule(LintRule::DART060(MissingReturnType));
    proof {
        reveal_strlit("DART001");
        reveal_strlit("DART010");
        reveal_strlit("DART020");
        reveal_strlit("DART030");
        reveal_strlit("DART040");
        reveal_strlit("DART060");
        reveal_strlit("DART050");
        assert("DART001"@[5] != "DART050"@[5]);
        assert("DART010"@[5] != "DART050"@[5]);
        assert("DART020"@[5] != "DART050"@[5]);
        assert("DART030"@[5] != "DART050"@[5]);
        assert("DART040"@[5] != "DART050"@[5]);
        assert("DART060"@[5] != "DART050"@[5]);
        lemma_fresh(l@, LintRule::DART050(SetStateWithoutMountedCheck));
    }
    let l = l.add_rule(LintRule::DART050(SetStateWithoutMountedCheck));
    proof {
        reveal_strlit("DART001");
        reveal_strlit("DART010");
        reveal_strlit("DART020");
        reveal_strlit("DART030");
        reveal_strlit("DART040");
        reveal_strlit("DART060");
        reveal_strlit("DART050");
        reveal_strlit("DART090");
        assert("DART001"@[5] != "DART090"@[5]);
        assert("DART010"@[5] != "DART090"@[5]);
        assert("DART020"@[5] != "DART090"@[5]);
        assert("DART030"@[5] != "DART090"@[5]);
        assert("DART040"@[5] != "DART090"@[5]);
        assert("DART060"@[5] != "DART090"@[5]);
        assert("DART050"@[5] != "DART090"@[5]);
        lemma_fresh(l@, LintRule::DART090(UnreachableCode));
    }
    let l = l.add_rule(LintRule::DART090(UnreachableCode));
    l
}

} // verus!
