//! Python
use vstd::prelude::*;
use crate::lint::config::{LintConfig, enabled};
use crate::lint::error::{ErrorView, Severity, opt_str_view};
use crate::lint::linter::{Linter, lemma_fresh};
use crate::lint::registry::LintRule;
use crate::lint::report::LintReport;
use crate::lint::rule::Rule;
use crate::lint::edit::{Fix, single_fix};
use crate::lint::support::{lemma_col_errors, lemma_line_fits, sum_pieces, line_offset, Tmpl, at, col_errors, hit_cols, once, tmpl, finding, make_error, report_hits, report_once, report_cols, lemma_lines_bounds, lemma_lines_total, total_chars, lemma_total_chars_take};
use crate::linters::common::{count_matches, count_matches_exec, count_lit, find_col, find_col_exec, word_errors, report_words, comma_needs_space, comma_needs_space_exec, brace_needs_space, brace_needs_space_exec, brace_prev_ascii, brace_prev_ascii_exec, match_errors, report_matches, all_true, trues, trailing_ws_errors, acc_offsets, piece_offsets, report_trailing_ws, acc_offsets_exec, piece_offsets_exec, unreachable_errors, report_unreachable};
use crate::text::{lines, views, contains, starts_with, ends_with, trim, trim_start, trim_end, upper, lower, chars_of, lines_of_str, contains_lit, starts_with_lit, ends_with_lit, eq_lit, trimmed, trimmed_start, trimmed_end, upper_of, lower_of, owned, string_of, slice_of, find, find_char, find_lit, find_chars, lemma_find, matches_at, is_ws, is_whitespace, utf8_len, byte_len, prefix_bytes, any_upper, has_upper, lemma_utf8_len_take, lemma_utf8_len_subrange, split_char, fits, match_indices, match_positions_lit, char_width, split_on, contains_char, numeric_char, is_numeric};

verus! {

/// PY001: Trailing whitespace.
#[derive(Clone, Copy, Debug)]
pub struct TrailingWhitespace;

impl Rule for TrailingWhitespace {
    open spec fn spec_id(&self) -> Seq<char> {
        "PY001"@
    }

    open spec fn spec_severity(&self) -> Severity {
        Severity::Info
    }

    open spec fn is_pure(&self) -> bool {
        true
    }

    open spec fn accepts(&self, source: Seq<char>, disabled: Seq<Seq<char>>) -> bool {
        true
    }

    fn id(&self) -> (r: &'static str) {
        "PY001"
    }

    fn severity(&self) -> (s: Severity) {
        Severity::Info
    }

    fn admits(&self, source: &str, config: &LintConfig) -> (b: bool) {
        true
    }

    open spec fn findings(&self, file: Option<Seq<char>>, source: Seq<char>, disabled: Seq<Seq<char>>) -> Seq<ErrorView> {
        if enabled(disabled, "PY001"@) {
            trailing_ws_errors(lines(source), acc_offsets(lines(source)), tmpl(file, Severity::Info, "PY001"@, "Trailing whitespace"@, "Remove trailing whitespace"@))
        } else {
            seq![]
        }
    }

    fn check(&self, file: Option<&str>, source: &str, report: &mut LintReport, config: &LintConfig) {
        if !config.is_enabled(self.id()) {
            return;
        }
        let ls = lines_of_str(source);
        proof {
            lemma_lines_bounds(source@);
        }
        let offs = acc_offsets_exec(&ls, Ghost(source@));
        report_trailing_ws(report, file, &ls, &offs, Severity::Info, "PY001", "Trailing whitespace", "Remove trailing whitespace");
    }
}

/// PY010: Missing shebang line.
#[derive(Clone, Copy, Debug)]
pub struct MissingShebang;

/// Whether PY010 reports a source.
pub open spec fn py010_hit(file: Option<Seq<char>>, src: Seq<char>) -> bool {
    file is Some && !starts_with(src, "#!"@)
}

fn py010_test(file: Option<&str>, src: &[char]) -> (b: bool)
    requires
        fits(src@),
    ensures
        b == py010_hit(opt_str_view(file), src@),
{
    file.is_some() && !starts_with_lit(src, "#!")
}

impl Rule for MissingShebang {
    open spec fn spec_id(&self) -> Seq<char> {
        "PY010"@
    }

    open spec fn spec_severity(&self) -> Severity {
        Severity::Info
    }

    open spec fn is_pure(&self) -> bool {
        true
    }

    open spec fn accepts(&self, source: Seq<char>, disabled: Seq<Seq<char>>) -> bool {
        true
    }

    fn id(&self) -> (r: &'static str) {
        "PY010"
    }

    fn severity(&self) -> (s: Severity) {
        Severity::Info
    }

    fn admits(&self, source: &str, config: &LintConfig) -> (b: bool) {
        true
    }

    open spec fn findings(&self, file: Option<Seq<char>>, source: Seq<char>, disabled: Seq<Seq<char>>) -> Seq<ErrorView> {
        if enabled(disabled, "PY010"@) {
            once(py010_hit(file, source), tmpl(file, Severity::Info, "PY010"@, "Missing shebang line"@, "Add #!/usr/bin/env python3"@))
        } else {
            seq![]
        }
    }

    fn check(&self, file: Option<&str>, source: &str, report: &mut LintReport, config: &LintConfig) {
        if !config.is_enabled(self.id()) {
            return;
        }
        let src = chars_of(source);
        let hit = py010_test(file, src.as_slice());
        report_once(report, file, hit, Severity::Info, "PY010", "Missing shebang line", "Add #!/usr/bin/env python3");
    }
}

/// PY020: Use of exec() detected.
#[derive(Clone, Copy, Debug)]
pub struct ExecUsage;

/// Whether a line is reported by PY020.
pub open spec fn py020_hit(l: Seq<char>) -> bool {
    contains(l, "exec("@)
}

fn py020_test(l: &[char]) -> (b: bool)
    ensures
        b == py020_hit(l@),
{
    contains_lit(l, "exec(")
}

impl Rule for ExecUsage {
    open spec fn spec_id(&self) -> Seq<char> {
        "PY020"@
    }

    open spec fn spec_severity(&self) -> Severity {
        Severity::Error
    }

    open spec fn is_pure(&self) -> bool {
        true
    }

    open spec fn accepts(&self, source: Seq<char>, disabled: Seq<Seq<char>>) -> bool {
        true
    }

    fn id(&self) -> (r: &'static str) {
        "PY020"
    }

    fn severity(&self) -> (s: Severity) {
        Severity::Error
    }

    fn admits(&self, source: &str, config: &LintConfig) -> (b: bool) {
        true
    }

    open spec fn findings(&self, file: Option<Seq<char>>, source: Seq<char>, disabled: Seq<Seq<char>>) -> Seq<ErrorView> {
        if enabled(disabled, "PY020"@) {
            col_errors(hit_cols(lines(source).map_values(|l: Seq<char>| py020_hit(l))), tmpl(file, Severity::Error, "PY020"@, "Use of exec() detected"@, "Avoid dynamic code execution"@))
        } else {
            seq![]
        }
    }

    fn check(&self, file: Option<&str>, source: &str, report: &mut LintReport, config: &LintConfig) {
        if !config.is_enabled(self.id()) {
            return;
        }
        let ls = lines_of_str(source);
        proof {
            lemma_lines_bounds(source@);
        }
        let mut hits: Vec<bool> = Vec::new();
        let mut i: usize = 0;
        while i < ls.len()
            invariant
                i <= ls@.len(),
                hits@.len() == i,
                views(ls@) == lines(source@),
                forall|j: int| 0 <= j < i ==> hits@[j] == py020_hit(lines(source@)[j]),
            decreases ls@.len() - i,
        {
            assert(views(ls@)[i as int] == ls@[i as int]@);
            hits.push(py020_test(ls[i].as_slice()));
            i += 1;
        }
        assert(hits@ =~= lines(source@).map_values(|l: Seq<char>| py020_hit(l)));
        report_hits(report, file, &hits, Severity::Error, "PY020", "Use of exec() detected", "Avoid dynamic code execution");
    }
}

/// PY021: Use of eval() detected.
#[derive(Clone, Copy, Debug)]
pub struct EvalUsage;

/// Whether a line is reported by PY021.
pub open spec fn py021_hit(l: Seq<char>) -> bool {
    contains(l, "eval("@)
}

fn py021_test(l: &[char]) -> (b: bool)
    ensures
        b == py021_hit(l@),
{
    contains_lit(l, "eval(")
}

impl Rule for EvalUsage {
    open spec fn spec_id(&self) -> Seq<char> {
        "PY021"@
    }

    open spec fn spec_severity(&self) -> Severity {
        Severity::Error
    }

    open spec fn is_pure(&self) -> bool {
        true
    }

    open spec fn accepts(&self, source: Seq<char>, disabled: Seq<Seq<char>>) -> bool {
        true
    }

    fn id(&self) -> (r: &'static str) {
        "PY021"
    }

    fn severity(&self) -> (s: Severity) {
        Severity::Error
    }

    fn admits(&self, source: &str, config: &LintConfig) -> (b: bool) {
        true
    }

    open spec fn findings(&self, file: Option<Seq<char>>, source: Seq<char>, disabled: Seq<Seq<char>>) -> Seq<ErrorView> {
        if enabled(disabled, "PY021"@) {
            col_errors(hit_cols(lines(source).map_values(|l: Seq<char>| py021_hit(l))), tmpl(file, Severity::Error, "PY021"@, "Use of eval() detected"@, "Avoid evaluating dynamic expressions"@))
        } else {
            seq![]
        }
    }

    fn check(&self, file: Option<&str>, source: &str, report: &mut LintReport, config: &LintConfig) {
        if !config.is_enabled(self.id()) {
            return;
        }
        let ls = lines_of_str(source);
        proof {
            lemma_lines_bounds(source@);
        }
        let mut hits: Vec<bool> = Vec::new();
        let mut i: usize = 0;
        while i < ls.len()
            invariant
                i <= ls@.len(),
                hits@.len() == i,
                views(ls@) == lines(source@),
                forall|j: int| 0 <= j < i ==> hits@[j] == py021_hit(lines(source@)[j]),
            decreases ls@.len() - i,
        {
            assert(views(ls@)[i as int] == ls@[i as int]@);
            hits.push(py021_test(ls[i].as_slice()));
            i += 1;
        }
        assert(hits@ =~= lines(source@).map_values(|l: Seq<char>| py021_hit(l)));
        report_hits(report, file, &hits, Severity::Error, "PY021", "Use of eval() detected", "Avoid evaluating dynamic expressions");
    }
}

/// PY030: Wildcard import used.
#[derive(Clone, Copy, Debug)]
pub struct WildcardImport;

/// Whether a line is reported by PY030.
pub open spec fn py030_hit(l: Seq<char>) -> bool {
    starts_with(trim_start(l), "from "@) && contains(l, " import *"@)
}

fn py030_test(l: &[char]) -> (b: bool)
    ensures
        b == py030_hit(l@),
{
    starts_with_lit(trimmed_start(l).as_slice(), "from ") && contains_lit(l, " import *")
}

impl Rule for WildcardImport {
    open spec fn spec_id(&self) -> Seq<char> {
        "PY030"@
    }

    open spec fn spec_severity(&self) -> Severity {
        Severity::Warning
    }

    open spec fn is_pure(&self) -> bool {
        true
    }

    open spec fn accepts(&self, source: Seq<char>, disabled: Seq<Seq<char>>) -> bool {
        true
    }

    fn id(&self) -> (r: &'static str) {
        "PY030"
    }

    fn severity(&self) -> (s: Severity) {
        Severity::Warning
    }

    fn admits(&self, source: &str, config: &LintConfig) -> (b: bool) {
        true
    }

    open spec fn findings(&self, file: Option<Seq<char>>, source: Seq<char>, disabled: Seq<Seq<char>>) -> Seq<ErrorView> {
        if enabled(disabled, "PY030"@) {
            col_errors(hit_cols(lines(source).map_values(|l: Seq<char>| py030_hit(l))), tmpl(file, Severity::Warning, "PY030"@, "Wildcard import used"@, "Import specific names instead of *"@))
        } else {
            seq![]
        }
    }

    fn check(&self, file: Option<&str>, source: &str, report: &mut LintReport, config: &LintConfig) {
        if !config.is_enabled(self.id()) {
            return;
        }
        let ls = lines_of_str(source);
        proof {
            lemma_lines_bounds(source@);
        }
        let mut hits: Vec<bool> = Vec::new();
        let mut i: usize = 0;
        while i < ls.len()
            invariant
                i <= ls@.len(),
                hits@.len() == i,
                views(ls@) == lines(source@),
                forall|j: int| 0 <= j < i ==> hits@[j] == py030_hit(lines(source@)[j]),
            decreases ls@.len() - i,
        {
            assert(views(ls@)[i as int] == ls@[i as int]@);
            hits.push(py030_test(ls[i].as_slice()));
            i += 1;
        }
        assert(hits@ =~= lines(source@).map_values(|l: Seq<char>| py030_hit(l)));
        report_hits(report, file, &hits, Severity::Warning, "PY030", "Wildcard import used", "Import specific names instead of *");
    }
}

/// PY031: Bare except detected.
#[derive(Clone, Copy, Debug)]
pub struct BareExcept;

/// Whether a line is reported by PY031.
pub open spec fn py031_hit(l: Seq<char>) -> bool {
    trim(l) == "except:"@
}

fn py031_test(l: &[char]) -> (b: bool)
    ensures
        b == py031_hit(l@),
{
    eq_lit(trimmed(l).as_slice(), "except:")
}

impl Rule for BareExcept {
    open spec fn spec_id(&self) -> Seq<char> {
        "PY031"@
    }

    open spec fn spec_severity(&self) -> Severity {
        Severity::Error
    }

    open spec fn is_pure(&self) -> bool {
        true
    }

    open spec fn accepts(&self, source: Seq<char>, disabled: Seq<Seq<char>>) -> bool {
        true
    }

    fn id(&self) -> (r: &'static str) {
        "PY031"
    }

    fn severity(&self) -> (s: Severity) {
        Severity::Error
    }

    fn admits(&self, source: &str, config: &LintConfig) -> (b: bool) {
        true
    }

    open spec fn findings(&self, file: Option<Seq<char>>, source: Seq<char>, disabled: Seq<Seq<char>>) -> Seq<ErrorView> {
        if enabled(disabled, "PY031"@) {
            col_errors(hit_cols(lines(source).map_values(|l: Seq<char>| py031_hit(l))), tmpl(file, Severity::Error, "PY031"@, "Bare except detected"@, "Catch specific exception types"@))
        } else {
            seq![]
        }
    }

    fn check(&self, file: Option<&str>, source: &str, report: &mut LintReport, config: &LintConfig) {
        if !config.is_enabled(self.id()) {
            return;
        }
        let ls = lines_of_str(source);
        proof {
            lemma_lines_bounds(source@);
        }
        let mut hits: Vec<bool> = Vec::new();
        let mut i: usize = 0;
        while i < ls.len()
            invariant
                i <= ls@.len(),
                hits@.len() == i,
                views(ls@) == lines(source@),
                forall|j: int| 0 <= j < i ==> hits@[j] == py031_hit(lines(source@)[j]),
            decreases ls@.len() - i,
        {
            assert(views(ls@)[i as int] == ls@[i as int]@);
            hits.push(py031_test(ls[i].as_slice()));
            i += 1;
        }
        assert(hits@ =~= lines(source@).map_values(|l: Seq<char>| py031_hit(l)));
        report_hits(report, file, &hits, Severity::Error, "PY031", "Bare except detected", "Catch specific exception types");
    }
}

/// PY040: Mutable default argument.
#[derive(Clone, Copy, Debug)]
pub struct MutableDefaultArgument;

/// Whether a line is reported by PY040.
pub open spec fn py040_hit(l: Seq<char>) -> bool {
    contains(l, "def "@) && (contains(l, "=[]"@) || contains(l, "={}"@))
}

fn py040_test(l: &[char]) -> (b: bool)
    ensures
        b == py040_hit(l@),
{
    contains_lit(l, "def ") && (contains_lit(l, "=[]") || contains_lit(l, "={}"))
}

impl Rule for MutableDefaultArgument {
    open spec fn spec_id(&self) -> Seq<char> {
        "PY040"@
    }

    open spec fn spec_severity(&self) -> Severity {
        Severity::Error
    }

    open spec fn is_pure(&self) -> bool {
        true
    }

    open spec fn accepts(&self, source: Seq<char>, disabled: Seq<Seq<char>>) -> bool {
        true
    }

    fn id(&self) -> (r: &'static str) {
        "PY040"
    }

    fn severity(&self) -> (s: Severity) {
        Severity::Error
    }

    fn admits(&self, source: &str, config: &LintConfig) -> (b: bool) {
        true
    }

    open spec fn findings(&self, file: Option<Seq<char>>, source: Seq<char>, disabled: Seq<Seq<char>>) -> Seq<ErrorView> {
        if enabled(disabled, "PY040"@) {
            col_errors(hit_cols(lines(source).map_values(|l: Seq<char>| py040_hit(l))), tmpl(file, Severity::Error, "PY040"@, "Mutable default argument"@, "Use None and initialize inside function"@))
        } else {
            seq![]
        }
    }

    fn check(&self, file: Option<&str>, source: &str, report: &mut LintReport, config: &LintConfig) {
        if !config.is_enabled(self.id()) {
            return;
        }
        let ls = lines_of_str(source);
        proof {
            lemma_lines_bounds(source@);
        }
        let mut hits: Vec<bool> = Vec::new();
        let mut i: usize = 0;
        while i < ls.len()
            invariant
                i <= ls@.len(),
                hits@.len() == i,
                views(ls@) == lines(source@),
                forall|j: int| 0 <= j < i ==> hits@[j] == py040_hit(lines(source@)[j]),
            decreases ls@.len() - i,
        {
            assert(views(ls@)[i as int] == ls@[i as int]@);
            hits.push(py040_test(ls[i].as_slice()));
            i += 1;
        }
        assert(hits@ =~= lines(source@).map_values(|l: Seq<char>| py040_hit(l)));
        report_hits(report, file, &hits, Severity::Error, "PY040", "Mutable default argument", "Use None and initialize inside function");
    }
}

/// PY050: Comparison to None using ==.
#[derive(Clone, Copy, Debug)]
pub struct ComparisonToNoneUsingDoubleEquals;

/// Whether a line is reported by PY050.
pub open spec fn py050_hit(l: Seq<char>) -> bool {
    contains(l, "== None"@) || contains(l, "!= None"@)
}

fn py050_test(l: &[char]) -> (b: bool)
    ensures
        b == py050_hit(l@),
{
    contains_lit(l, "== None") || contains_lit(l, "!= None")
}

impl Rule for ComparisonToNoneUsingDoubleEquals {
    open spec fn spec_id(&self) -> Seq<char> {
        "PY050"@
    }

    open spec fn spec_severity(&self) -> Severity {
        Severity::Warning
    }

    open spec fn is_pure(&self) -> bool {
        true
    }

    open spec fn accepts(&self, source: Seq<char>, disabled: Seq<Seq<char>>) -> bool {
        true
    }

    fn id(&self) -> (r: &'static str) {
        "PY050"
    }

    fn severity(&self) -> (s: Severity) {
        Severity::Warning
    }

    fn admits(&self, source: &str, config: &LintConfig) -> (b: bool) {
        true
    }

    open spec fn findings(&self, file: Option<Seq<char>>, source: Seq<char>, disabled: Seq<Seq<char>>) -> Seq<ErrorView> {
        if enabled(disabled, "PY050"@) {
            col_errors(hit_cols(lines(source).map_values(|l: Seq<char>| py050_hit(l))), tmpl(file, Severity::Warning, "PY050"@, "Comparison to None using =="@, "Use 'is None' or 'is not None'"@))
        } else {
            seq![]
        }
    }

    fn check(&self, file: Option<&str>, source: &str, report: &mut LintReport, config: &LintConfig) {
        if !config.is_enabled(self.id()) {
            return;
        }
        let ls = lines_of_str(source);
        proof {
            lemma_lines_bounds(source@);
        }
        let mut hits: Vec<bool> = Vec::new();
        let mut i: usize = 0;
        while i < ls.len()
            invariant
                i <= ls@.len(),
                hits@.len() == i,
                views(ls@) == lines(source@),
                forall|j: int| 0 <= j < i ==> hits@[j] == py050_hit(lines(source@)[j]),
            decreases ls@.len() - i,
        {
            assert(views(ls@)[i as int] == ls@[i as int]@);
            hits.push(py050_test(ls[i].as_slice()));
            i += 1;
        }
        assert(hits@ =~= lines(source@).map_values(|l: Seq<char>| py050_hit(l)));
        report_hits(report, file, &hits, Severity::Warning, "PY050", "Comparison to None using ==", "Use 'is None' or 'is not None'");
    }
}

/// PY060: Assert statement detected.
#[derive(Clone, Copy, Debug)]
pub struct AssertUsedInProduction;

/// Whether a line is reported by PY060.
pub open spec fn py060_hit(l: Seq<char>) -> bool {
    starts_with(trim_start(l), "assert "@)
}

fn py060_test(l: &[char]) -> (b: bool)
    ensures
        b == py060_hit(l@),
{
    starts_with_lit(trimmed_start(l).as_slice(), "assert ")
}

impl Rule for AssertUsedInProduction {
    open spec fn spec_id(&self) -> Seq<char> {
        "PY060"@
    }

    open spec fn spec_severity(&self) -> Severity {
        Severity::Warning
    }

    open spec fn is_pure(&self) -> bool {
        true
    }

    open spec fn accepts(&self, source: Seq<char>, disabled: Seq<Seq<char>>) -> bool {
        true
    }

    fn id(&self) -> (r: &'static str) {
        "PY060"
    }

    fn severity(&self) -> (s: Severity) {
        Severity::Warning
    }

    fn admits(&self, source: &str, config: &LintConfig) -> (b: bool) {
        true
    }

    open spec fn findings(&self, file: Option<Seq<char>>, source: Seq<char>, disabled: Seq<Seq<char>>) -> Seq<ErrorView> {
        if enabled(disabled, "PY060"@) {
            col_errors(hit_cols(lines(source).map_values(|l: Seq<char>| py060_hit(l))), tmpl(file, Severity::Warning, "PY060"@, "Assert statement detected"@, "Avoid assert in production code"@))
        } else {
            seq![]
        }
    }

    fn check(&self, file: Option<&str>, source: &str, report: &mut LintReport, config: &LintConfig) {
        if !config.is_enabled(self.id()) {
            return;
        }
        let ls = lines_of_str(source);
        proof {
            lemma_lines_bounds(source@);
        }
        let mut hits: Vec<bool> = Vec::new();
        let mut i: usize = 0;
        while i < ls.len()
            invariant
                i <= ls@.len(),
                hits@.len() == i,
                views(ls@) == lines(source@),
                forall|j: int| 0 <= j < i ==> hits@[j] == py060_hit(lines(source@)[j]),
            decreases ls@.len() - i,
        {
            assert(views(ls@)[i as int] == ls@[i as int]@);
            hits.push(py060_test(ls[i].as_slice()));
            i += 1;
        }
        assert(hits@ =~= lines(source@).map_values(|l: Seq<char>| py060_hit(l)));
        report_hits(report, file, &hits, Severity::Warning, "PY060", "Assert statement detected", "Avoid assert in production code");
    }
}

/// PY070: Unreachable code detected.
#[derive(Clone, Copy, Debug)]
pub struct UnreachableCode;

/// Whether a line ends the reachable code for PY070.
pub open spec fn py070_term(l: Seq<char>) -> bool {
    starts_with(trim_start(l), "return"@) || starts_with(trim_start(l), "raise"@)
}

fn py070_term_test(l: &[char]) -> (b: bool)
    ensures
        b == py070_term(l@),
{
    starts_with_lit(trimmed_start(l).as_slice(), "return") || starts_with_lit(trimmed_start(l).as_slice(), "raise")
}

impl Rule for UnreachableCode {
    open spec fn spec_id(&self) -> Seq<char> {
        "PY070"@
    }

    open spec fn spec_severity(&self) -> Severity {
        Severity::Error
    }

    open spec fn is_pure(&self) -> bool {
        true
    }

    open spec fn accepts(&self, source: Seq<char>, disabled: Seq<Seq<char>>) -> bool {
        true
    }

    fn id(&self) -> (r: &'static str) {
        "PY070"
    }

    fn severity(&self) -> (s: Severity) {
        Severity::Error
    }

    fn admits(&self, source: &str, config: &LintConfig) -> (b: bool) {
        true
    }

    open spec fn findings(&self, file: Option<Seq<char>>, source: Seq<char>, disabled: Seq<Seq<char>>) -> Seq<ErrorView> {
        if enabled(disabled, "PY070"@) {
            unreachable_errors(lines(source), lines(source).map_values(|l: Seq<char>| py070_term(l)), tmpl(file, Severity::Error, "PY070"@, "Unreachable code detected"@, "Remove unreachable statements"@))
        } else {
            seq![]
        }
    }

    fn check(&self, file: Option<&str>, source: &str, report: &mut LintReport, config: &LintConfig) {
        if !config.is_enabled(self.id()) {
            return;
        }
        let ls = lines_of_str(source);
        proof {
            lemma_lines_bounds(source@);
        }
        let mut term: Vec<bool> = Vec::new();
        let mut i: usize = 0;
        while i < ls.len()
            invariant
                i <= ls@.len(),
                term@.len() == i,
                views(ls@) == lines(source@),
                forall|j: int| 0 <= j < i ==> term@[j] == py070_term(lines(source@)[j]),
            decreases ls@.len() - i,
        {
            assert(views(ls@)[i as int] == ls@[i as int]@);
            term.push(py070_term_test(ls[i].as_slice()));
            i += 1;
        }
        assert(term@ =~= lines(source@).map_values(|l: Seq<char>| py070_term(l)));
        report_unreachable(report, file, &ls, &term, Severity::Error, "PY070", "Unreachable code detected", "Remove unreachable statements");
    }
}

/// The rules of the Python rule set, in order.
pub open spec fn rule_set() -> Seq<LintRule> {
    seq![LintRule::PY001(TrailingWhitespace), LintRule::PY010(MissingShebang), LintRule::PY020(ExecUsage), LintRule::PY021(EvalUsage), LintRule::PY030(WildcardImport), LintRule::PY031(BareExcept), LintRule::PY040(MutableDefaultArgument), LintRule::PY050(ComparisonToNoneUsingDoubleEquals), LintRule::PY060(AssertUsedInProduction), LintRule::PY070(UnreachableCode)]
}

/// The Python rule set.
pub fn linter() -> (l: Linter)
    ensures
        l@ == rule_set(),
{
    let l = Linter::new();
    assert(l@ == Seq::<LintRule>::empty());
    proof {
        lemma_fresh(l@, LintRule::PY001(TrailingWhitespace));
    }
    let l = l.add_rule(LintRule::PY001(TrailingWhitespace));
    proof {
        reveal_strlit("PY001");
        reveal_strlit("PY010");
        assert("PY001"@[3] != "PY010"@[3]);
        lemma_fresh(l@, LintRule::PY010(MissingShebang));
    }
    let l = l.add_rule(LintRule::PY010(MissingShebang));
    proof {
        reveal_strlit("PY001");
        reveal_strlit("PY010");
        reveal_strlit("PY020");
        assert("PY001"@[3] != "PY020"@[3]);
        assert("PY010"@[3] != "PY020"@[3]);
        lemma_fresh(l@, LintRule::PY020(ExecUsage));
    }
    let l = l.add_rule(LintRule::PY020(ExecUsage));
    proof {
        reveal_strlit("PY001");
        reveal_strlit("PY010");
        reveal_strlit("PY020");
        reveal_strlit("PY021");
        assert("PY001"@[3] != "PY021"@[3]);
        assert("PY010"@[3] != "PY021"@[3]);
        assert("PY020"@[4] != "PY021"@[4]);
        lemma_fresh(l@, LintRule::PY021(EvalUsage));
    }
    let l = l.add_rule(LintRule::PY021(EvalUsage));
    proof {
        reveal_strlit("PY001");
        reveal_strlit("PY010");
        reveal_strlit("PY020");
        reveal_strlit("PY021");
        reveal_strlit("PY030");
        assert("PY001"@[3] != "PY030"@[3]);
        assert("PY010"@[3] != "PY030"@[3]);
        assert("PY020"@[3] != "PY030"@[3]);
        assert("PY021"@[3] != "PY030"@[3]);
        lemma_fresh(l@, LintRule::PY030(WildcardImport));
    }
    let l = l.add_rule(LintRule::PY030(WildcardImport));
    proof {
        reveal_strlit("PY001");
        reveal_strlit("PY010");
        reveal_strlit("PY020");
        reveal_strlit("PY021");
        reveal_strlit("PY030");
        reveal_strlit("PY031");
        assert("PY001"@[3] != "PY031"@[3]);
        assert("PY010"@[3] != "PY031"@[3]);
        assert("PY020"@[3] != "PY031"@[3]);
        assert("PY021"@[3] != "PY031"@[3]);
        assert("PY030"@[4] != "PY031"@[4]);
        lemma_fresh(l@, LintRule::PY031(BareExcept));
    }
    let l = l.add_rule(LintRule::PY031(BareExcept));
    proof {
        reveal_strlit("PY001");
        reveal_strlit("PY010");
        reveal_strlit("PY020");
        reveal_strlit("PY021");
        reveal_strlit("PY030");
        reveal_strlit("PY031");
        reveal_strlit("PY040");
        assert("PY001"@[3] != "PY040"@[3]);
        assert("PY010"@[3] != "PY040"@[3]);
        assert("PY020"@[3] != "PY040"@[3]);
        assert("PY021"@[3] != "PY040"@[3]);
        assert("PY030"@[3] != "PY040"@[3]);
        assert("PY031"@[3] != "PY040"@[3]);
        lemma_fresh(l@, LintRule::PY040(MutableDefaultArgument));
    }
    let l = l.add_rule(LintRule::PY040(MutableDefaultArgument));
    proof {
        reveal_strlit("PY001");
        reveal_strlit("PY010");
        reveal_strlit("PY020");
        reveal_strlit("PY021");
        reveal_strlit("PY030");
        reveal_strlit("PY031");
        reveal_strlit("PY040");
        reveal_strlit("PY050");
        assert("PY001"@[3] != "PY050"@[3]);
        assert("PY010"@[3] != "PY050"@[3]);
        assert("PY020"@[3] != "PY050"@[3]);
        assert("PY021"@[3] != "PY050"@[3]);
        assert("PY030"@[3] != "PY050"@[3]);
        assert("PY031"@[3] != "PY050"@[3]);
        assert("PY040"@[3] != "PY050"@[3]);
        lemma_fresh(l@, LintRule::PY050(ComparisonToNoneUsingDoubleEquals));
    }
    let l = l.add_rule(LintRule::PY050(ComparisonToNoneUsingDoubleEquals));
    proof {
        reveal_strlit("PY001");
        reveal_strlit("PY010");
        reveal_strlit("PY020");
        reveal_strlit("PY021");
        reveal_strlit("PY030");
        reveal_strlit("PY031");
        reveal_strlit("PY040");
        reveal_strlit("PY050");
        reveal_strlit("PY060");
        assert("PY001"@[3] != "PY060"@[3]);
        assert("PY010"@[3] != "PY060"@[3]);
        assert("PY020"@[3] != "PY060"@[3]);
        assert("PY021"@[3] != "PY060"@[3]);
        assert("PY030"@[3] != "PY060"@[3]);
        assert("PY031"@[3] != "PY060"@[3]);
        assert("PY040"@[3] != "PY060"@[3]);
        assert("PY050"@[3] != "PY060"@[3]);
        lemma_fresh(l@, LintRule::PY060(AssertUsedInProduction));
    }
    let l = l.add_rule(LintRule::PY060(AssertUsedInProduction));
    proof {
        reveal_strlit("PY001");
        reveal_strlit("PY010");
        reveal_strlit("PY020");
        reveal_strlit("PY021");
        reveal_strlit("PY030");
        reveal_strlit("PY031");
        reveal_strlit("PY040");
        reveal_strlit("PY050");
        reveal_strlit("PY060");
        reveal_strlit("PY070");
        assert("PY001"@[3] != "PY070"@[3]);
        assert("PY010"@[3] != "PY070"@[3]);
        assert("PY020"@[3] != "PY070"@[3]);
        assert("PY021"@[3] != "PY070"@[3]);
        assert("PY030"@[3] != "PY070"@[3]);
        assert("PY031"@[3] != "PY070"@[3]);
        assert("PY040"@[3] != "PY070"@[3]);
        assert("PY050"@[3] != "PY070"@[3]);
        assert("PY060"@[3] != "PY070"@[3]);
        lemma_fresh(l@, LintRule::PY070(UnreachableCode));
    }
    let l = l.add_rule(LintRule::PY070(UnreachableCode));
    l
}

/// PY050 reports exactly the lines that compare with `None` by `==` or by
/// `!=`: a finding on line `i + 1` exists if and only if line `i` holds
/// `"== None"` or `"!= None"`, and every finding is a PY050 warning at
/// column 1 of such a line.
pub proof fn law_py050_none_comparisons(file: Option<Seq<char>>, source: Seq<char>, disabled: Seq<Seq<char>>)
    requires
        enabled(disabled, "PY050"@),
    ensures
        forall|i: int| 0 <= i < lines(source).len() ==> ((contains(#[trigger] lines(source)[i], "== None"@) || contains(lines(source)[i], "!= None"@)) <==> exists|k: int| 0 <= k < ComparisonToNoneUsingDoubleEquals.findings(file, source, disabled).len() && ComparisonToNoneUsingDoubleEquals.findings(file, source, disabled)[k].line == i + 1),
        forall|k: int| 0 <= k < ComparisonToNoneUsingDoubleEquals.findings(file, source, disabled).len() ==> {
            let e = #[trigger] ComparisonToNoneUsingDoubleEquals.findings(file, source, disabled)[k];
            &&& e.rule_id == "PY050"@
            &&& e.severity == Severity::Warning
            &&& e.message == "Comparison to None using =="@
            &&& e.suggestion == Some("Use 'is None' or 'is not None'"@)
            &&& e.column == 1
            &&& 1 <= e.line <= lines(source).len()
            &&& e.file == file
        },
{
    let ls = lines(source);
    let hits = ls.map_values(|l: Seq<char>| py050_hit(l));
    let cols = hit_cols(hits);
    let t = tmpl(file, Severity::Warning, "PY050"@, "Comparison to None using =="@, "Use 'is None' or 'is not None'"@);
    let f = ComparisonToNoneUsingDoubleEquals.findings(file, source, disabled);
    assert(f == col_errors(cols, t));
    lemma_col_errors(cols, t);
    assert forall|i: int| 0 <= i < ls.len() implies ((contains(#[trigger] ls[i], "== None"@) || contains(ls[i], "!= None"@)) <==> exists|k: int| 0 <= k < f.len() && f[k].line == i + 1) by {
        assert(cols[i] == (if py050_hit(ls[i]) { Some(1usize) } else { None }));
        if py050_hit(ls[i]) {
            assert(cols[i] is Some);
            let k = choose|k: int| 0 <= k < f.len() && f[k] == at(t, i + 1, cols[i]->0 as int, None);
            assert(f[k].line == i + 1);
        }
        if exists|k: int| 0 <= k < f.len() && f[k].line == i + 1 {
            let k = choose|k: int| 0 <= k < f.len() && f[k].line == i + 1;
            let j = choose|j: int| 0 <= j < cols.len() && cols[j] is Some && #[trigger] f[k] == at(t, j + 1, cols[j]->0 as int, None);
            assert(j == i);
        }
    }
    assert forall|k: int| 0 <= k < f.len() implies {
        let e = #[trigger] f[k];
        &&& e.rule_id == "PY050"@
        &&& e.severity == Severity::Warning
        &&& e.message == "Comparison to None using =="@
        &&& e.suggestion == Some("Use 'is None' or 'is not None'"@)
        &&& e.column == 1
        &&& 1 <= e.line <= ls.len()
        &&& e.file == file
    } by {
        let j = choose|j: int| 0 <= j < cols.len() && cols[j] is Some && #[trigger] f[k] == at(t, j + 1, cols[j]->0 as int, None);
        assert(cols[j] == (if py050_hit(ls[j]) { Some(1usize) } else { None }));
    }
}

} // verus!
