//! TypeScript
use vstd::prelude::*;
use crate::lint::config::{LintConfig, enabled};
use crate::lint::error::{ErrorView, Severity, opt_str_view};
use crate::lint::linter::{Linter, lemma_fresh};
use crate::lint::registry::LintRule;
use crate::lint::report::LintReport;
use crate::lint::rule::Rule;
use crate::lint::edit::{Fix, single_fix};
use crate::lint::support::{lemma_line_fits, sum_pieces, line_offset, Tmpl, at, col_errors, hit_cols, once, tmpl, finding, make_error, report_hits, report_once, report_cols, lemma_lines_bounds, lemma_lines_total, total_chars, lemma_total_chars_take};
use crate::linters::common::{count_matches, count_matches_exec, count_lit, find_col, find_col_exec, word_errors, report_words, comma_needs_space, comma_needs_space_exec, brace_needs_space, brace_needs_space_exec, brace_prev_ascii, brace_prev_ascii_exec, match_errors, report_matches, all_true, trues, trailing_ws_errors, acc_offsets, piece_offsets, report_trailing_ws, acc_offsets_exec, piece_offsets_exec, unreachable_errors, report_unreachable};
use crate::text::{lines, views, contains, starts_with, ends_with, trim, trim_start, trim_end, upper, lower, chars_of, lines_of_str, contains_lit, starts_with_lit, ends_with_lit, eq_lit, trimmed, trimmed_start, trimmed_end, upper_of, lower_of, owned, string_of, slice_of, find, find_char, find_lit, find_chars, lemma_find, matches_at, is_ws, is_whitespace, utf8_len, byte_len, prefix_bytes, any_upper, has_upper, lemma_utf8_len_take, lemma_utf8_len_subrange, split_char, fits, match_indices, match_positions_lit, char_width, split_on, contains_char, numeric_char, is_numeric};

verus! {

/// TS001: Trailing whitespace.
#[derive(Clone, Copy, Debug)]
pub struct TrailingWhitespace;

impl Rule for TrailingWhitespace {
    open spec fn spec_id(&self) -> Seq<char> {
        "TS001"@
    }

    open spec fn spec_severity(&self) -> Severity {
        Severity::Info
    }

    open spec fn is_pure(&self) -> bool {
        true
    }

    open spec fn accepts(&self, source: Seq<char>, disabled: Seq<Seq<char>>) -> bool {
        true
    }

    fn id(&self) -> (r: &'static str) {
        "TS001"
    }

    fn severity(&self) -> (s: Severity) {
        Severity::Info
    }

    fn admits(&self, source: &str, config: &LintConfig) -> (b: bool) {
        true
    }

    open spec fn findings(&self, file: Option<Seq<char>>, source: Seq<char>, disabled: Seq<Seq<char>>) -> Seq<ErrorView> {
        if enabled(disabled, "TS001"@) {
            trailing_ws_errors(lines(source), acc_offsets(lines(source)), tmpl(file, Severity::Info, "TS001"@, "Trailing whitespace"@, "Remove trailing whitespace"@))
        } else {
            seq![]
        }
    }

    fn check(&self, file: Option<&str>, source: &str, report: &mut LintReport, config: &LintConfig) {
        if !config.is_enabled(self.id()) {
            return;
        }
        let ls = lines_of_str(source);
        proof {
            lemma_lines_bounds(source@);
        }
        let offs = acc_offsets_exec(&ls, Ghost(source@));
        report_trailing_ws(report, file, &ls, &offs, Severity::Info, "TS001", "Trailing whitespace", "Remove trailing whitespace");
    }
}

/// TS010: Use let or const instead of var.
#[derive(Clone, Copy, Debug)]
pub struct VarUsage;

/// Whether a line is reported by TS010.
pub open spec fn ts010_hit(l: Seq<char>) -> bool {
    contains(l, "var "@)
}

fn ts010_test(l: &[char]) -> (b: bool)
    ensures
        b == ts010_hit(l@),
{
    contains_lit(l, "var ")
}

impl Rule for VarUsage {
    open spec fn spec_id(&self) -> Seq<char> {
        "TS010"@
    }

    open spec fn spec_severity(&self) -> Severity {
        Severity::Warning
    }

    open spec fn is_pure(&self) -> bool {
        true
    }

    open spec fn accepts(&self, source: Seq<char>, disabled: Seq<Seq<char>>) -> bool {
        true
    }

    fn id(&self) -> (r: &'static str) {
        "TS010"
    }

    fn severity(&self) -> (s: Severity) {
        Severity::Warning
    }

    fn admits(&self, source: &str, config: &LintConfig) -> (b: bool) {
        true
    }

    open spec fn findings(&self, file: Option<Seq<char>>, source: Seq<char>, disabled: Seq<Seq<char>>) -> Seq<ErrorView> {
        if enabled(disabled, "TS010"@) {
            col_errors(hit_cols(lines(source).map_values(|l: Seq<char>| ts010_hit(l))), tmpl(file, Severity::Warning, "TS010"@, "Use let or const instead of var"@, "Replace var with let or const"@))
        } else {
            seq![]
        }
    }

    fn check(&self, file: Option<&str>, source: &str, report: &mut LintReport, config: &LintConfig) {
        if !config.is_enabled(self.id()) {
            return;
        }
        let ls = lines_of_str(source);
        proof {
            lemma_lines_bounds(source@);
        }
        let mut hits: Vec<bool> = Vec::new();
        let mut i: usize = 0;
        while i < ls.len()
            invariant
                i <= ls@.len(),
                hits@.len() == i,
                views(ls@) == lines(source@),
                forall|j: int| 0 <= j < i ==> hits@[j] == ts010_hit(lines(source@)[j]),
            decreases ls@.len() - i,
        {
            assert(views(ls@)[i as int] == ls@[i as int]@);
            hits.push(ts010_test(ls[i].as_slice()));
            i += 1;
        }
        assert(hits@ =~= lines(source@).map_values(|l: Seq<char>| ts010_hit(l)));
        report_hits(report, file, &hits, Severity::Warning, "TS010", "Use let or const instead of var", "Replace var with let or const");
    }
}

/// TS020: Usage of 'any' type detected.
#[derive(Clone, Copy, Debug)]
pub struct AnyTypeUsage;

/// Whether a line is reported by TS020.
pub open spec fn ts020_hit(l: Seq<char>) -> bool {
    contains(l, ": any"@) || contains(l, "<any>"@)
}

fn ts020_test(l: &[char]) -> (b: bool)
    ensures
        b == ts020_hit(l@),
{
    contains_lit(l, ": any") || contains_lit(l, "<any>")
}

impl Rule for AnyTypeUsage {
    open spec fn spec_id(&self) -> Seq<char> {
        "TS020"@
    }

    open spec fn spec_severity(&self) -> Severity {
        Severity::Warning
    }

    open spec fn is_pure(&self) -> bool {
        true
    }

    open spec fn accepts(&self, source: Seq<char>, disabled: Seq<Seq<char>>) -> bool {
        true
    }

    fn id(&self) -> (r: &'static str) {
        "TS020"
    }

    fn severity(&self) -> (s: Severity) {
        Severity::Warning
    }

    fn admits(&self, source: &str, config: &LintConfig) -> (b: bool) {
        true
    }

    open spec fn findings(&self, file: Option<Seq<char>>, source: Seq<char>, disabled: Seq<Seq<char>>) -> Seq<ErrorView> {
        if enabled(disabled, "TS020"@) {
            col_errors(hit_cols(lines(source).map_values(|l: Seq<char>| ts020_hit(l))), tmpl(file, Severity::Warning, "TS020"@, "Usage of 'any' type detected"@, "Use a specific type instead of any"@))
        } else {
            seq![]
        }
    }

    fn check(&self, file: Option<&str>, source: &str, report: &mut LintReport, config: &LintConfig) {
        if !config.is_enabled(self.id()) {
            return;
        }
        let ls = lines_of_str(source);
        proof {
            lemma_lines_bounds(source@);
        }
        let mut hits: Vec<bool> = Vec::new();
        let mut i: usize = 0;
        while i < ls.len()
            invariant
                i <= ls@.len(),
                hits@.len() == i,
                views(ls@) == lines(source@),
                forall|j: int| 0 <= j < i ==> hits@[j] == ts020_hit(lines(source@)[j]),
            decreases ls@.len() - i,
        {
            assert(views(ls@)[i as int] == ls@[i as int]@);
            hits.push(ts020_test(ls[i].as_slice()));
            i += 1;
        }
        assert(hits@ =~= lines(source@).map_values(|l: Seq<char>| ts020_hit(l)));
        report_hits(report, file, &hits, Severity::Warning, "TS020", "Usage of 'any' type detected", "Use a specific type instead of any");
    }
}

/// TS030: console.log detected.
#[derive(Clone, Copy, Debug)]
pub struct ConsoleLogUsage;

/// Whether a line is reported by TS030.
pub open spec fn ts030_hit(l: Seq<char>) -> bool {
    contains(l, "console.log"@)
}

fn ts030_test(l: &[char]) -> (b: bool)
    ensures
        b == ts030_hit(l@),
{
    contains_lit(l, "console.log")
}

impl Rule for ConsoleLogUsage {
    open spec fn spec_id(&self) -> Seq<char> {
        "TS030"@
    }

    open spec fn spec_severity(&self) -> Severity {
        Severity::Info
    }

    open spec fn is_pure(&self) -> bool {
        true
    }

    open spec fn accepts(&self, source: Seq<char>, disabled: Seq<Seq<char>>) -> bool {
        true
    }

    fn id(&self) -> (r: &'static str) {
        "TS030"
    }

    fn severity(&self) -> (s: Severity) {
        Severity::Info
    }

    fn admits(&self, source: &str, config: &LintConfig) -> (b: bool) {
        true
    }

    open spec fn findings(&self, file: Option<Seq<char>>, source: Seq<char>, disabled: Seq<Seq<char>>) -> Seq<ErrorView> {
        if enabled(disabled, "TS030"@) {
            col_errors(hit_cols(lines(source).map_values(|l: Seq<char>| ts030_hit(l))), tmpl(file, Severity::Info, "TS030"@, "console.log detected"@, "Remove debug logging for production"@))
        } else {
            seq![]
        }
    }

    fn check(&self, file: Option<&str>, source: &str, report: &mut LintReport, config: &LintConfig) {
        if !config.is_enabled(self.id()) {
            return;
        }
        let ls = lines_of_str(source);
        proof {
            lemma_lines_bounds(source@);
        }
        let mut hits: Vec<bool> = Vec::new();
        let mut i: usize = 0;
        while i < ls.len()
            invariant
                i <= ls@.len(),
                hits@.len() == i,
                views(ls@) == lines(source@),
                forall|j: int| 0 <= j < i ==> hits@[j] == ts030_hit(lines(source@)[j]),
            decreases ls@.len() - i,
        {
            assert(views(ls@)[i as int] == ls@[i as int]@);
            hits.push(ts030_test(ls[i].as_slice()));
            i += 1;
        }
        assert(hits@ =~= lines(source@).map_values(|l: Seq<char>| ts030_hit(l)));
        report_hits(report, file, &hits, Severity::Info, "TS030", "console.log detected", "Remove debug logging for production");
    }
}

/// TS040: Use strict equality (===) instead of ==.
#[derive(Clone, Copy, Debug)]
pub struct DoubleEqualsUsage;

/// Whether a line is reported by TS040.
pub open spec fn ts040_hit(l: Seq<char>) -> bool {
    contains(l, "=="@) && !contains(l, "==="@)
}

fn ts040_test(l: &[char]) -> (b: bool)
    ensures
        b == ts040_hit(l@),
{
    contains_lit(l, "==") && !contains_lit(l, "===")
}

impl Rule for DoubleEqualsUsage {
    open spec fn spec_id(&self) -> Seq<char> {
        "TS040"@
    }

    open spec fn spec_severity(&self) -> Severity {
        Severity::Warning
    }

    open spec fn is_pure(&self) -> bool {
        true
    }

    open spec fn accepts(&self, source: Seq<char>, disabled: Seq<Seq<char>>) -> bool {
        true
    }

    fn id(&self) -> (r: &'static str) {
        "TS040"
    }

    fn severity(&self) -> (s: Severity) {
        Severity::Warning
    }

    fn admits(&self, source: &str, config: &LintConfig) -> (b: bool) {
        true
    }

    open spec fn findings(&self, file: Option<Seq<char>>, source: Seq<char>, disabled: Seq<Seq<char>>) -> Seq<ErrorView> {
        if enabled(disabled, "TS040"@) {
            col_errors(hit_cols(lines(source).map_values(|l: Seq<char>| ts040_hit(l))), tmpl(file, Severity::Warning, "TS040"@, "Use strict equality (===) instead of =="@, "Replace == with ==="@))
        } else {
            seq![]
        }
    }

    fn check(&self, file: Option<&str>, source: &str, report: &mut LintReport, config: &LintConfig) {
        if !config.is_enabled(self.id()) {
            return;
        }
        let ls = lines_of_str(source);
        proof {
            lemma_lines_bounds(source@);
        }
        let mut hits: Vec<bool> = Vec::new();
        let mut i: usize = 0;
        while i < ls.len()
            invariant
                i <= ls@.len(),
                hits@.len() == i,
                views(ls@) == lines(source@),
                forall|j: int| 0 <= j < i ==> hits@[j] == ts040_hit(lines(source@)[j]),
            decreases ls@.len() - i,
        {
            assert(views(ls@)[i as int] == ls@[i as int]@);
            hits.push(ts040_test(ls[i].as_slice()));
            i += 1;
        }
        assert(hits@ =~= lines(source@).map_values(|l: Seq<char>| ts040_hit(l)));
        report_hits(report, file, &hits, Severity::Warning, "TS040", "Use strict equality (===) instead of ==", "Replace == with ===");
    }
}

/// TS050: Non-null assertion operator used.
#[derive(Clone, Copy, Debug)]
pub struct NonNullAssertionUsage;

/// Whether a line is reported by TS050.
pub open spec fn ts050_hit(l: Seq<char>) -> bool {
    contains(l, "!."@) || ends_with(trim_end(l), "!"@)
}

fn ts050_test(l: &[char]) -> (b: bool)
    ensures
        b == ts050_hit(l@),
{
    contains_lit(l, "!.") || ends_with_lit(trimmed_end(l).as_slice(), "!")
}

impl Rule for NonNullAssertionUsage {
    open spec fn spec_id(&self) -> Seq<char> {
        "TS050"@
    }

    open spec fn spec_severity(&self) -> Severity {
        Severity::Warning
    }

    open spec fn is_pure(&self) -> bool {
        true
    }

    open spec fn accepts(&self, source: Seq<char>, disabled: Seq<Seq<char>>) -> bool {
        true
    }

    fn id(&self) -> (r: &'static str) {
        "TS050"
    }

    fn severity(&self) -> (s: Severity) {
        Severity::Warning
    }

    fn admits(&self, source: &str, config: &LintConfig) -> (b: bool) {
        true
    }

    open spec fn findings(&self, file: Option<Seq<char>>, source: Seq<char>, disabled: Seq<Seq<char>>) -> Seq<ErrorView> {
        if enabled(disabled, "TS050"@) {
            col_errors(hit_cols(lines(source).map_values(|l: Seq<char>| ts050_hit(l))), tmpl(file, Severity::Warning, "TS050"@, "Non-null assertion operator used"@, "Handle null/undefined explicitly"@))
        } else {
            seq![]
        }
    }

    fn check(&self, file: Option<&str>, source: &str, report: &mut LintReport, config: &LintConfig) {
        if !config.is_enabled(self.id()) {
            return;
        }
        let ls = lines_of_str(source);
        proof {
            lemma_lines_bounds(source@);
        }
        let mut hits: Vec<bool> = Vec::new();
        let mut i: usize = 0;
        while i < ls.len()
            invariant
                i <= ls@.len(),
                hits@.len() == i,
                views(ls@) == lines(source@),
                forall|j: int| 0 <= j < i ==> hits@[j] == ts050_hit(lines(source@)[j]),
            decreases ls@.len() - i,
        {
            assert(views(ls@)[i as int] == ls@[i as int]@);
            hits.push(ts050_test(ls[i].as_slice()));
            i += 1;
        }
        assert(hits@ =~= lines(source@).map_values(|l: Seq<char>| ts050_hit(l)));
        report_hits(report, file, &hits, Severity::Warning, "TS050", "Non-null assertion operator used", "Handle null/undefined explicitly");
    }
}

/// TS060: Missing explicit return type.
#[derive(Clone, Copy, Debug)]
pub struct MissingReturnType;

/// Whether a line is reported by TS060.
pub open spec fn ts060_hit(l: Seq<char>) -> bool {
    contains(l, "function "@) && !contains(l, "):"@)
}

fn ts060_test(l: &[char]) -> (b: bool)
    ensures
        b == ts060_hit(l@),
{
    contains_lit(l, "function ") && !contains_lit(l, "):")
}

impl Rule for MissingReturnType {
    open spec fn spec_id(&self) -> Seq<char> {
        "TS060"@
    }

    open spec fn spec_severity(&self) -> Severity {
        Severity::Info
    }

    open spec fn is_pure(&self) -> bool {
        true
    }

    open spec fn accepts(&self, source: Seq<char>, disabled: Seq<Seq<char>>) -> bool {
        true
    }

    fn id(&self) -> (r: &'static str) {
        "TS060"
    }

    fn severity(&self) -> (s: Severity) {
        Severity::Info
    }

    fn admits(&self, source: &str, config: &LintConfig) -> (b: bool) {
        true
    }

    open spec fn findings(&self, file: Option<Seq<char>>, source: Seq<char>, disabled: Seq<Seq<char>>) -> Seq<ErrorView> {
        if enabled(disabled, "TS060"@) {
            col_errors(hit_cols(lines(source).map_values(|l: Seq<char>| ts060_hit(l))), tmpl(file, Severity::Info, "TS060"@, "Missing explicit return type"@, "Add return type annotation"@))
        } else {
            seq![]
        }
    }

    fn check(&self, file: Option<&str>, source: &str, report: &mut LintReport, config: &LintConfig) {
        if !config.is_enabled(self.id()) {
            return;
        }
        let ls = lines_of_str(source);
        proof {
            lemma_lines_bounds(source@);
        }
        let mut hits: Vec<bool> = Vec::new();
        let mut i: usize = 0;
        while i < ls.len()
            invariant
                i <= ls@.len(),
                hits@.len() == i,
                views(ls@) == lines(source@),
                forall|j: int| 0 <= j < i ==> hits@[j] == ts060_hit(lines(source@)[j]),
            decreases ls@.len() - i,
        {
            assert(views(ls@)[i as int] == ls@[i as int]@);
            hits.push(ts060_test(ls[i].as_slice()));
            i += 1;
        }
        assert(hits@ =~= lines(source@).map_values(|l: Seq<char>| ts060_hit(l)));
        report_hits(report, file, &hits, Severity::Info, "TS060", "Missing explicit return type", "Add return type annotation");
    }
}

/// TS070: Promise created without handling.
#[derive(Clone, Copy, Debug)]
pub struct UnhandledPromise;

/// Whether a line is reported by TS070.
pub open spec fn ts070_hit(l: Seq<char>) -> bool {
    contains(l, "new Promise"@) && !contains(l, "await"@) && !contains(l, ".then"@)
}

fn ts070_test(l: &[char]) -> (b: bool)
    ensures
        b == ts070_hit(l@),
{
    contains_lit(l, "new Promise") && !contains_lit(l, "await") && !contains_lit(l, ".then")
}

impl Rule for UnhandledPromise {
    open spec fn spec_id(&self) -> Seq<char> {
        "TS070"@
    }

    open spec fn spec_severity(&self) -> Severity {
        Severity::Warning
    }

    open spec fn is_pure(&self) -> bool {
        true
    }

    open spec fn accepts(&self, source: Seq<char>, disabled: Seq<Seq<char>>) -> bool {
        true
    }

    fn id(&self) -> (r: &'static str) {
        "TS070"
    }

    fn severity(&self) -> (s: Severity) {
        Severity::Warning
    }

    fn admits(&self, source: &str, config: &LintConfig) -> (b: bool) {
        true
    }

    open spec fn findings(&self, file: Option<Seq<char>>, source: Seq<char>, disabled: Seq<Seq<char>>) -> Seq<ErrorView> {
        if enabled(disabled, "TS070"@) {
            col_errors(hit_cols(lines(source).map_values(|l: Seq<char>| ts070_hit(l))), tmpl(file, Severity::Warning, "TS070"@, "Promise created without handling"@, "Await or handle promise result"@))
        } else {
            seq![]
        }
    }

    fn check(&self, file: Option<&str>, source: &str, report: &mut LintReport, config: &LintConfig) {
        if !config.is_enabled(self.id()) {
            return;
        }
        let ls = lines_of_str(source);
        proof {
            lemma_lines_bounds(source@);
        }
        let mut hits: Vec<bool> = Vec::new();
        let mut i: usize = 0;
        while i < ls.len()
            invariant
                i <= ls@.len(),
                hits@.len() == i,
                views(ls@) == lines(source@),
                forall|j: int| 0 <= j < i ==> hits@[j] == ts070_hit(lines(source@)[j]),
            decreases ls@.len() - i,
        {
            assert(views(ls@)[i as int] == ls@[i as int]@);
            hits.push(ts070_test(ls[i].as_slice()));
            i += 1;
        }
        assert(hits@ =~= lines(source@).map_values(|l: Seq<char>| ts070_hit(l)));
        report_hits(report, file, &hits, Severity::Warning, "TS070", "Promise created without handling", "Await or handle promise result");
    }
}

/// TS080: Empty catch block detected.
#[derive(Clone, Copy, Debug)]
pub struct EmptyCatchBlock;

/// Whether TS080 reports a source.
pub open spec fn ts080_hit(file: Option<Seq<char>>, src: Seq<char>) -> bool {
    contains(src, "catch"@) && contains(src, "{}"@)
}

fn ts080_test(file: Option<&str>, src: &[char]) -> (b: bool)
    requires
        fits(src@),
    ensures
        b == ts080_hit(opt_str_view(file), src@),
{
    contains_lit(src, "catch") && contains_lit(src, "{}")
}

impl Rule for EmptyCatchBlock {
    open spec fn spec_id(&self) -> Seq<char> {
        "TS080"@
    }

    open spec fn spec_severity(&self) -> Severity {
        Severity::Warning
    }

    open spec fn is_pure(&self) -> bool {
        true
    }

    open spec fn accepts(&self, source: Seq<char>, disabled: Seq<Seq<char>>) -> bool {
        true
    }

    fn id(&self) -> (r: &'static str) {
        "TS080"
    }

    fn severity(&self) -> (s: Severity) {
        Severity::Warning
    }

    fn admits(&self, source: &str, config: &LintConfig) -> (b: bool) {
        true
    }

    open spec fn findings(&self, file: Option<Seq<char>>, source: Seq<char>, disabled: Seq<Seq<char>>) -> Seq<ErrorView> {
        if enabled(disabled, "TS080"@) {
            once(ts080_hit(file, source), tmpl(file, Severity::Warning, "TS080"@, "Empty catch block detected"@, "Handle or log the error"@))
        } else {
            seq![]
        }
    }

    fn check(&self, file: Option<&str>, source: &str, report: &mut LintReport, config: &LintConfig) {
        if !config.is_enabled(self.id()) {
            return;
        }
        let src = chars_of(source);
        let hit = ts080_test(file, src.as_slice());
        report_once(report, file, hit, Severity::Warning, "TS080", "Empty catch block detected", "Handle or log the error");
    }
}

/// TS090: Unreachable code detected.
#[derive(Clone, Copy, Debug)]
pub struct UnreachableCode;

/// Whether a line ends the reachable code for TS090.
pub open spec fn ts090_term(l: Seq<char>) -> bool {
    starts_with(trim_start(l), "return "@)
}

fn ts090_term_test(l: &[char]) -> (b: bool)
    ensures
        b == ts090_term(l@),
{
    starts_with_lit(trimmed_start(l).as_slice(), "return ")
}

impl Rule for UnreachableCode {
    open spec fn spec_id(&self) -> Seq<char> {
        "TS090"@
    }

    open spec fn spec_severity(&self) -> Severity {
        Severity::Error
    }

    open spec fn is_pure(&self) -> bool {
        true
    }

    open spec fn accepts(&self, source: Seq<char>, disabled: Seq<Seq<char>>) -> bool {
        true
    }

    fn id(&self) -> (r: &'static str) {
        "TS090"
    }

    fn severity(&self) -> (s: Severity) {
        Severity::Error
    }

    fn admits(&self, source: &str, config: &LintConfig) -> (b: bool) {
        true
    }

    open spec fn findings(&self, file: Option<Seq<char>>, source: Seq<char>, disabled: Seq<Seq<char>>) -> Seq<ErrorView> {
        if enabled(disabled, "TS090"@) {
            unreachable_errors(lines(source), lines(source).map_values(|l: Seq<char>| ts090_term(l)), tmpl(file, Severity::Error, "TS090"@, "Unreachable code detected"@, "Remove unreachable code"@))
        } else {
            seq![]
        }
    }

    fn check(&self, file: Option<&str>, source: &str, report: &mut LintReport, config: &LintConfig) {
        if !config.is_enabled(self.id()) {
            return;
        }
        let ls = lines_of_str(source);
        proof {
            lemma_lines_bounds(source@);
        }
        let mut term: Vec<bool> = Vec::new();
        let mut i: usize = 0;
        while i < ls.len()
            invariant
                i <= ls@.len(),
                term@.len() == i,
                views(ls@) == lines(source@),
                forall|j: int| 0 <= j < i ==> term@[j] == ts090_term(lines(source@)[j]),
            decreases ls@.len() - i,
        {
            assert(views(ls@)[i as int] == ls@[i as int]@);
            term.push(ts090_term_test(ls[i].as_slice()));
            i += 1;
        }
        assert(term@ =~= lines(source@).map_values(|l: Seq<char>| ts090_term(l)));
        report_unreachable(report, file, &ls, &term, Severity::Error, "TS090", "Unreachable code detected", "Remove unreachable code");
    }
}

/// The rules of the TypeScript rule set, in order.
pub open spec fn rule_set() -> Seq<LintRule> {
    seq![LintRule::TS001(TrailingWhitespace), LintRule::TS010(VarUsage), LintRule::TS020(AnyTypeUsage), LintRule::TS030(ConsoleLogUsage), LintRule::TS040(DoubleEqualsUsage), LintRule::TS050(NonNullAssertionUsage), LintRule::TS060(MissingReturnType), LintRule::TS070(UnhandledPromise), LintRule::TS080(EmptyCatchBlock), LintRule::TS090(UnreachableCode)]
}

/// The TypeScript rule set.
pub fn linter() -> (l: Linter)
    ensures
        l@ == rule_set(),
{
    let l = Linter::new();
    assert(l@ == Seq::<LintRule>::empty());
    proof {
        lemma_fresh(l@, LintRule::TS001(TrailingWhitespace));
    }
    let l = l.add_rule(LintRule::TS001(TrailingWhitespace));
    proof {
        reveal_strlit("TS001");
        reveal_strlit("TS010");
        assert("TS001"@[3] != "TS010"@[3]);
        lemma_fresh(l@, LintRule::TS010(VarUsage));
    }
    let l = l.add_rule(LintRule::TS010(VarUsage));
    proof {
        reveal_strlit("TS001");
        reveal_strlit("TS010");
        reveal_strlit("TS020");
        assert("TS001"@[3] != "TS020"@[3]);
        assert("TS010"@[3] != "TS020"@[3]);
        lemma_fresh(l@, LintRule::TS020(AnyTypeUsage));
    }
    let l = l.add_rule(LintRule::TS020(AnyTypeUsage));
    proof {
        reveal_strlit("TS001");
        reveal_strlit("TS010");
        reveal_strlit("TS020");
        reveal_strlit("TS030");
        assert("TS001"@[3] != "TS030"@[3]);
        assert("TS010"@[3] != "TS030"@[3]);
        assert("TS020"@[3] != "TS030"@[3]);
        lemma_fresh(l@, LintRule::TS030(ConsoleLogUsage));
    }
    let l = l.add_rule(LintRule::TS030(ConsoleLogUsage));
    proof {
        reveal_strlit("TS001");
        reveal_strlit("TS010");
        reveal_strlit("TS020");
        reveal_strlit("TS030");
        reveal_strlit("TS040");
        assert("TS001"@[3] != "TS040"@[3]);
        assert("TS010"@[3] != "TS040"@[3]);
        assert("TS020"@[3] != "TS040"@[3]);
        assert("TS030"@[3] != "TS040"@[3]);
        lemma_fresh(l@, LintRule::TS040(DoubleEqualsUsage));
    }
    let l = l.add_rule(LintRule::TS040(DoubleEqualsUsage));
    proof {
        reveal_strlit("TS001");
        reveal_strlit("TS010");
        reveal_strlit("TS020");
        reveal_strlit("TS030");
        reveal_strlit("TS040");
        reveal_strlit("TS050");
        assert("TS001"@[3] != "TS050"@[3]);
        assert("TS010"@[3] != "TS050"@[3]);
        assert("TS020"@[3] != "TS050"@[3]);
        assert("TS030"@[3] != "TS050"@[3]);
        assert("TS040"@[3] != "TS050"@[3]);
        lemma_fresh(l@, LintRule::TS050(NonNullAssertionUsage));
    }
    let l = l.add_rule(LintRule::TS050(NonNullAssertionUsage));
    proof {
        reveal_strlit("TS001");
        reveal_strlit("TS010");
        reveal_strlit("TS020");
        reveal_strlit("TS030");
        reveal_strlit("TS040");
        reveal_strlit("TS050");
        reveal_strlit("TS060");
        assert("TS001"@[3] != "TS060"@[3]);
        assert("TS010"@[3] != "TS060"@[3]);
        assert("TS020"@[3] != "TS060"@[3]);
        assert("TS030"@[3] != "TS060"@[3]);
        assert("TS040"@[3] != "TS060"@[3]);
        assert("TS050"@[3] != "TS060"@[3]);
        lemma_fresh(l@, LintRule::TS060(MissingReturnType));
    }
    let l = l.add_rule(LintRule::TS060(MissingReturnType));
    proof {
        reveal_strlit("TS001");
        reveal_strlit("TS010");
        reveal_strlit("TS020");
        reveal_strlit("TS030");
        reveal_strlit("TS040");
        reveal_strlit("TS050");
        reveal_strlit("TS060");
        reveal_strlit("TS070");
        assert("TS001"@[3] != "TS070"@[3]);
        assert("TS010"@[3] != "TS070"@[3]);
        assert("TS020"@[3] != "TS070"@[3]);
        assert("TS030"@[3] != "TS070"@[3]);
        assert("TS040"@[3] != "TS070"@[3]);
        assert("TS050"@[3] != "TS070"@[3]);
        assert("TS060"@[3] != "TS070"@[3]);
        lemma_fresh(l@, LintRule::TS070(UnhandledPromise));
    }
    let l = l.add_rule(LintRule::TS070(UnhandledPromise));
    proof {
        reveal_strlit("TS001");
        reveal_strlit("TS010");
        reveal_strlit("TS020");
        reveal_strlit("TS030");
        reveal_strlit("TS040");
        reveal_strlit("TS050");
        reveal_strlit("TS060");
        reveal_strlit("TS070");
        reveal_strlit("TS080");
        assert("TS001"@[3] != "TS080"@[3]);
        assert("TS010"@[3] != "TS080"@[3]);
        assert("TS020"@[3] != "TS080"@[3]);
        assert("TS030"@[3] != "TS080"@[3]);
        assert("TS040"@[3] != "TS080"@[3]);
        assert("TS050"@[3] != "TS080"@[3]);
        assert("TS060"@[3] != "TS080"@[3]);
        assert("TS070"@[3] != "TS080"@[3]);
        lemma_fresh(l@, LintRule::TS080(EmptyCatchBlock));
    }
    let l = l.add_rule(LintRule::TS080(EmptyCatchBlock));
    proof {
        reveal_strlit("TS001");
        reveal_strlit("TS010");
        reveal_strlit("TS020");
        reveal_strlit("TS030");
        reveal_strlit("TS040");
        reveal_strlit("TS050");
        reveal_strlit("TS060");
        reveal_strlit("TS070");
        reveal_strlit("TS080");
        reveal_strlit("TS090");
        assert("TS001"@[3] != "TS090"@[3]);
        assert("TS010"@[3] != "TS090"@[3]);
        assert("TS020"@[3] != "TS090"@[3]);
        assert("TS030"@[3] != "TS090"@[3]);
        assert("TS040"@[3] != "TS090"@[3]);
        assert("TS050"@[3] != "TS090"@[3]);
        assert("TS060"@[3] != "TS090"@[3]);
        assert("TS070"@[3] != "TS090"@[3]);
        assert("TS080"@[3] != "TS090"@[3]);
        lemma_fresh(l@, LintRule::TS090(UnreachableCode));
    }
    let l = l.add_rule(LintRule::TS090(UnreachableCode));
    l
}

} // verus!
