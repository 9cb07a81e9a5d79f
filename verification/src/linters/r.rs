//! R
use vstd::prelude::*;
use crate::lint::config::{LintConfig, enabled};
use crate::lint::error::{ErrorView, Severity, opt_str_view};
use crate::lint::linter::{Linter, lemma_fresh};
use crate::lint::registry::LintRule;
use crate::lint::report::LintReport;
use crate::lint::rule::Rule;
use crate::lint::edit::{Fix, single_fix};
use crate::lint::support::{lemma_line_fits, sum_pieces, line_offset, Tmpl, at, col_errors, hit_cols, once, tmpl, finding, make_error, report_hits, report_once, report_cols, lemma_lines_bounds, lemma_lines_total, total_chars, lemma_total_chars_take};
use crate::linters::common::{count_matches, count_matches_exec, count_lit, find_col, find_col_exec, word_errors, report_words, comma_needs_space, comma_needs_space_exec, brace_needs_space, brace_needs_space_exec, brace_prev_ascii, brace_prev_ascii_exec, match_errors, report_matches, all_true, trues, trailing_ws_errors, acc_offsets, piece_offsets, report_trailing_ws, acc_offsets_exec, piece_offsets_exec, unreachable_errors, report_unreachable};
use crate::text::{lines, views, contains, starts_with, ends_with, trim, trim_start, trim_end, upper, lower, chars_of, lines_of_str, contains_lit, starts_with_lit, ends_with_lit, eq_lit, trimmed, trimmed_start, trimmed_end, upper_of, lower_of, owned, string_of, slice_of, find, find_char, find_lit, find_chars, lemma_find, matches_at, is_ws, is_whitespace, utf8_len, byte_len, prefix_bytes, any_upper, has_upper, lemma_utf8_len_take, lemma_utf8_len_subrange, split_char, fits, match_indices, match_positions_lit, char_width, split_on, contains_char, numeric_char, is_numeric};

verus! {

/// R001: Trailing whitespace.
#[derive(Clone, Copy, Debug)]
pub struct TrailingWhitespace;

impl Rule for TrailingWhitespace {
    open spec fn spec_id(&self) -> Seq<char> {
        "R001"@
    }

    open spec fn spec_severity(&self) -> Severity {
        Severity::Info
    }

    open spec fn is_pure(&self) -> bool {
        true
    }

    open spec fn accepts(&self, source: Seq<char>, disabled: Seq<Seq<char>>) -> bool {
        true
    }

    fn id(&self) -> (r: &'static str) {
        "R001"
    }

    fn severity(&self) -> (s: Severity) {
        Severity::Info
    }

    fn admits(&self, source: &str, config: &LintConfig) -> (b: bool) {
        true
    }

    open spec fn findings(&self, file: Option<Seq<char>>, source: Seq<char>, disabled: Seq<Seq<char>>) -> Seq<ErrorView> {
        if enabled(disabled, "R001"@) {
            trailing_ws_errors(lines(source), acc_offsets(lines(source)), tmpl(file, Severity::Info, "R001"@, "Trailing whitespace"@, "Remove trailing whitespace"@))
        } else {
            seq![]
        }
    }

    fn check(&self, file: Option<&str>, source: &str, report: &mut LintReport, config: &LintConfig) {
        if !config.is_enabled(self.id()) {
            return;
        }
        let ls = lines_of_str(source);
        proof {
            lemma_lines_bounds(source@);
        }
        let offs = acc_offsets_exec(&ls, Ghost(source@));
        report_trailing_ws(report, file, &ls, &offs, Severity::Info, "R001", "Trailing whitespace", "Remove trailing whitespace");
    }
}

/// R010: Use <- for assignment instead of =.
#[derive(Clone, Copy, Debug)]
pub struct EqualsAssignmentUsage;

/// Whether a line is reported by R010.
pub open spec fn r010_hit(l: Seq<char>) -> bool {
    contains(l, " = "@) && !contains(l, "=="@)
}

fn r010_test(l: &[char]) -> (b: bool)
    ensures
        b == r010_hit(l@),
{
    contains_lit(l, " = ") && !contains_lit(l, "==")
}

impl Rule for EqualsAssignmentUsage {
    open spec fn spec_id(&self) -> Seq<char> {
        "R010"@
    }

    open spec fn spec_severity(&self) -> Severity {
        Severity::Warning
    }

    open spec fn is_pure(&self) -> bool {
        true
    }

    open spec fn accepts(&self, source: Seq<char>, disabled: Seq<Seq<char>>) -> bool {
        true
    }

    fn id(&self) -> (r: &'static str) {
        "R010"
    }

    fn severity(&self) -> (s: Severity) {
        Severity::Warning
    }

    fn admits(&self, source: &str, config: &LintConfig) -> (b: bool) {
        true
    }

    open spec fn findings(&self, file: Option<Seq<char>>, source: Seq<char>, disabled: Seq<Seq<char>>) -> Seq<ErrorView> {
        if enabled(disabled, "R010"@) {
            col_errors(hit_cols(lines(source).map_values(|l: Seq<char>| r010_hit(l))), tmpl(file, Severity::Warning, "R010"@, "Use <- for assignment instead of ="@, "Replace = with <- for assignment"@))
        } else {
            seq![]
        }
    }

    fn check(&self, file: Option<&str>, source: &str, report: &mut LintReport, config: &LintConfig) {
        if !config.is_enabled(self.id()) {
            return;
        }
        let ls = lines_of_str(source);
        proof {
            lemma_lines_bounds(source@);
        }
        let mut hits: Vec<bool> = Vec::new();
        let mut i: usize = 0;
        while i < ls.len()
            invariant
                i <= ls@.len(),
                hits@.len() == i,
                views(ls@) == lines(source@),
                forall|j: int| 0 <= j < i ==> hits@[j] == r010_hit(lines(source@)[j]),
            decreases ls@.len() - i,
        {
            assert(views(ls@)[i as int] == ls@[i as int]@);
            hits.push(r010_test(ls[i].as_slice()));
            i += 1;
        }
        assert(hits@ =~= lines(source@).map_values(|l: Seq<char>| r010_hit(l)));
        report_hits(report, file, &hits, Severity::Warning, "R010", "Use <- for assignment instead of =", "Replace = with <- for assignment");
    }
}

/// R020: attach() usage detected.
#[derive(Clone, Copy, Debug)]
pub struct AttachUsage;

/// Whether a line is reported by R020.
pub open spec fn r020_hit(l: Seq<char>) -> bool {
    contains(l, "attach("@)
}

fn r020_test(l: &[char]) -> (b: bool)
    ensures
        b == r020_hit(l@),
{
    contains_lit(l, "attach(")
}

impl Rule for AttachUsage {
    open spec fn spec_id(&self) -> Seq<char> {
        "R020"@
    }

    open spec fn spec_severity(&self) -> Severity {
        Severity::Error
    }

    open spec fn is_pure(&self) -> bool {
        true
    }

    open spec fn accepts(&self, source: Seq<char>, disabled: Seq<Seq<char>>) -> bool {
        true
    }

    fn id(&self) -> (r: &'static str) {
        "R020"
    }

    fn severity(&self) -> (s: Severity) {
        Severity::Error
    }

    fn admits(&self, source: &str, config: &LintConfig) -> (b: bool) {
        true
    }

    open spec fn findings(&self, file: Option<Seq<char>>, source: Seq<char>, disabled: Seq<Seq<char>>) -> Seq<ErrorView> {
        if enabled(disabled, "R020"@) {
            col_errors(hit_cols(lines(source).map_values(|l: Seq<char>| r020_hit(l))), tmpl(file, Severity::Error, "R020"@, "attach() usage detected"@, "Avoid attach(); use explicit references"@))
        } else {
            seq![]
        }
    }

    fn check(&self, file: Option<&str>, source: &str, report: &mut LintReport, config: &LintConfig) {
        if !config.is_enabled(self.id()) {
            return;
        }
        let ls = lines_of_str(source);
        proof {
            lemma_lines_bounds(source@);
        }
        let mut hits: Vec<bool> = Vec::new();
        let mut i: usize = 0;
        while i < ls.len()
            invariant
                i <= ls@.len(),
                hits@.len() == i,
                views(ls@) == lines(source@),
                forall|j: int| 0 <= j < i ==> hits@[j] == r020_hit(lines(source@)[j]),
            decreases ls@.len() - i,
        {
            assert(views(ls@)[i as int] == ls@[i as int]@);
            hits.push(r020_test(ls[i].as_slice()));
            i += 1;
        }
        assert(hits@ =~= lines(source@).map_values(|l: Seq<char>| r020_hit(l)));
        report_hits(report, file, &hits, Severity::Error, "R020", "attach() usage detected", "Avoid attach(); use explicit references");
    }
}

/// R021: setwd() usage detected.
#[derive(Clone, Copy, Debug)]
pub struct SetwdUsage;

/// Whether a line is reported by R021.
pub open spec fn r021_hit(l: Seq<char>) -> bool {
    contains(l, "setwd("@)
}

fn r021_test(l: &[char]) -> (b: bool)
    ensures
        b == r021_hit(l@),
{
    contains_lit(l, "setwd(")
}

impl Rule for SetwdUsage {
    open spec fn spec_id(&self) -> Seq<char> {
        "R021"@
    }

    open spec fn spec_severity(&self) -> Severity {
        Severity::Warning
    }

    open spec fn is_pure(&self) -> bool {
        true
    }

    open spec fn accepts(&self, source: Seq<char>, disabled: Seq<Seq<char>>) -> bool {
        true
    }

    fn id(&self) -> (r: &'static str) {
        "R021"
    }

    fn severity(&self) -> (s: Severity) {
        Severity::Warning
    }

    fn admits(&self, source: &str, config: &LintConfig) -> (b: bool) {
        true
    }

    open spec fn findings(&self, file: Option<Seq<char>>, source: Seq<char>, disabled: Seq<Seq<char>>) -> Seq<ErrorView> {
        if enabled(disabled, "R021"@) {
            col_errors(hit_cols(lines(source).map_values(|l: Seq<char>| r021_hit(l))), tmpl(file, Severity::Warning, "R021"@, "setwd() usage detected"@, "Avoid changing working directory in scripts"@))
        } else {
            seq![]
        }
    }

    fn check(&self, file: Option<&str>, source: &str, report: &mut LintReport, config: &LintConfig) {
        if !config.is_enabled(self.id()) {
            return;
        }
        let ls = lines_of_str(source);
        proof {
            lemma_lines_bounds(source@);
        }
        let mut hits: Vec<bool> = Vec::new();
        let mut i: usize = 0;
        while i < ls.len()
            invariant
                i <= ls@.len(),
                hits@.len() == i,
                views(ls@) == lines(source@),
                forall|j: int| 0 <= j < i ==> hits@[j] == r021_hit(lines(source@)[j]),
            decreases ls@.len() - i,
        {
            assert(views(ls@)[i as int] == ls@[i as int]@);
            hits.push(r021_test(ls[i].as_slice()));
            i += 1;
        }
        assert(hits@ =~= lines(source@).map_values(|l: Seq<char>| r021_hit(l)));
        report_hits(report, file, &hits, Severity::Warning, "R021", "setwd() usage detected", "Avoid changing working directory in scripts");
    }
}

/// R040: Hardcoded absolute file path.
#[derive(Clone, Copy, Debug)]
pub struct HardcodedFilePath;

/// Whether a line is reported by R040.
pub open spec fn r040_hit(l: Seq<char>) -> bool {
    contains(l, "read.csv(\"/"@) || contains(l, "read.table(\"/"@)
}

fn r040_test(l: &[char]) -> (b: bool)
    ensures
        b == r040_hit(l@),
{
    contains_lit(l, "read.csv(\"/") || contains_lit(l, "read.table(\"/")
}

impl Rule for HardcodedFilePath {
    open spec fn spec_id(&self) -> Seq<char> {
        "R040"@
    }

    open spec fn spec_severity(&self) -> Severity {
        Severity::Warning
    }

    open spec fn is_pure(&self) -> bool {
        true
    }

    open spec fn accepts(&self, source: Seq<char>, disabled: Seq<Seq<char>>) -> bool {
        true
    }

    fn id(&self) -> (r: &'static str) {
        "R040"
    }

    fn severity(&self) -> (s: Severity) {
        Severity::Warning
    }

    fn admits(&self, source: &str, config: &LintConfig) -> (b: bool) {
        true
    }

    open spec fn findings(&self, file: Option<Seq<char>>, source: Seq<char>, disabled: Seq<Seq<char>>) -> Seq<ErrorView> {
        if enabled(disabled, "R040"@) {
            col_errors(hit_cols(lines(source).map_values(|l: Seq<char>| r040_hit(l))), tmpl(file, Severity::Warning, "R040"@, "Hardcoded absolute file path"@, "Use relative paths or configuration"@))
        } else {
            seq![]
        }
    }

    fn check(&self, file: Option<&str>, source: &str, report: &mut LintReport, config: &LintConfig) {
        if !config.is_enabled(self.id()) {
            return;
        }
        let ls = lines_of_str(source);
        proof {
            lemma_lines_bounds(source@);
        }
        let mut hits: Vec<bool> = Vec::new();
        let mut i: usize = 0;
        while i < ls.len()
            invariant
                i <= ls@.len(),
                hits@.len() == i,
                views(ls@) == lines(source@),
                forall|j: int| 0 <= j < i ==> hits@[j] == r040_hit(lines(source@)[j]),
            decreases ls@.len() - i,
        {
            assert(views(ls@)[i as int] == ls@[i as int]@);
            hits.push(r040_test(ls[i].as_slice()));
            i += 1;
        }
        assert(hits@ =~= lines(source@).map_values(|l: Seq<char>| r040_hit(l)));
        report_hits(report, file, &hits, Severity::Warning, "R040", "Hardcoded absolute file path", "Use relative paths or configuration");
    }
}

/// R050: For-loop detected.
#[derive(Clone, Copy, Debug)]
pub struct LoopInsteadOfVectorization;

/// Whether a line is reported by R050.
pub open spec fn r050_hit(l: Seq<char>) -> bool {
    starts_with(trim_start(l), "for ("@)
}

fn r050_test(l: &[char]) -> (b: bool)
    ensures
        b == r050_hit(l@),
{
    starts_with_lit(trimmed_start(l).as_slice(), "for (")
}

impl Rule for LoopInsteadOfVectorization {
    open spec fn spec_id(&self) -> Seq<char> {
        "R050"@
    }

    open spec fn spec_severity(&self) -> Severity {
        Severity::Info
    }

    open spec fn is_pure(&self) -> bool {
        true
    }

    open spec fn accepts(&self, source: Seq<char>, disabled: Seq<Seq<char>>) -> bool {
        true
    }

    fn id(&self) -> (r: &'static str) {
        "R050"
    }

    fn severity(&self) -> (s: Severity) {
        Severity::Info
    }

    fn admits(&self, source: &str, config: &LintConfig) -> (b: bool) {
        true
    }

    open spec fn findings(&self, file: Option<Seq<char>>, source: Seq<char>, disabled: Seq<Seq<char>>) -> Seq<ErrorView> {
        if enabled(disabled, "R050"@) {
            col_errors(hit_cols(lines(source).map_values(|l: Seq<char>| r050_hit(l))), tmpl(file, Severity::Info, "R050"@, "For-loop detected"@, "Consider vectorized alternatives"@))
        } else {
            seq![]
        }
    }

    fn check(&self, file: Option<&str>, source: &str, report: &mut LintReport, config: &LintConfig) {
        if !config.is_enabled(self.id()) {
            return;
        }
        let ls = lines_of_str(source);
        proof {
            lemma_lines_bounds(source@);
        }
        let mut hits: Vec<bool> = Vec::new();
        let mut i: usize = 0;
        while i < ls.len()
            invariant
                i <= ls@.len(),
                hits@.len() == i,
                views(ls@) == lines(source@),
                forall|j: int| 0 <= j < i ==> hits@[j] == r050_hit(lines(source@)[j]),
            decreases ls@.len() - i,
        {
            assert(views(ls@)[i as int] == ls@[i as int]@);
            hits.push(r050_test(ls[i].as_slice()));
            i += 1;
        }
        assert(hits@ =~= lines(source@).map_values(|l: Seq<char>| r050_hit(l)));
        report_hits(report, file, &hits, Severity::Info, "R050", "For-loop detected", "Consider vectorized alternatives");
    }
}

/// R060: Partial argument matching used.
#[derive(Clone, Copy, Debug)]
pub struct PartialArgumentMatching;

/// Whether R060 reports a source.
pub open spec fn r060_hit(file: Option<Seq<char>>, src: Seq<char>) -> bool {
    contains(src, "na.rm=T"@)
}

fn r060_test(file: Option<&str>, src: &[char]) -> (b: bool)
    requires
        fits(src@),
    ensures
        b == r060_hit(opt_str_view(file), src@),
{
    contains_lit(src, "na.rm=T")
}

impl Rule for PartialArgumentMatching {
    open spec fn spec_id(&self) -> Seq<char> {
        "R060"@
    }

    open spec fn spec_severity(&self) -> Severity {
        Severity::Warning
    }

    open spec fn is_pure(&self) -> bool {
        true
    }

    open spec fn accepts(&self, source: Seq<char>, disabled: Seq<Seq<char>>) -> bool {
        true
    }

    fn id(&self) -> (r: &'static str) {
        "R060"
    }

    fn severity(&self) -> (s: Severity) {
        Severity::Warning
    }

    fn admits(&self, source: &str, config: &LintConfig) -> (b: bool) {
        true
    }

    open spec fn findings(&self, file: Option<Seq<char>>, source: Seq<char>, disabled: Seq<Seq<char>>) -> Seq<ErrorView> {
        if enabled(disabled, "R060"@) {
            once(r060_hit(file, source), tmpl(file, Severity::Warning, "R060"@, "Partial argument matching used"@, "Use full argument name and TRUE"@))
        } else {
            seq![]
        }
    }

    fn check(&self, file: Option<&str>, source: &str, report: &mut LintReport, config: &LintConfig) {
        if !config.is_enabled(self.id()) {
            return;
        }
        let src = chars_of(source);
        let hit = r060_test(file, src.as_slice());
        report_once(report, file, hit, Severity::Warning, "R060", "Partial argument matching used", "Use full argument name and TRUE");
    }
}

/// R070: Unreachable code detected.
#[derive(Clone, Copy, Debug)]
pub struct UnreachableCode;

/// Whether a line ends the reachable code for R070.
pub open spec fn r070_term(l: Seq<char>) -> bool {
    starts_with(trim_start(l), "return("@)
}

fn r070_term_test(l: &[char]) -> (b: bool)
    ensures
        b == r070_term(l@),
{
    starts_with_lit(trimmed_start(l).as_slice(), "return(")
}

impl Rule for UnreachableCode {
    open spec fn spec_id(&self) -> Seq<char> {
        "R070"@
    }

    open spec fn spec_severity(&self) -> Severity {
        Severity::Error
    }

    open spec fn is_pure(&self) -> bool {
        true
    }

    open spec fn accepts(&self, source: Seq<char>, disabled: Seq<Seq<char>>) -> bool {
        true
    }

    fn id(&self) -> (r: &'static str) {
        "R070"
    }

    fn severity(&self) -> (s: Severity) {
        Severity::Error
    }

    fn admits(&self, source: &str, config: &LintConfig) -> (b: bool) {
        true
    }

    open spec fn findings(&self, file: Option<Seq<char>>, source: Seq<char>, disabled: Seq<Seq<char>>) -> Seq<ErrorView> {
        if enabled(disabled, "R070"@) {
            unreachable_errors(lines(source), lines(source).map_values(|l: Seq<char>| r070_term(l)), tmpl(file, Severity::Error, "R070"@, "Unreachable code detected"@, "Remove unreachable statements"@))
        } else {
            seq![]
        }
    }

    fn check(&self, file: Option<&str>, source: &str, report: &mut LintReport, config: &LintConfig) {
        if !config.is_enabled(self.id()) {
            return;
        }
        let ls = lines_of_str(source);
        proof {
            lemma_lines_bounds(source@);
        }
        let mut term: Vec<bool> = Vec::new();
        let mut i: usize = 0;
        while i < ls.len()
            invariant
                i <= ls@.len(),
                term@.len() == i,
                views(ls@) == lines(source@),
                forall|j: int| 0 <= j < i ==> term@[j] == r070_term(lines(source@)[j]),
            decreases ls@.len() - i,
        {
            assert(views(ls@)[i as int] == ls@[i as int]@);
            term.push(r070_term_test(ls[i].as_slice()));
            i += 1;
        }
        assert(term@ =~= lines(source@).map_values(|l: Seq<char>| r070_term(l)));
        report_unreachable(report, file, &ls, &term, Severity::Error, "R070", "Unreachable code detected", "Remove unreachable statements");
    }
}

/// Whether R030 is inside a function after the first `k` lines of `ls`.
pub open spec fn r030_state(ls: Seq<Seq<char>>, k: int) -> bool
    decreases k,
{
    if k <= 0 {
        false
    } else {
        let l = ls[k - 1];
        let inside = r030_state(ls, k - 1) || contains(l, "<- function"@);
        if contains(l, "}"@) {
            false
        } else {
            inside
        }
    }
}

/// Whether R030 reports line `i` of `ls`.
pub open spec fn r030_hit(ls: Seq<Seq<char>>, i: int) -> bool {
    (r030_state(ls, i) || contains(ls[i], "<- function"@)) && contains(ls[i], "library("@)
}

/// R030: library() inside function.
#[derive(Clone, Copy, Debug)]
pub struct LibraryInsideFunction;

impl Rule for LibraryInsideFunction {
    open spec fn spec_id(&self) -> Seq<char> {
        "R030"@
    }

    open spec fn spec_severity(&self) -> Severity {
        Severity::Info
    }

    open spec fn is_pure(&self) -> bool {
        true
    }

    open spec fn accepts(&self, source: Seq<char>, disabled: Seq<Seq<char>>) -> bool {
        true
    }

    open spec fn findings(&self, file: Option<Seq<char>>, source: Seq<char>, disabled: Seq<Seq<char>>) -> Seq<ErrorView> {
        if enabled(disabled, "R030"@) {
            col_errors(
                hit_cols(Seq::new(lines(source).len(), |i: int| r030_hit(lines(source), i))),
                tmpl(file, Severity::Info, "R030"@, "library() inside function"@, "Load libraries at top-level scope"@),
            )
        } else {
            seq![]
        }
    }

    fn id(&self) -> (r: &'static str) {
        "R030"
    }

    fn severity(&self) -> (s: Severity) {
        Severity::Info
    }

    fn admits(&self, source: &str, config: &LintConfig) -> (b: bool) {
        true
    }

    fn check(&self, file: Option<&str>, source: &str, report: &mut LintReport, config: &LintConfig) {
        if !config.is_enabled(self.id()) {
            return;
        }
        let ls = lines_of_str(source);
        proof {
            lemma_lines_bounds(source@);
        }
        let ghost v = views(ls@);
        let mut hits: Vec<bool> = Vec::new();
        let mut in_function = false;
        let mut i: usize = 0;
        while i < ls.len()
            invariant
                v == views(ls@),
                v == lines(source@),
                i <= ls@.len(),
                hits@.len() == i,
                in_function == r030_state(v, i as int),
                forall|j: int| 0 <= j < i ==> hits@[j] == r030_hit(v, j),
            decreases ls@.len() - i,
        {
            assert(v[i as int] == ls@[i as int]@);
            let line = ls[i].as_slice();
            if contains_lit(line, "<- function") {
                in_function = true;
            }
            hits.push(in_function && contains_lit(line, "library("));
            if contains_lit(line, "}") {
                in_function = false;
            }
            i += 1;
        }
        assert(hits@ =~= Seq::new(lines(source@).len(), |i: int| r030_hit(lines(source@), i)));
        report_hits(report, file, &hits, Severity::Info, "R030", "library() inside function", "Load libraries at top-level scope");
    }
}

/// The rules of the R rule set, in order.
pub open spec fn rule_set() -> Seq<LintRule> {
    seq![LintRule::R001(TrailingWhitespace), LintRule::R010(EqualsAssignmentUsage), LintRule::R020(AttachUsage), LintRule::R021(SetwdUsage), LintRule::R030(LibraryInsideFunction), LintRule::R040(HardcodedFilePath), LintRule::R050(LoopInsteadOfVectorization), LintRule::R060(PartialArgumentMatching), LintRule::R070(UnreachableCode)]
}

/// The R rule set.
pub fn linter() -> (l: Linter)
    ensures
        l@ == rule_set(),
{
    let l = Linter::new();
    assert(l@ == Seq::<LintRule>::empty());
    proof {
        lemma_fresh(l@, LintRule::R001(TrailingWhitespace));
    }
    let l = l.add_rule(LintRule::R001(TrailingWhitespace));
    proof {
        reveal_strlit("R001");
        reveal_strlit("R010");
        assert("R001"@[2] != "R010"@[2]);
        lemma_fresh(l@, LintRule::R010(EqualsAssignmentUsage));
    }
    let l = l.add_rule(LintRule::R010(EqualsAssignmentUsage));
    proof {
        reveal_strlit("R001");
        reveal_strlit("R010");
        reveal_strlit("R020");
        assert("R001"@[2] != "R020"@[2]);
        assert("R010"@[2] != "R020"@[2]);
        lemma_fresh(l@, LintRule::R020(AttachUsage));
    }
    let l = l.add_rule(LintRule::R020(AttachUsage));
    proof {
        reveal_strlit("R001");
        reveal_strlit("R010");
        reveal_strlit("R020");
        reveal_strlit("R021");
        assert("R001"@[2] != "R021"@[2]);
        assert("R010"@[2] != "R021"@[2]);
        assert("R020"@[3] != "R021"@[3]);
        lemma_fresh(l@, LintRule::R021(SetwdUsage));
    }
    let l = l.add_rule(LintRule::R021(SetwdUsage));
    proof {
        reveal_strlit("R001");
        reveal_strlit("R010");
        reveal_strlit("R020");
        reveal_strlit("R021");
        reveal_strlit("R030");
        assert("R001"@[2] != "R030"@[2]);
        assert("R010"@[2] != "R030"@[2]);
        assert("R020"@[2] != "R030"@[2]);
        assert("R021"@[2] != "R030"@[2]);
        lemma_fresh(l@, LintRule::R030(LibraryInsideFunction));
    }
    let l = l.add_rule(LintRule::R030(LibraryInsideFunction));
    proof {
        reveal_strlit("R001");
        reveal_strlit("R010");
        reveal_strlit("R020");
        reveal_strlit("R021");
        reveal_strlit("R030");
        reveal_strlit("R040");
        assert("R001"@[2] != "R040"@[2]);
        assert("R010"@[2] != "R040"@[2]);
        assert("R020"@[2] != "R040"@[2]);
        assert("R021"@[2] != "R040"@[2]);
        assert("R030"@[2] != "R040"@[2]);
        lemma_fresh(l@, LintRule::R040(HardcodedFilePath));
    }
    let l = l.add_rule(LintRule::R040(HardcodedFilePath));
    proof {
        reveal_strlit("R001");
        reveal_strlit("R010");
        reveal_strlit("R020");
        reveal_strlit("R021");
        reveal_strlit("R030");
        reveal_strlit("R040");
        reveal_strlit("R050");
        assert("R001"@[2] != "R050"@[2]);
        assert("R010"@[2] != "R050"@[2]);
        assert("R020"@[2] != "R050"@[2]);
        assert("R021"@[2] != "R050"@[2]);
        assert("R030"@[2] != "R050"@[2]);
        assert("R040"@[2] != "R050"@[2]);
        lemma_fresh(l@, LintRule::R050(LoopInsteadOfVectorization));
    }
    let l = l.add_rule(LintRule::R050(LoopInsteadOfVectorization));
    proof {
        reveal_strlit("R001");
        reveal_strlit("R010");
        reveal_strlit("R020");
        reveal_strlit("R021");
        reveal_strlit("R030");
        reveal_strlit("R040");
        reveal_strlit("R050");
        reveal_strlit("R060");
        assert("R001"@[2] != "R060"@[2]);
        assert("R010"@[2] != "R060"@[2]);
        assert("R020"@[2] != "R060"@[2]);
        assert("R021"@[2] != "R060"@[2]);
        assert("R030"@[2] != "R060"@[2]);
        assert("R040"@[2] != "R060"@[2]);
        assert("R050"@[2] != "R060"@[2]);
        lemma_fresh(l@, LintRule::R060(PartialArgumentMatching));
    }
    let l = l.add_rule(LintRule::R060(PartialArgumentMatching));
    proof {
        reveal_strlit("R001");
        reveal_strlit("R010");
        reveal_strlit("R020");
        reveal_strlit("R021");
        reveal_strlit("R030");
        reveal_strlit("R040");
        reveal_strlit("R050");
        reveal_strlit("R060");
        reveal_strlit("R070");
        assert("R001"@[2] != "R070"@[2]);
        assert("R010"@[2] != "R070"@[2]);
        assert("R020"@[2] != "R070"@[2]);
        assert("R021"@[2] != "R070"@[2]);
        assert("R030"@[2] != "R070"@[2]);
        assert("R040"@[2] != "R070"@[2]);
        assert("R050"@[2] != "R070"@[2]);
        assert("R060"@[2] != "R070"@[2]);
        lemma_fresh(l@, LintRule::R070(UnreachableCode));
    }
    let l = l.add_rule(LintRule::R070(UnreachableCode));
    l
}

} // verus!
