//! PHP
use vstd::prelude::*;
use crate::lint::config::{LintConfig, enabled};
use crate::lint::error::{ErrorView, Severity, opt_str_view};
use crate::lint::linter::{Linter, lemma_fresh};
use crate::lint::registry::LintRule;
use crate::lint::report::LintReport;
use crate::lint::rule::Rule;
use crate::lint::edit::{Fix, single_fix};
use crate::lint::support::{lemma_line_fits, sum_pieces, line_offset, Tmpl, at, col_errors, hit_cols, once, tmpl, finding, make_error, report_hits, report_once, report_cols, lemma_lines_bounds, lemma_lines_total, total_chars, lemma_total_chars_take};
use crate::linters::common::{count_matches, count_matches_exec, count_lit, find_col, find_col_exec, word_errors, report_words, comma_needs_space, comma_needs_space_exec, brace_needs_space, brace_needs_space_exec, brace_prev_ascii, brace_prev_ascii_exec, match_errors, report_matches, all_true, trues, trailing_ws_errors, acc_offsets, piece_offsets, report_trailing_ws, acc_offsets_exec, piece_offsets_exec, unreachable_errors, report_unreachable};
use crate::text::{lines, views, contains, starts_with, ends_with, trim, trim_start, trim_end, upper, lower, chars_of, lines_of_str, contains_lit, starts_with_lit, ends_with_lit, eq_lit, trimmed, trimmed_start, trimmed_end, upper_of, lower_of, owned, string_of, slice_of, find, find_char, find_lit, find_chars, lemma_find, matches_at, is_ws, is_whitespace, utf8_len, byte_len, prefix_bytes, any_upper, has_upper, lemma_utf8_len_take, lemma_utf8_len_subrange, split_char, fits, match_indices, match_positions_lit, char_width, split_on, contains_char, numeric_char, is_numeric};

verus! {

/// PHP001: Trailing whitespace.
#[derive(Clone, Copy, Debug)]
pub struct TrailingWhitespace;

impl Rule for TrailingWhitespace {
    open spec fn spec_id(&self) -> Seq<char> {
        "PHP001"@
    }

    open spec fn spec_severity(&self) -> Severity {
        Severity::Info
    }

    open spec fn is_pure(&self) -> bool {
        true
    }

    open spec fn accepts(&self, source: Seq<char>, disabled: Seq<Seq<char>>) -> bool {
        true
    }

    fn id(&self) -> (r: &'static str) {
        "PHP001"
    }

    fn severity(&self) -> (s: Severity) {
        Severity::Info
    }

    fn admits(&self, source: &str, config: &LintConfig) -> (b: bool) {
        true
    }

    open spec fn findings(&self, file: Option<Seq<char>>, source: Seq<char>, disabled: Seq<Seq<char>>) -> Seq<ErrorView> {
        if enabled(disabled, "PHP001"@) {
            trailing_ws_errors(lines(source), acc_offsets(lines(source)), tmpl(file, Severity::Info, "PHP001"@, "Trailing whitespace"@, "Remove trailing whitespace"@))
        } else {
            seq![]
        }
    }

    fn check(&self, file: Option<&str>, source: &str, report: &mut LintReport, config: &LintConfig) {
        if !config.is_enabled(self.id()) {
            return;
        }
        let ls = lines_of_str(source);
        proof {
            lemma_lines_bounds(source@);
        }
        let offs = acc_offsets_exec(&ls, Ghost(source@));
        report_trailing_ws(report, file, &ls, &offs, Severity::Info, "PHP001", "Trailing whitespace", "Remove trailing whitespace");
    }
}

/// PHP042: Missing strict types declaration.
#[derive(Clone, Copy, Debug)]
pub struct StrictTypesDeclaration;

/// Whether PHP042 reports a source.
pub open spec fn php042_hit(file: Option<Seq<char>>, src: Seq<char>) -> bool {
    !contains(src, "declare(strict_types=1);"@)
}

fn php042_test(file: Option<&str>, src: &[char]) -> (b: bool)
    requires
        fits(src@),
    ensures
        b == php042_hit(opt_str_view(file), src@),
{
    !contains_lit(src, "declare(strict_types=1);")
}

impl Rule for StrictTypesDeclaration {
    open spec fn spec_id(&self) -> Seq<char> {
        "PHP042"@
    }

    open spec fn spec_severity(&self) -> Severity {
        Severity::Warning
    }

    open spec fn is_pure(&self) -> bool {
        true
    }

    open spec fn accepts(&self, source: Seq<char>, disabled: Seq<Seq<char>>) -> bool {
        true
    }

    fn id(&self) -> (r: &'static str) {
        "PHP042"
    }

    fn severity(&self) -> (s: Severity) {
        Severity::Warning
    }

    fn admits(&self, source: &str, config: &LintConfig) -> (b: bool) {
        true
    }

    open spec fn findings(&self, file: Option<Seq<char>>, source: Seq<char>, disabled: Seq<Seq<char>>) -> Seq<ErrorView> {
        if enabled(disabled, "PHP042"@) {
            once(php042_hit(file, source), tmpl(file, Severity::Warning, "PHP042"@, "Missing strict types declaration"@, "Add declare(strict_types=1); after <?php"@))
        } else {
            seq![]
        }
    }

    fn check(&self, file: Option<&str>, source: &str, report: &mut LintReport, config: &LintConfig) {
        if !config.is_enabled(self.id()) {
            return;
        }
        let src = chars_of(source);
        let hit = php042_test(file, src.as_slice());
        report_once(report, file, hit, Severity::Warning, "PHP042", "Missing strict types declaration", "Add declare(strict_types=1); after <?php");
    }
}

/// PHP162: Avoid global keyword.
#[derive(Clone, Copy, Debug)]
pub struct GlobalUsage;

/// Whether a line is reported by PHP162.
pub open spec fn php162_hit(l: Seq<char>) -> bool {
    starts_with(trim_start(l), "global "@)
}

fn php162_test(l: &[char]) -> (b: bool)
    ensures
        b == php162_hit(l@),
{
    starts_with_lit(trimmed_start(l).as_slice(), "global ")
}

impl Rule for GlobalUsage {
    open spec fn spec_id(&self) -> Seq<char> {
        "PHP162"@
    }

    open spec fn spec_severity(&self) -> Severity {
        Severity::Warning
    }

    open spec fn is_pure(&self) -> bool {
        true
    }

    open spec fn accepts(&self, source: Seq<char>, disabled: Seq<Seq<char>>) -> bool {
        true
    }

    fn id(&self) -> (r: &'static str) {
        "PHP162"
    }

    fn severity(&self) -> (s: Severity) {
        Severity::Warning
    }

    fn admits(&self, source: &str, config: &LintConfig) -> (b: bool) {
        true
    }

    open spec fn findings(&self, file: Option<Seq<char>>, source: Seq<char>, disabled: Seq<Seq<char>>) -> Seq<ErrorView> {
        if enabled(disabled, "PHP162"@) {
            col_errors(hit_cols(lines(source).map_values(|l: Seq<char>| php162_hit(l))), tmpl(file, Severity::Warning, "PHP162"@, "Avoid global keyword"@, "Inject dependencies instead"@))
        } else {
            seq![]
        }
    }

    fn check(&self, file: Option<&str>, source: &str, report: &mut LintReport, config: &LintConfig) {
        if !config.is_enabled(self.id()) {
            return;
        }
        let ls = lines_of_str(source);
        proof {
            lemma_lines_bounds(source@);
        }
        let mut hits: Vec<bool> = Vec::new();
        let mut i: usize = 0;
        while i < ls.len()
            invariant
                i <= ls@.len(),
                hits@.len() == i,
                views(ls@) == lines(source@),
                forall|j: int| 0 <= j < i ==> hits@[j] == php162_hit(lines(source@)[j]),
            decreases ls@.len() - i,
        {
            assert(views(ls@)[i as int] == ls@[i as int]@);
            hits.push(php162_test(ls[i].as_slice()));
            i += 1;
        }
        assert(hits@ =~= lines(source@).map_values(|l: Seq<char>| php162_hit(l)));
        report_hits(report, file, &hits, Severity::Warning, "PHP162", "Avoid global keyword", "Inject dependencies instead");
    }
}

/// PHP200: Missing namespace declaration.
#[derive(Clone, Copy, Debug)]
pub struct MissingNamespace;

/// Whether PHP200 reports a source.
pub open spec fn php200_hit(file: Option<Seq<char>>, src: Seq<char>) -> bool {
    contains(src, "class "@) && !contains(src, "namespace "@)
}

fn php200_test(file: Option<&str>, src: &[char]) -> (b: bool)
    requires
        fits(src@),
    ensures
        b == php200_hit(opt_str_view(file), src@),
{
    contains_lit(src, "class ") && !contains_lit(src, "namespace ")
}

impl Rule for MissingNamespace {
    open spec fn spec_id(&self) -> Seq<char> {
        "PHP200"@
    }

    open spec fn spec_severity(&self) -> Severity {
        Severity::Warning
    }

    open spec fn is_pure(&self) -> bool {
        true
    }

    open spec fn accepts(&self, source: Seq<char>, disabled: Seq<Seq<char>>) -> bool {
        true
    }

    fn id(&self) -> (r: &'static str) {
        "PHP200"
    }

    fn severity(&self) -> (s: Severity) {
        Severity::Warning
    }

    fn admits(&self, source: &str, config: &LintConfig) -> (b: bool) {
        true
    }

    open spec fn findings(&self, file: Option<Seq<char>>, source: Seq<char>, disabled: Seq<Seq<char>>) -> Seq<ErrorView> {
        if enabled(disabled, "PHP200"@) {
            once(php200_hit(file, source), tmpl(file, Severity::Warning, "PHP200"@, "Missing namespace declaration"@, "Add namespace matching directory #[derive(Clone)]
structure"@))
        } else {
            seq![]
        }
    }

    fn check(&self, file: Option<&str>, source: &str, report: &mut LintReport, config: &LintConfig) {
        if !config.is_enabled(self.id()) {
            return;
        }
        let src = chars_of(source);
        let hit = php200_test(file, src.as_slice());
        report_once(report, file, hit, Severity::Warning, "PHP200", "Missing namespace declaration", "Add namespace matching directory #[derive(Clone)]
structure");
    }
}

/// PHP260: Unreachable code detected.
#[derive(Clone, Copy, Debug)]
pub struct UnreachableCode;

/// Whether a line ends the reachable code for PHP260.
pub open spec fn php260_term(l: Seq<char>) -> bool {
    starts_with(trim_start(l), "return"@) || starts_with(trim_start(l), "throw"@)
}

fn php260_term_test(l: &[char]) -> (b: bool)
    ensures
        b == php260_term(l@),
{
    starts_with_lit(trimmed_start(l).as_slice(), "return") || starts_with_lit(trimmed_start(l).as_slice(), "throw")
}

impl Rule for UnreachableCode {
    open spec fn spec_id(&self) -> Seq<char> {
        "PHP260"@
    }

    open spec fn spec_severity(&self) -> Severity {
        Severity::Error
    }

    open spec fn is_pure(&self) -> bool {
        true
    }

    open spec fn accepts(&self, source: Seq<char>, disabled: Seq<Seq<char>>) -> bool {
        true
    }

    fn id(&self) -> (r: &'static str) {
        "PHP260"
    }

    fn severity(&self) -> (s: Severity) {
        Severity::Error
    }

    fn admits(&self, source: &str, config: &LintConfig) -> (b: bool) {
        true
    }

    open spec fn findings(&self, file: Option<Seq<char>>, source: Seq<char>, disabled: Seq<Seq<char>>) -> Seq<ErrorView> {
        if enabled(disabled, "PHP260"@) {
            unreachable_errors(lines(source), lines(source).map_values(|l: Seq<char>| php260_term(l)), tmpl(file, Severity::Error, "PHP260"@, "Unreachable code detected"@, "Remove unreachable code"@))
        } else {
            seq![]
        }
    }

    fn check(&self, file: Option<&str>, source: &str, report: &mut LintReport, config: &LintConfig) {
        if !config.is_enabled(self.id()) {
            return;
        }
        let ls = lines_of_str(source);
        proof {
            lemma_lines_bounds(source@);
        }
        let mut term: Vec<bool> = Vec::new();
        let mut i: usize = 0;
        while i < ls.len()
            invariant
                i <= ls@.len(),
                term@.len() == i,
                views(ls@) == lines(source@),
                forall|j: int| 0 <= j < i ==> term@[j] == php260_term(lines(source@)[j]),
            decreases ls@.len() - i,
        {
            assert(views(ls@)[i as int] == ls@[i as int]@);
            term.push(php260_term_test(ls[i].as_slice()));
            i += 1;
        }
        assert(term@ =~= lines(source@).map_values(|l: Seq<char>| php260_term(l)));
        report_unreachable(report, file, &ls, &term, Severity::Error, "PHP260", "Unreachable code detected", "Remove unreachable code");
    }
}

/// PHP061: Assignment inside condition.
#[derive(Clone, Copy, Debug)]
pub struct AssignmentInCondition;

/// Whether a line is reported by PHP061.
pub open spec fn php061_hit(l: Seq<char>) -> bool {
    contains(l, "if ("@) && contains(l, "="@) && !contains(l, "=="@)
}

fn php061_test(l: &[char]) -> (b: bool)
    ensures
        b == php061_hit(l@),
{
    contains_lit(l, "if (") && contains_lit(l, "=") && !contains_lit(l, "==")
}

impl Rule for AssignmentInCondition {
    open spec fn spec_id(&self) -> Seq<char> {
        "PHP061"@
    }

    open spec fn spec_severity(&self) -> Severity {
        Severity::Error
    }

    open spec fn is_pure(&self) -> bool {
        true
    }

    open spec fn accepts(&self, source: Seq<char>, disabled: Seq<Seq<char>>) -> bool {
        true
    }

    fn id(&self) -> (r: &'static str) {
        "PHP061"
    }

    fn severity(&self) -> (s: Severity) {
        Severity::Error
    }

    fn admits(&self, source: &str, config: &LintConfig) -> (b: bool) {
        true
    }

    open spec fn findings(&self, file: Option<Seq<char>>, source: Seq<char>, disabled: Seq<Seq<char>>) -> Seq<ErrorView> {
        if enabled(disabled, "PHP061"@) {
            col_errors(hit_cols(lines(source).map_values(|l: Seq<char>| php061_hit(l))), tmpl(file, Severity::Error, "PHP061"@, "Assignment inside condition"@, "Separate assignment from condition"@))
        } else {
            seq![]
        }
    }

    fn check(&self, file: Option<&str>, source: &str, report: &mut LintReport, config: &LintConfig) {
        if !config.is_enabled(self.id()) {
            return;
        }
        let ls = lines_of_str(source);
        proof {
            lemma_lines_bounds(source@);
        }
        let mut hits: Vec<bool> = Vec::new();
        let mut i: usize = 0;
        while i < ls.len()
            invariant
                i <= ls@.len(),
                hits@.len() == i,
                views(ls@) == lines(source@),
                forall|j: int| 0 <= j < i ==> hits@[j] == php061_hit(lines(source@)[j]),
            decreases ls@.len() - i,
        {
            assert(views(ls@)[i as int] == ls@[i as int]@);
            hits.push(php061_test(ls[i].as_slice()));
            i += 1;
        }
        assert(hits@ =~= lines(source@).map_values(|l: Seq<char>| php061_hit(l)));
        report_hits(report, file, &hits, Severity::Error, "PHP061", "Assignment inside condition", "Separate assignment from condition");
    }
}

/// PHP062: Empty catch block.
#[derive(Clone, Copy, Debug)]
pub struct EmptyCatchBlock;

/// Whether PHP062 reports a source.
pub open spec fn php062_hit(file: Option<Seq<char>>, src: Seq<char>) -> bool {
    contains(src, "catch"@) && contains(src, "{}"@)
}

fn php062_test(file: Option<&str>, src: &[char]) -> (b: bool)
    requires
        fits(src@),
    ensures
        b == php062_hit(opt_str_view(file), src@),
{
    contains_lit(src, "catch") && contains_lit(src, "{}")
}

impl Rule for EmptyCatchBlock {
    open spec fn spec_id(&self) -> Seq<char> {
        "PHP062"@
    }

    open spec fn spec_severity(&self) -> Severity {
        Severity::Warning
    }

    open spec fn is_pure(&self) -> bool {
        true
    }

    open spec fn accepts(&self, source: Seq<char>, disabled: Seq<Seq<char>>) -> bool {
        true
    }

    fn id(&self) -> (r: &'static str) {
        "PHP062"
    }

    fn severity(&self) -> (s: Severity) {
        Severity::Warning
    }

    fn admits(&self, source: &str, config: &LintConfig) -> (b: bool) {
        true
    }

    open spec fn findings(&self, file: Option<Seq<char>>, source: Seq<char>, disabled: Seq<Seq<char>>) -> Seq<ErrorView> {
        if enabled(disabled, "PHP062"@) {
            once(php062_hit(file, source), tmpl(file, Severity::Warning, "PHP062"@, "Empty catch block"@, "Handle or log exception"@))
        } else {
            seq![]
        }
    }

    fn check(&self, file: Option<&str>, source: &str, report: &mut LintReport, config: &LintConfig) {
        if !config.is_enabled(self.id()) {
            return;
        }
        let src = chars_of(source);
        let hit = php062_test(file, src.as_slice());
        report_once(report, file, hit, Severity::Warning, "PHP062", "Empty catch block", "Handle or log exception");
    }
}

/// PHP161: Magic number detected.
#[derive(Clone, Copy, Debug)]
pub struct MagicNumber;

/// Whether a line is reported by PHP161.
pub open spec fn php161_hit(l: Seq<char>) -> bool {
    contains(l, " = 42"@)
}

fn php161_test(l: &[char]) -> (b: bool)
    ensures
        b == php161_hit(l@),
{
    contains_lit(l, " = 42")
}

impl Rule for MagicNumber {
    open spec fn spec_id(&self) -> Seq<char> {
        "PHP161"@
    }

    open spec fn spec_severity(&self) -> Severity {
        Severity::Info
    }

    open spec fn is_pure(&self) -> bool {
        true
    }

    open spec fn accepts(&self, source: Seq<char>, disabled: Seq<Seq<char>>) -> bool {
        true
    }

    fn id(&self) -> (r: &'static str) {
        "PHP161"
    }

    fn severity(&self) -> (s: Severity) {
        Severity::Info
    }

    fn admits(&self, source: &str, config: &LintConfig) -> (b: bool) {
        true
    }

    open spec fn findings(&self, file: Option<Seq<char>>, source: Seq<char>, disabled: Seq<Seq<char>>) -> Seq<ErrorView> {
        if enabled(disabled, "PHP161"@) {
            col_errors(hit_cols(lines(source).map_values(|l: Seq<char>| php161_hit(l))), tmpl(file, Severity::Info, "PHP161"@, "Magic number detected"@, "Extract to named constant"@))
        } else {
            seq![]
        }
    }

    fn check(&self, file: Option<&str>, source: &str, report: &mut LintReport, config: &LintConfig) {
        if !config.is_enabled(self.id()) {
            return;
        }
        let ls = lines_of_str(source);
        proof {
            lemma_lines_bounds(source@);
        }
        let mut hits: Vec<bool> = Vec::new();
        let mut i: usize = 0;
        while i < ls.len()
            invariant
                i <= ls@.len(),
                hits@.len() == i,
                views(ls@) == lines(source@),
                forall|j: int| 0 <= j < i ==> hits@[j] == php161_hit(lines(source@)[j]),
            decreases ls@.len() - i,
        {
            assert(views(ls@)[i as int] == ls@[i as int]@);
            hits.push(php161_test(ls[i].as_slice()));
            i += 1;
        }
        assert(hits@ =~= lines(source@).map_values(|l: Seq<char>| php161_hit(l)));
        report_hits(report, file, &hits, Severity::Info, "PHP161", "Magic number detected", "Extract to named constant");
    }
}

/// PHP160: Loose comparison detected.
#[derive(Clone, Copy, Debug)]
pub struct LooseComparison;

/// The column of the PHP160 finding on line `l`, if any.
pub open spec fn php160_col(l: Seq<char>) -> Option<usize> {
    if contains(l, "=="@) && !contains(l, "==="@) {
        Some(find_col(l, "=="@) as usize)
    } else {
        None
    }
}

fn php160_test(l: &[char]) -> (c: Option<usize>)
    requires
        fits(l@),
    ensures
        c == php160_col(l@),
{
    if contains_lit(l, "==") && !contains_lit(l, "===") {
        Some(find_col_exec(l, "=="))
    } else {
        None
    }
}

impl Rule for LooseComparison {
    open spec fn spec_id(&self) -> Seq<char> {
        "PHP160"@
    }

    open spec fn spec_severity(&self) -> Severity {
        Severity::Warning
    }

    open spec fn is_pure(&self) -> bool {
        true
    }

    open spec fn accepts(&self, source: Seq<char>, disabled: Seq<Seq<char>>) -> bool {
        true
    }

    fn id(&self) -> (r: &'static str) {
        "PHP160"
    }

    fn severity(&self) -> (s: Severity) {
        Severity::Warning
    }

    fn admits(&self, source: &str, config: &LintConfig) -> (b: bool) {
        true
    }

    open spec fn findings(&self, file: Option<Seq<char>>, source: Seq<char>, disabled: Seq<Seq<char>>) -> Seq<ErrorView> {
        if enabled(disabled, "PHP160"@) {
            col_errors(lines(source).map_values(|l: Seq<char>| php160_col(l)), tmpl(file, Severity::Warning, "PHP160"@, "Loose comparison detected"@, "Use === instead of =="@))
        } else {
            seq![]
        }
    }

    fn check(&self, file: Option<&str>, source: &str, report: &mut LintReport, config: &LintConfig) {
        if !config.is_enabled(self.id()) {
            return;
        }
        let ls = lines_of_str(source);
        proof {
            lemma_lines_bounds(source@);
        }
        let mut cols: Vec<Option<usize>> = Vec::new();
        let mut i: usize = 0;
        while i < ls.len()
            invariant
                i <= ls@.len(),
                cols@.len() == i,
                fits(source@),
                views(ls@) == lines(source@),
                forall|j: int| 0 <= j < i ==> cols@[j] == php160_col(lines(source@)[j]),
            decreases ls@.len() - i,
        {
            assert(views(ls@)[i as int] == ls@[i as int]@);
            proof {
                lemma_line_fits(source@, i as int);
            }
            cols.push(php160_test(ls[i].as_slice()));
            i += 1;
        }
        assert(cols@ =~= lines(source@).map_values(|l: Seq<char>| php160_col(l)));
        report_cols(report, file, &cols, Severity::Warning, "PHP160", "Loose comparison detected", "Use === instead of ==");
    }
}



/// PHP100: Use of eval is forbidden.
#[derive(Clone, Copy, Debug)]
pub struct EvalUsage;

/// The column of the PHP100 finding on line `l`, if any.
pub open spec fn php100_col(l: Seq<char>) -> Option<usize> {
    if contains(l, "eval("@) {
        Some(find_col(l, "eval("@) as usize)
    } else {
        None
    }
}

fn php100_test(l: &[char]) -> (c: Option<usize>)
    requires
        fits(l@),
    ensures
        c == php100_col(l@),
{
    if contains_lit(l, "eval(") {
        Some(find_col_exec(l, "eval("))
    } else {
        None
    }
}

impl Rule for EvalUsage {
    open spec fn spec_id(&self) -> Seq<char> {
        "PHP100"@
    }

    open spec fn spec_severity(&self) -> Severity {
        Severity::Error
    }

    open spec fn is_pure(&self) -> bool {
        true
    }

    open spec fn accepts(&self, source: Seq<char>, disabled: Seq<Seq<char>>) -> bool {
        true
    }

    fn id(&self) -> (r: &'static str) {
        "PHP100"
    }

    fn severity(&self) -> (s: Severity) {
        Severity::Error
    }

    fn admits(&self, source: &str, config: &LintConfig) -> (b: bool) {
        true
    }

    open spec fn findings(&self, file: Option<Seq<char>>, source: Seq<char>, disabled: Seq<Seq<char>>) -> Seq<ErrorView> {
        if enabled(disabled, "PHP100"@) {
            col_errors(lines(source).map_values(|l: Seq<char>| php100_col(l)), tmpl(file, Severity::Error, "PHP100"@, "Use of eval is forbidden"@, "Remove eval usage"@))
        } else {
            seq![]
        }
    }

    fn check(&self, file: Option<&str>, source: &str, report: &mut LintReport, config: &LintConfig) {
        if !config.is_enabled(self.id()) {
            return;
        }
        let ls = lines_of_str(source);
        proof {
            lemma_lines_bounds(source@);
        }
        let mut cols: Vec<Option<usize>> = Vec::new();
        let mut i: usize = 0;
        while i < ls.len()
            invariant
                i <= ls@.len(),
                cols@.len() == i,
                fits(source@),
                views(ls@) == lines(source@),
                forall|j: int| 0 <= j < i ==> cols@[j] == php100_col(lines(source@)[j]),
            decreases ls@.len() - i,
        {
            assert(views(ls@)[i as int] == ls@[i as int]@);
            proof {
                lemma_line_fits(source@, i as int);
            }
            cols.push(php100_test(ls[i].as_slice()));
            i += 1;
        }
        assert(cols@ =~= lines(source@).map_values(|l: Seq<char>| php100_col(l)));
        report_cols(report, file, &cols, Severity::Error, "PHP100", "Use of eval is forbidden", "Remove eval usage");
    }
}



/// PHP101: Forbidden shell execution: ....
#[derive(Clone, Copy, Debug)]
pub struct ExecUsage;

impl Rule for ExecUsage {
    open spec fn spec_id(&self) -> Seq<char> {
        "PHP101"@
    }

    open spec fn spec_severity(&self) -> Severity {
        Severity::Error
    }

    open spec fn is_pure(&self) -> bool {
        true
    }

    open spec fn accepts(&self, source: Seq<char>, disabled: Seq<Seq<char>>) -> bool {
        true
    }

    fn id(&self) -> (r: &'static str) {
        "PHP101"
    }

    fn severity(&self) -> (s: Severity) {
        Severity::Error
    }

    fn admits(&self, source: &str, config: &LintConfig) -> (b: bool) {
        true
    }

    open spec fn findings(&self, file: Option<Seq<char>>, source: Seq<char>, disabled: Seq<Seq<char>>) -> Seq<ErrorView> {
        if enabled(disabled, "PHP101"@) {
            word_errors(lines(source), seq!["exec("@, "shell_exec("@, "system("@], false, tmpl(file, Severity::Error, "PHP101"@, Seq::empty(), "Use safer abstraction"@), "Forbidden shell execution: "@, ""@)
        } else {
            seq![]
        }
    }

    fn check(&self, file: Option<&str>, source: &str, report: &mut LintReport, config: &LintConfig) {
        if !config.is_enabled(self.id()) {
            return;
        }
        let ls = lines_of_str(source);
        let words: [&str; 3] = ["exec(", "shell_exec(", "system("];
        report_words(report, file, &ls, &words, false, Severity::Error, "PHP101", "Forbidden shell execution: ", "", "Use safer abstraction", Ghost(source@));
        assert(words@.map_values(|w: &str| w@) =~= seq!["exec("@, "shell_exec("@, "system("@]);
    }
}



/// PHP121: Possibly unused import.
#[derive(Clone, Copy, Debug)]
pub struct UnusedImport;

/// Whether line `l` of source `src` is reported by PHP121.
pub open spec fn php121_hit(l: Seq<char>, src: Seq<char>) -> bool {
    starts_with(trim_start(l), "use "@) && !(count_matches(src, trim(l)) > 1)
}

fn php121_test(l: &[char], src: &[char]) -> (b: bool)
    requires
        fits(src@),
    ensures
        b == php121_hit(l@, src@),
{
    starts_with_lit(trimmed_start(l).as_slice(), "use ") && !(count_matches_exec(src, trimmed(l).as_slice()) > 1)
}

impl Rule for UnusedImport {
    open spec fn spec_id(&self) -> Seq<char> {
        "PHP121"@
    }

    open spec fn spec_severity(&self) -> Severity {
        Severity::Warning
    }

    open spec fn is_pure(&self) -> bool {
        true
    }

    open spec fn accepts(&self, source: Seq<char>, disabled: Seq<Seq<char>>) -> bool {
        true
    }

    fn id(&self) -> (r: &'static str) {
        "PHP121"
    }

    fn severity(&self) -> (s: Severity) {
        Severity::Warning
    }

    fn admits(&self, source: &str, config: &LintConfig) -> (b: bool) {
        true
    }

    open spec fn findings(&self, file: Option<Seq<char>>, source: Seq<char>, disabled: Seq<Seq<char>>) -> Seq<ErrorView> {
        if enabled(disabled, "PHP121"@) {
            col_errors(hit_cols(lines(source).map_values(|l: Seq<char>| php121_hit(l, source))), tmpl(file, Severity::Warning, "PHP121"@, "Possibly unused import"@, "Remove unused use statement"@))
        } else {
            seq![]
        }
    }

    fn check(&self, file: Option<&str>, source: &str, report: &mut LintReport, config: &LintConfig) {
        if !config.is_enabled(self.id()) {
            return;
        }
        let src = chars_of(source);
        let ls = lines_of_str(source);
        proof {
            lemma_lines_bounds(source@);
        }
        let mut hits: Vec<bool> = Vec::new();
        let mut i: usize = 0;
        while i < ls.len()
            invariant
                i <= ls@.len(),
                hits@.len() == i,
                src@ == source@,
                fits(source@),
                views(ls@) == lines(source@),
                forall|j: int| 0 <= j < i ==> hits@[j] == php121_hit(lines(source@)[j], source@),
            decreases ls@.len() - i,
        {
            assert(views(ls@)[i as int] == ls@[i as int]@);
            hits.push(php121_test(ls[i].as_slice(), src.as_slice()));
            i += 1;
        }
        assert(hits@ =~= lines(source@).map_values(|l: Seq<char>| php121_hit(l, source@)));
        report_hits(report, file, &hits, Severity::Warning, "PHP121", "Possibly unused import", "Remove unused use statement");
    }
}



/// PHP181: Long array syntax used.
#[derive(Clone, Copy, Debug)]
pub struct ArrayLongSyntax;

/// The column of the PHP181 finding on line `l`, if any.
pub open spec fn php181_col(l: Seq<char>) -> Option<usize> {
    if contains(l, "array("@) {
        Some(find_col(l, "array("@) as usize)
    } else {
        None
    }
}

fn php181_test(l: &[char]) -> (c: Option<usize>)
    requires
        fits(l@),
    ensures
        c == php181_col(l@),
{
    if contains_lit(l, "array(") {
        Some(find_col_exec(l, "array("))
    } else {
        None
    }
}

impl Rule for ArrayLongSyntax {
    open spec fn spec_id(&self) -> Seq<char> {
        "PHP181"@
    }

    open spec fn spec_severity(&self) -> Severity {
        Severity::Info
    }

    open spec fn is_pure(&self) -> bool {
        true
    }

    open spec fn accepts(&self, source: Seq<char>, disabled: Seq<Seq<char>>) -> bool {
        true
    }

    fn id(&self) -> (r: &'static str) {
        "PHP181"
    }

    fn severity(&self) -> (s: Severity) {
        Severity::Info
    }

    fn admits(&self, source: &str, config: &LintConfig) -> (b: bool) {
        true
    }

    open spec fn findings(&self, file: Option<Seq<char>>, source: Seq<char>, disabled: Seq<Seq<char>>) -> Seq<ErrorView> {
        if enabled(disabled, "PHP181"@) {
            col_errors(lines(source).map_values(|l: Seq<char>| php181_col(l)), tmpl(file, Severity::Info, "PHP181"@, "Long array syntax used"@, "Use [] instead of array()"@))
        } else {
            seq![]
        }
    }

    fn check(&self, file: Option<&str>, source: &str, report: &mut LintReport, config: &LintConfig) {
        if !config.is_enabled(self.id()) {
            return;
        }
        let ls = lines_of_str(source);
        proof {
            lemma_lines_bounds(source@);
        }
        let mut cols: Vec<Option<usize>> = Vec::new();
        let mut i: usize = 0;
        while i < ls.len()
            invariant
                i <= ls@.len(),
                cols@.len() == i,
                fits(source@),
                views(ls@) == lines(source@),
                forall|j: int| 0 <= j < i ==> cols@[j] == php181_col(lines(source@)[j]),
            decreases ls@.len() - i,
        {
            assert(views(ls@)[i as int] == ls@[i as int]@);
            proof {
                lemma_line_fits(source@, i as int);
            }
            cols.push(php181_test(ls[i].as_slice()));
            i += 1;
        }
        assert(cols@ =~= lines(source@).map_values(|l: Seq<char>| php181_col(l)));
        report_cols(report, file, &cols, Severity::Info, "PHP181", "Long array syntax used", "Use [] instead of array()");
    }
}



/// PHP163: Multiple classes in a single file.
#[derive(Clone, Copy, Debug)]
pub struct MultipleClassesPerFile;

/// Whether PHP163 reports a source.
pub open spec fn php163_hit(file: Option<Seq<char>>, src: Seq<char>) -> bool {
    count_matches(src, "class "@) > 1
}

fn php163_test(file: Option<&str>, src: &[char]) -> (b: bool)
    requires
        fits(src@),
    ensures
        b == php163_hit(opt_str_view(file), src@),
{
    count_lit(src, "class ") > 1
}

impl Rule for MultipleClassesPerFile {
    open spec fn spec_id(&self) -> Seq<char> {
        "PHP163"@
    }

    open spec fn spec_severity(&self) -> Severity {
        Severity::Warning
    }

    open spec fn is_pure(&self) -> bool {
        true
    }

    open spec fn accepts(&self, source: Seq<char>, disabled: Seq<Seq<char>>) -> bool {
        true
    }

    fn id(&self) -> (r: &'static str) {
        "PHP163"
    }

    fn severity(&self) -> (s: Severity) {
        Severity::Warning
    }

    fn admits(&self, source: &str, config: &LintConfig) -> (b: bool) {
        true
    }

    open spec fn findings(&self, file: Option<Seq<char>>, source: Seq<char>, disabled: Seq<Seq<char>>) -> Seq<ErrorView> {
        if enabled(disabled, "PHP163"@) {
            once(php163_hit(file, source), tmpl(file, Severity::Warning, "PHP163"@, "Multiple classes in a single file"@, "Split classes into separate files"@))
        } else {
            seq![]
        }
    }

    fn check(&self, file: Option<&str>, source: &str, report: &mut LintReport, config: &LintConfig) {
        if !config.is_enabled(self.id()) {
            return;
        }
        let src = chars_of(source);
        let hit = php163_test(file, src.as_slice());
        report_once(report, file, hit, Severity::Warning, "PHP163", "Multiple classes in a single file", "Split classes into separate files");
    }
}



/// PHP102: Direct access to ....
#[derive(Clone, Copy, Debug)]
pub struct DirectSuperglobalAccess;

impl Rule for DirectSuperglobalAccess {
    open spec fn spec_id(&self) -> Seq<char> {
        "PHP102"@
    }

    open spec fn spec_severity(&self) -> Severity {
        Severity::Warning
    }

    open spec fn is_pure(&self) -> bool {
        true
    }

    open spec fn accepts(&self, source: Seq<char>, disabled: Seq<Seq<char>>) -> bool {
        true
    }

    fn id(&self) -> (r: &'static str) {
        "PHP102"
    }

    fn severity(&self) -> (s: Severity) {
        Severity::Warning
    }

    fn admits(&self, source: &str, config: &LintConfig) -> (b: bool) {
        true
    }

    open spec fn findings(&self, file: Option<Seq<char>>, source: Seq<char>, disabled: Seq<Seq<char>>) -> Seq<ErrorView> {
        if enabled(disabled, "PHP102"@) {
            word_errors(lines(source), seq!["$_GET"@, "$_POST"@, "$_REQUEST"@, "$_COOKIE"@], false, tmpl(file, Severity::Warning, "PHP102"@, Seq::empty(), "Use input abstraction layer"@), "Direct access to "@, ""@)
        } else {
            seq![]
        }
    }

    fn check(&self, file: Option<&str>, source: &str, report: &mut LintReport, config: &LintConfig) {
        if !config.is_enabled(self.id()) {
            return;
        }
        let ls = lines_of_str(source);
        let words: [&str; 4] = ["$_GET", "$_POST", "$_REQUEST", "$_COOKIE"];
        report_words(report, file, &ls, &words, false, Severity::Warning, "PHP102", "Direct access to ", "", "Use input abstraction layer", Ghost(source@));
        assert(words@.map_values(|w: &str| w@) =~= seq!["$_GET"@, "$_POST"@, "$_REQUEST"@, "$_COOKIE"@]);
    }
}



/// The rules of the PHP rule set, in order.
pub open spec fn rule_set() -> Seq<LintRule> {
    seq![LintRule::PHP001(TrailingWhitespace), LintRule::PHP042(StrictTypesDeclaration), LintRule::PHP160(LooseComparison), LintRule::PHP100(EvalUsage), LintRule::PHP101(ExecUsage), LintRule::PHP162(GlobalUsage), LintRule::PHP121(UnusedImport), LintRule::PHP200(MissingNamespace), LintRule::PHP181(ArrayLongSyntax), LintRule::PHP260(UnreachableCode), LintRule::PHP061(AssignmentInCondition), LintRule::PHP062(EmptyCatchBlock), LintRule::PHP163(MultipleClassesPerFile), LintRule::PHP161(MagicNumber), LintRule::PHP102(DirectSuperglobalAccess)]
}

/// The PHP rule set.
pub fn linter() -> (l: Linter)
    ensures
        l@ == rule_set(),
{
    let l = Linter::new();
    assert(l@ == Seq::<LintRule>::empty());
    proof {
        lemma_fresh(l@, LintRule::PHP001(TrailingWhitespace));
    }
    let l = l.add_rule(LintRule::PHP001(TrailingWhitespace));
    proof {
        reveal_strlit("PHP001");
        reveal_strlit("PHP042");
        assert("PHP001"@[4] != "PHP042"@[4]);
        lemma_fresh(l@, LintRule::PHP042(StrictTypesDeclaration));
    }
    let l = l.add_rule(LintRule::PHP042(StrictTypesDeclaration));
    proof {
        reveal_strlit("PHP001");
        reveal_strlit("PHP042");
        reveal_strlit("PHP160");
        assert("PHP001"@[3] != "PHP160"@[3]);
        assert("PHP042"@[3] != "PHP160"@[3]);
        lemma_fresh(l@, LintRule::PHP160(LooseComparison));
    }
    let l = l.add_rule(LintRule::PHP160(LooseComparison));
    proof {
        reveal_strlit("PHP001");
        reveal_strlit("PHP042");
        reveal_strlit("PHP160");
        reveal_strlit("PHP100");
        assert("PHP001"@[3] != "PHP100"@[3]);
        assert("PHP042"@[3] != "PHP100"@[3]);
        assert("PHP160"@[4] != "PHP100"@[4]);
        lemma_fresh(l@, LintRule::PHP100(EvalUsage));
    }
    let l = l.add_rule(LintRule::PHP100(EvalUsage));
    proof {
        reveal_strlit("PHP001");
        reveal_strlit("PHP042");
        reveal_strlit("PHP160");
        reveal_strlit("PHP100");
        reveal_strlit("PHP101");
        assert("PHP001"@[3] != "PHP101"@[3]);
        assert("PHP042"@[3] != "PHP101"@[3]);
        assert("PHP160"@[4] != "PHP101"@[4]);
        assert("PHP100"@[5] != "PHP101"@[5]);
        lemma_fresh(l@, LintRule::PHP101(ExecUsage));
    }
    let l = l.add_rule(LintRule::PHP101(ExecUsage));
    proof {
        reveal_strlit("PHP001");
        reveal_strlit("PHP042");
        reveal_strlit("PHP160");
        reveal_strlit("PHP100");
        reveal_strlit("PHP101");
        reveal_strlit("PHP162");
        assert("PHP001"@[3] != "PHP162"@[3]);
        assert("PHP042"@[3] != "PHP162"@[3]);
        assert("PHP160"@[5] != "PHP162"@[5]);
        assert("PHP100"@[4] != "PHP162"@[4]);
        assert("PHP101"@[4] != "PHP162"@[4]);
        lemma_fresh(l@, LintRule::PHP162(GlobalUsage));
    }
    let l = l.add_rule(LintRule::PHP162(GlobalUsage));
    proof {
        reveal_strlit("PHP001");
        reveal_strlit("PHP042");
        reveal_strlit("PHP160");
        reveal_strlit("PHP100");
        reveal_strlit("PHP101");
        reveal_strlit("PHP162");
        reveal_strlit("PHP121");
        assert("PHP001"@[3] != "PHP121"@[3]);
        assert("PHP042"@[3] != "PHP121"@[3]);
        assert("PHP160"@[4] != "PHP121"@[4]);
        assert("PHP100"@[4] != "PHP121"@[4]);
        assert("PHP101"@[4] != "PHP121"@[4]);
        assert("PHP162"@[4] != "PHP121"@[4]);
        lemma_fresh(l@, LintRule::PHP121(UnusedImport));
    }
    let l = l.add_rule(LintRule::PHP121(UnusedImport));
    proof {
        reveal_strlit("PHP001");
        reveal_strlit("PHP042");
        reveal_strlit("PHP160");
        reveal_strlit("PHP100");
        reveal_strlit("PHP101");
        reveal_strlit("PHP162");
        reveal_strlit("PHP121");
        reveal_strlit("PHP200");
        assert("PHP001"@[3] != "PHP200"@[3]);
        assert("PHP042"@[3] != "PHP200"@[3]);
        assert("PHP160"@[3] != "PHP200"@[3]);
        assert("PHP100"@[3] != "PHP200"@[3]);
        assert("PHP101"@[3] != "PHP200"@[3]);
        assert("PHP162"@[3] != "PHP200"@[3]);
        assert("PHP121"@[3] != "PHP200"@[3]);
        lemma_fresh(l@, LintRule::PHP200(MissingNamespace));
    }
    let l = l.add_rule(LintRule::PHP200(MissingNamespace));
    proof {
        reveal_strlit("PHP001");
        reveal_strlit("PHP042");
        reveal_strlit("PHP160");
        reveal_strlit("PHP100");
        reveal_strlit("PHP101");
        reveal_strlit("PHP162");
        reveal_strlit("PHP121");
        reveal_strlit("PHP200");
        reveal_strlit("PHP181");
        assert("PHP001"@[3] != "PHP181"@[3]);
        assert("PHP042"@[3] != "PHP181"@[3]);
        assert("PHP160"@[4] != "PHP181"@[4]);
        assert("PHP100"@[4] != "PHP181"@[4]);
        assert("PHP101"@[4] != "PHP181"@[4]);
        assert("PHP162"@[4] != "PHP181"@[4]);
        assert("PHP121"@[4] != "PHP181"@[4]);
        assert("PHP200"@[3] != "PHP181"@[3]);
        lemma_fresh(l@, LintRule::PHP181(ArrayLongSyntax));
    }
    let l = l.add_rule(LintRule::PHP181(ArrayLongSyntax));
    proof {
        reveal_strlit("PHP001");
        reveal_strlit("PHP042");
        reveal_strlit("PHP160");
        reveal_strlit("PHP100");
        reveal_strlit("PHP101");
        reveal_strlit("PHP162");
        reveal_strlit("PHP121");
        reveal_strlit("PHP200");
        reveal_strlit("PHP181");
        reveal_strlit("PHP260");
        assert("PHP001"@[3] != "PHP260"@[3]);
        assert("PHP042"@[3] != "PHP260"@[3]);
        assert("PHP160"@[3] != "PHP260"@[3]);
        assert("PHP100"@[3] != "PHP260"@[3]);
        assert("PHP101"@[3] != "PHP260"@[3]);
        assert("PHP162"@[3] != "PHP260"@[3]);
        assert("PHP121"@[3] != "PHP260"@[3]);
        assert("PHP200"@[4] != "PHP260"@[4]);
        assert("PHP181"@[3] != "PHP260"@[3]);
        lemma_fresh(l@, LintRule::PHP260(UnreachableCode));
    }
    let l = l.add_rule(LintRule::PHP260(UnreachableCode));
    proof {
        reveal_strlit("PHP001");
        reveal_strlit("PHP042");
        reveal_strlit("PHP160");
        reveal_strlit("PHP100");
        reveal_strlit("PHP101");
        reveal_strlit("PHP162");
        reveal_strlit("PHP121");
        reveal_strlit("PHP200");
        reveal_strlit("PHP181");
        reveal_strlit("PHP260");
        reveal_strlit("PHP061");
        assert("PHP001"@[4] != "PHP061"@[4]);
        assert("PHP042"@[4] != "PHP061"@[4]);
        assert("PHP160"@[3] != "PHP061"@[3]);
        assert("PHP100"@[3] != "PHP061"@[3]);
        assert("PHP101"@[3] != "PHP061"@[3]);
        assert("PHP162"@[3] != "PHP061"@[3]);
        assert("PHP121"@[3] != "PHP061"@[3]);
        assert("PHP200"@[3] != "PHP061"@[3]);
        assert("PHP181"@[3] != "PHP061"@[3]);
        assert("PHP260"@[3] != "PHP061"@[3]);
        lemma_fresh(l@, LintRule::PHP061(AssignmentInCondition));
    }
    let l = l.add_rule(LintRule::PHP061(AssignmentInCondition));
    proof {
        reveal_strlit("PHP001");
        reveal_strlit("PHP042");
        reveal_strlit("PHP160");
        reveal_strlit("PHP100");
        reveal_strlit("PHP101");
        reveal_strlit("PHP162");
        reveal_strlit("PHP121");
        reveal_strlit("PHP200");
        reveal_strlit("PHP181");
        reveal_strlit("PHP260");
        reveal_strlit("PHP061");
        reveal_strlit("PHP062");
        assert("PHP001"@[4] != "PHP062"@[4]);
        assert("PHP042"@[4] != "PHP062"@[4]);
        assert("PHP160"@[3] != "PHP062"@[3]);
        assert("PHP100"@[3] != "PHP062"@[3]);
        assert("PHP101"@[3] != "PHP062"@[3]);
        assert("PHP162"@[3] != "PHP062"@[3]);
        assert("PHP121"@[3] != "PHP062"@[3]);
        assert("PHP200"@[3] != "PHP062"@[3]);
        assert("PHP181"@[3] != "PHP062"@[3]);
        assert("PHP260"@[3] != "PHP062"@[3]);
        assert("PHP061"@[5] != "PHP062"@[5]);
        lemma_fresh(l@, LintRule::PHP062(EmptyCatchBlock));
    }
    let l = l.add_rule(LintRule::PHP062(EmptyCatchBlock));
    proof {
        reveal_strlit("PHP001");
        reveal_strlit("PHP042");
        reveal_strlit("PHP160");
        reveal_strlit("PHP100");
        reveal_strlit("PHP101");
        reveal_strlit("PHP162");
        reveal_strlit("PHP121");
        reveal_strlit("PHP200");
        reveal_strlit("PHP181");
        reveal_strlit("PHP260");
        reveal_strlit("PHP061");
        reveal_strlit("PHP062");
        reveal_strlit("PHP163");
        assert("PHP001"@[3] != "PHP163"@[3]);
        assert("PHP042"@[3] != "PHP163"@[3]);
        assert("PHP160"@[5] != "PHP163"@[5]);
        assert("PHP100"@[4] != "PHP163"@[4]);
        assert("PHP101"@[4] != "PHP163"@[4]);
        assert("PHP162"@[5] != "PHP163"@[5]);
        assert("PHP121"@[4] != "PHP163"@[4]);
        assert("PHP200"@[3] != "PHP163"@[3]);
        assert("PHP181"@[4] != "PHP163"@[4]);
        assert("PHP260"@[3] != "PHP163"@[3]);
        assert("PHP061"@[3] != "PHP163"@[3]);
        assert("PHP062"@[3] != "PHP163"@[3]);
        lemma_fresh(l@, LintRule::PHP163(MultipleClassesPerFile));
    }
    let l = l.add_rule(LintRule::PHP163(MultipleClassesPerFile));
    proof {
        reveal_strlit("PHP001");
        reveal_strlit("PHP042");
        reveal_strlit("PHP160");
        reveal_strlit("PHP100");
        reveal_strlit("PHP101");
        reveal_strlit("PHP162");
        reveal_strlit("PHP121");
        reveal_strlit("PHP200");
        reveal_strlit("PHP181");
        reveal_strlit("PHP260");
        reveal_strlit("PHP061");
        reveal_strlit("PHP062");
        reveal_strlit("PHP163");
        reveal_strlit("PHP161");
        assert("PHP001"@[3] != "PHP161"@[3]);
        assert("PHP042"@[3] != "PHP161"@[3]);
        assert("PHP160"@[5] != "PHP161"@[5]);
        assert("PHP100"@[4] != "PHP161"@[4]);
        assert("PHP101"@[4] != "PHP161"@[4]);
        assert("PHP162"@[5] != "PHP161"@[5]);
        assert("PHP121"@[4] != "PHP161"@[4]);
        assert("PHP200"@[3] != "PHP161"@[3]);
        assert("PHP181"@[4] != "PHP161"@[4]);
        assert("PHP260"@[3] != "PHP161"@[3]);
        assert("PHP061"@[3] != "PHP161"@[3]);
        assert("PHP062"@[3] != "PHP161"@[3]);
        assert("PHP163"@[5] != "PHP161"@[5]);
        lemma_fresh(l@, LintRule::PHP161(MagicNumber));
    }
    let l = l.add_rule(LintRule::PHP161(MagicNumber));
    proof {
        reveal_strlit("PHP001");
        reveal_strlit("PHP042");
        reveal_strlit("PHP160");
        reveal_strlit("PHP100");
        reveal_strlit("PHP101");
        reveal_strlit("PHP162");
        reveal_strlit("PHP121");
        reveal_strlit("PHP200");
        reveal_strlit("PHP181");
        reveal_strlit("PHP260");
        reveal_strlit("PHP061");
        reveal_strlit("PHP062");
        reveal_strlit("PHP163");
        reveal_strlit("PHP161");
        reveal_strlit("PHP102");
        assert("PHP001"@[3] != "PHP102"@[3]);
        assert("PHP042"@[3] != "PHP102"@[3]);
        assert("PHP160"@[4] != "PHP102"@[4]);
        assert("PHP100"@[5] != "PHP102"@[5]);
        assert("PHP101"@[5] != "PHP102"@[5]);
        assert("PHP162"@[4] != "PHP102"@[4]);
        assert("PHP121"@[4] != "PHP102"@[4]);
        assert("PHP200"@[3] != "PHP102"@[3]);
        assert("PHP181"@[4] != "PHP102"@[4]);
        assert("PHP260"@[3] != "PHP102"@[3]);
        assert("PHP061"@[3] != "PHP102"@[3]);
        assert("PHP062"@[3] != "PHP102"@[3]);
        assert("PHP163"@[4] != "PHP102"@[4]);
        assert("PHP161"@[4] != "PHP102"@[4]);
        lemma_fresh(l@, LintRule::PHP102(DirectSuperglobalAccess));
    }
    let l = l.add_rule(LintRule::PHP102(DirectSuperglobalAccess));
    l
}

} // verus!
