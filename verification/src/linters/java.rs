//! Java
use vstd::prelude::*;
use crate::lint::config::{LintConfig, enabled};
use crate::lint::error::{ErrorView, Severity, opt_str_view};
use crate::lint::linter::{Linter, lemma_fresh};
use crate::lint::registry::LintRule;
use crate::lint::report::LintReport;
use crate::lint::rule::Rule;
use crate::lint::edit::{Fix, single_fix};
use crate::lint::support::{lemma_line_fits, sum_pieces, line_offset, Tmpl, at, col_errors, hit_cols, once, tmpl, finding, make_error, report_hits, report_once, report_cols, lemma_lines_bounds, lemma_lines_total, total_chars, lemma_total_chars_take};
use crate::linters::common::{count_matches, count_matches_exec, count_lit, find_col, find_col_exec, word_errors, report_words, comma_needs_space, comma_needs_space_exec, brace_needs_space, brace_needs_space_exec, brace_prev_ascii, brace_prev_ascii_exec, match_errors, report_matches, all_true, trues, trailing_ws_errors, acc_offsets, piece_offsets, report_trailing_ws, acc_offsets_exec, piece_offsets_exec, unreachable_errors, report_unreachable};
use crate::text::{lines, views, contains, starts_with, ends_with, trim, trim_start, trim_end, upper, lower, chars_of, lines_of_str, contains_lit, starts_with_lit, ends_with_lit, eq_lit, trimmed, trimmed_start, trimmed_end, upper_of, lower_of, owned, string_of, slice_of, find, find_char, find_lit, find_chars, lemma_find, matches_at, is_ws, is_whitespace, utf8_len, byte_len, prefix_bytes, any_upper, has_upper, lemma_utf8_len_take, lemma_utf8_len_subrange, split_char, fits, match_indices, match_positions_lit, char_width, split_on, contains_char, numeric_char, is_numeric};

verus! {

/// JAVA001: Trailing whitespace.
#[derive(Clone, Copy, Debug)]
pub struct TrailingWhitespace;

impl Rule for TrailingWhitespace {
    open spec fn spec_id(&self) -> Seq<char> {
        "JAVA001"@
    }

    open spec fn spec_severity(&self) -> Severity {
        Severity::Info
    }

    open spec fn is_pure(&self) -> bool {
        true
    }

    open spec fn accepts(&self, source: Seq<char>, disabled: Seq<Seq<char>>) -> bool {
        true
    }

    fn id(&self) -> (r: &'static str) {
        "JAVA001"
    }

    fn severity(&self) -> (s: Severity) {
        Severity::Info
    }

    fn admits(&self, source: &str, config: &LintConfig) -> (b: bool) {
        true
    }

    open spec fn findings(&self, file: Option<Seq<char>>, source: Seq<char>, disabled: Seq<Seq<char>>) -> Seq<ErrorView> {
        if enabled(disabled, "JAVA001"@) {
            trailing_ws_errors(lines(source), acc_offsets(lines(source)), tmpl(file, Severity::Info, "JAVA001"@, "Trailing whitespace"@, "Remove trailing whitespace"@))
        } else {
            seq![]
        }
    }

    fn check(&self, file: Option<&str>, source: &str, report: &mut LintReport, config: &LintConfig) {
        if !config.is_enabled(self.id()) {
            return;
        }
        let ls = lines_of_str(source);
        proof {
            lemma_lines_bounds(source@);
        }
        let offs = acc_offsets_exec(&ls, Ghost(source@));
        report_trailing_ws(report, file, &ls, &offs, Severity::Info, "JAVA001", "Trailing whitespace", "Remove trailing whitespace");
    }
}

/// JAVA010: Missing package declaration.
#[derive(Clone, Copy, Debug)]
pub struct MissingPackageDeclaration;

/// Whether JAVA010 reports a source.
pub open spec fn java010_hit(file: Option<Seq<char>>, src: Seq<char>) -> bool {
    contains(src, "class "@) && !starts_with(trim_start(src), "package "@)
}

fn java010_test(file: Option<&str>, src: &[char]) -> (b: bool)
    requires
        fits(src@),
    ensures
        b == java010_hit(opt_str_view(file), src@),
{
    contains_lit(src, "class ") && !starts_with_lit(trimmed_start(src).as_slice(), "package ")
}

impl Rule for MissingPackageDeclaration {
    open spec fn spec_id(&self) -> Seq<char> {
        "JAVA010"@
    }

    open spec fn spec_severity(&self) -> Severity {
        Severity::Warning
    }

    open spec fn is_pure(&self) -> bool {
        true
    }

    open spec fn accepts(&self, source: Seq<char>, disabled: Seq<Seq<char>>) -> bool {
        true
    }

    fn id(&self) -> (r: &'static str) {
        "JAVA010"
    }

    fn severity(&self) -> (s: Severity) {
        Severity::Warning
    }

    fn admits(&self, source: &str, config: &LintConfig) -> (b: bool) {
        true
    }

    open spec fn findings(&self, file: Option<Seq<char>>, source: Seq<char>, disabled: Seq<Seq<char>>) -> Seq<ErrorView> {
        if enabled(disabled, "JAVA010"@) {
            once(java010_hit(file, source), tmpl(file, Severity::Warning, "JAVA010"@, "Missing package declaration"@, "Add package declaration at top of file"@))
        } else {
            seq![]
        }
    }

    fn check(&self, file: Option<&str>, source: &str, report: &mut LintReport, config: &LintConfig) {
        if !config.is_enabled(self.id()) {
            return;
        }
        let src = chars_of(source);
        let hit = java010_test(file, src.as_slice());
        report_once(report, file, hit, Severity::Warning, "JAVA010", "Missing package declaration", "Add package declaration at top of file");
    }
}

/// JAVA020: System.out.println used.
#[derive(Clone, Copy, Debug)]
pub struct SystemOutUsage;

/// Whether a line is reported by JAVA020.
pub open spec fn java020_hit(l: Seq<char>) -> bool {
    contains(l, "System.out.println"@)
}

fn java020_test(l: &[char]) -> (b: bool)
    ensures
        b == java020_hit(l@),
{
    contains_lit(l, "System.out.println")
}

impl Rule for SystemOutUsage {
    open spec fn spec_id(&self) -> Seq<char> {
        "JAVA020"@
    }

    open spec fn spec_severity(&self) -> Severity {
        Severity::Warning
    }

    open spec fn is_pure(&self) -> bool {
        true
    }

    open spec fn accepts(&self, source: Seq<char>, disabled: Seq<Seq<char>>) -> bool {
        true
    }

    fn id(&self) -> (r: &'static str) {
        "JAVA020"
    }

    fn severity(&self) -> (s: Severity) {
        Severity::Warning
    }

    fn admits(&self, source: &str, config: &LintConfig) -> (b: bool) {
        true
    }

    open spec fn findings(&self, file: Option<Seq<char>>, source: Seq<char>, disabled: Seq<Seq<char>>) -> Seq<ErrorView> {
        if enabled(disabled, "JAVA020"@) {
            col_errors(hit_cols(lines(source).map_values(|l: Seq<char>| java020_hit(l))), tmpl(file, Severity::Warning, "JAVA020"@, "System.out.println used"@, "Use logging framework instead"@))
        } else {
            seq![]
        }
    }

    fn check(&self, file: Option<&str>, source: &str, report: &mut LintReport, config: &LintConfig) {
        if !config.is_enabled(self.id()) {
            return;
        }
        let ls = lines_of_str(source);
        proof {
            lemma_lines_bounds(source@);
        }
        let mut hits: Vec<bool> = Vec::new();
        let mut i: usize = 0;
        while i < ls.len()
            invariant
                i <= ls@.len(),
                hits@.len() == i,
                views(ls@) == lines(source@),
                forall|j: int| 0 <= j < i ==> hits@[j] == java020_hit(lines(source@)[j]),
            decreases ls@.len() - i,
        {
            assert(views(ls@)[i as int] == ls@[i as int]@);
            hits.push(java020_test(ls[i].as_slice()));
            i += 1;
        }
        assert(hits@ =~= lines(source@).map_values(|l: Seq<char>| java020_hit(l)));
        report_hits(report, file, &hits, Severity::Warning, "JAVA020", "System.out.println used", "Use logging framework instead");
    }
}

/// JAVA021: Empty catch block.
#[derive(Clone, Copy, Debug)]
pub struct EmptyCatchBlock;

/// Whether JAVA021 reports a source.
pub open spec fn java021_hit(file: Option<Seq<char>>, src: Seq<char>) -> bool {
    contains(src, "catch"@) && contains(src, "{}"@)
}

fn java021_test(file: Option<&str>, src: &[char]) -> (b: bool)
    requires
        fits(src@),
    ensures
        b == java021_hit(opt_str_view(file), src@),
{
    contains_lit(src, "catch") && contains_lit(src, "{}")
}

impl Rule for EmptyCatchBlock {
    open spec fn spec_id(&self) -> Seq<char> {
        "JAVA021"@
    }

    open spec fn spec_severity(&self) -> Severity {
        Severity::Warning
    }

    open spec fn is_pure(&self) -> bool {
        true
    }

    open spec fn accepts(&self, source: Seq<char>, disabled: Seq<Seq<char>>) -> bool {
        true
    }

    fn id(&self) -> (r: &'static str) {
        "JAVA021"
    }

    fn severity(&self) -> (s: Severity) {
        Severity::Warning
    }

    fn admits(&self, source: &str, config: &LintConfig) -> (b: bool) {
        true
    }

    open spec fn findings(&self, file: Option<Seq<char>>, source: Seq<char>, disabled: Seq<Seq<char>>) -> Seq<ErrorView> {
        if enabled(disabled, "JAVA021"@) {
            once(java021_hit(file, source), tmpl(file, Severity::Warning, "JAVA021"@, "Empty catch block"@, "Handle or log exception"@))
        } else {
            seq![]
        }
    }

    fn check(&self, file: Option<&str>, source: &str, report: &mut LintReport, config: &LintConfig) {
        if !config.is_enabled(self.id()) {
            return;
        }
        let src = chars_of(source);
        let hit = java021_test(file, src.as_slice());
        report_once(report, file, hit, Severity::Warning, "JAVA021", "Empty catch block", "Handle or log exception");
    }
}

/// JAVA030: equals() defined without hashCode().
#[derive(Clone, Copy, Debug)]
pub struct EqualsWithoutHashCode;

/// Whether JAVA030 reports a source.
pub open spec fn java030_hit(file: Option<Seq<char>>, src: Seq<char>) -> bool {
    contains(src, "boolean equals("@) && !contains(src, "int hashCode("@)
}

fn java030_test(file: Option<&str>, src: &[char]) -> (b: bool)
    requires
        fits(src@),
    ensures
        b == java030_hit(opt_str_view(file), src@),
{
    contains_lit(src, "boolean equals(") && !contains_lit(src, "int hashCode(")
}

impl Rule for EqualsWithoutHashCode {
    open spec fn spec_id(&self) -> Seq<char> {
        "JAVA030"@
    }

    open spec fn spec_severity(&self) -> Severity {
        Severity::Warning
    }

    open spec fn is_pure(&self) -> bool {
        true
    }

    open spec fn accepts(&self, source: Seq<char>, disabled: Seq<Seq<char>>) -> bool {
        true
    }

    fn id(&self) -> (r: &'static str) {
        "JAVA030"
    }

    fn severity(&self) -> (s: Severity) {
        Severity::Warning
    }

    fn admits(&self, source: &str, config: &LintConfig) -> (b: bool) {
        true
    }

    open spec fn findings(&self, file: Option<Seq<char>>, source: Seq<char>, disabled: Seq<Seq<char>>) -> Seq<ErrorView> {
        if enabled(disabled, "JAVA030"@) {
            once(java030_hit(file, source), tmpl(file, Severity::Warning, "JAVA030"@, "equals() defined without hashCode()"@, "Override hashCode() when overriding equals()"@))
        } else {
            seq![]
        }
    }

    fn check(&self, file: Option<&str>, source: &str, report: &mut LintReport, config: &LintConfig) {
        if !config.is_enabled(self.id()) {
            return;
        }
        let src = chars_of(source);
        let hit = java030_test(file, src.as_slice());
        report_once(report, file, hit, Severity::Warning, "JAVA030", "equals() defined without hashCode()", "Override hashCode() when overriding equals()");
    }
}

/// JAVA031: Raw generic type used.
#[derive(Clone, Copy, Debug)]
pub struct RawTypeUsage;

/// Whether JAVA031 reports a source.
pub open spec fn java031_hit(file: Option<Seq<char>>, src: Seq<char>) -> bool {
    contains(src, "List "@) && !contains(src, "List<"@)
}

fn java031_test(file: Option<&str>, src: &[char]) -> (b: bool)
    requires
        fits(src@),
    ensures
        b == java031_hit(opt_str_view(file), src@),
{
    contains_lit(src, "List ") && !contains_lit(src, "List<")
}

impl Rule for RawTypeUsage {
    open spec fn spec_id(&self) -> Seq<char> {
        "JAVA031"@
    }

    open spec fn spec_severity(&self) -> Severity {
        Severity::Warning
    }

    open spec fn is_pure(&self) -> bool {
        true
    }

    open spec fn accepts(&self, source: Seq<char>, disabled: Seq<Seq<char>>) -> bool {
        true
    }

    fn id(&self) -> (r: &'static str) {
        "JAVA031"
    }

    fn severity(&self) -> (s: Severity) {
        Severity::Warning
    }

    fn admits(&self, source: &str, config: &LintConfig) -> (b: bool) {
        true
    }

    open spec fn findings(&self, file: Option<Seq<char>>, source: Seq<char>, disabled: Seq<Seq<char>>) -> Seq<ErrorView> {
        if enabled(disabled, "JAVA031"@) {
            once(java031_hit(file, source), tmpl(file, Severity::Warning, "JAVA031"@, "Raw generic type used"@, "Specify generic type parameters"@))
        } else {
            seq![]
        }
    }

    fn check(&self, file: Option<&str>, source: &str, report: &mut LintReport, config: &LintConfig) {
        if !config.is_enabled(self.id()) {
            return;
        }
        let src = chars_of(source);
        let hit = java031_test(file, src.as_slice());
        report_once(report, file, hit, Severity::Warning, "JAVA031", "Raw generic type used", "Specify generic type parameters");
    }
}

/// JAVA040: Throwing generic Exception.
#[derive(Clone, Copy, Debug)]
pub struct ThrowingGenericException;

/// Whether JAVA040 reports a source.
pub open spec fn java040_hit(file: Option<Seq<char>>, src: Seq<char>) -> bool {
    contains(src, "throw new Exception("@)
}

fn java040_test(file: Option<&str>, src: &[char]) -> (b: bool)
    requires
        fits(src@),
    ensures
        b == java040_hit(opt_str_view(file), src@),
{
    contains_lit(src, "throw new Exception(")
}

impl Rule for ThrowingGenericException {
    open spec fn spec_id(&self) -> Seq<char> {
        "JAVA040"@
    }

    open spec fn spec_severity(&self) -> Severity {
        Severity::Warning
    }

    open spec fn is_pure(&self) -> bool {
        true
    }

    open spec fn accepts(&self, source: Seq<char>, disabled: Seq<Seq<char>>) -> bool {
        true
    }

    fn id(&self) -> (r: &'static str) {
        "JAVA040"
    }

    fn severity(&self) -> (s: Severity) {
        Severity::Warning
    }

    fn admits(&self, source: &str, config: &LintConfig) -> (b: bool) {
        true
    }

    open spec fn findings(&self, file: Option<Seq<char>>, source: Seq<char>, disabled: Seq<Seq<char>>) -> Seq<ErrorView> {
        if enabled(disabled, "JAVA040"@) {
            once(java040_hit(file, source), tmpl(file, Severity::Warning, "JAVA040"@, "Throwing generic Exception"@, "Use specific exception type"@))
        } else {
            seq![]
        }
    }

    fn check(&self, file: Option<&str>, source: &str, report: &mut LintReport, config: &LintConfig) {
        if !config.is_enabled(self.id()) {
            return;
        }
        let src = chars_of(source);
        let hit = java040_test(file, src.as_slice());
        report_once(report, file, hit, Severity::Warning, "JAVA040", "Throwing generic Exception", "Use specific exception type");
    }
}

/// JAVA050: Unreachable code detected.
#[derive(Clone, Copy, Debug)]
pub struct UnreachableCode;

/// Whether a line ends the reachable code for JAVA050.
pub open spec fn java050_term(l: Seq<char>) -> bool {
    starts_with(trim_start(l), "return"@) || starts_with(trim_start(l), "throw"@)
}

fn java050_term_test(l: &[char]) -> (b: bool)
    ensures
        b == java050_term(l@),
{
    starts_with_lit(trimmed_start(l).as_slice(), "return") || starts_with_lit(trimmed_start(l).as_slice(), "throw")
}

impl Rule for UnreachableCode {
    open spec fn spec_id(&self) -> Seq<char> {
        "JAVA050"@
    }

    open spec fn spec_severity(&self) -> Severity {
        Severity::Error
    }

    open spec fn is_pure(&self) -> bool {
        true
    }

    open spec fn accepts(&self, source: Seq<char>, disabled: Seq<Seq<char>>) -> bool {
        true
    }

    fn id(&self) -> (r: &'static str) {
        "JAVA050"
    }

    fn severity(&self) -> (s: Severity) {
        Severity::Error
    }

    fn admits(&self, source: &str, config: &LintConfig) -> (b: bool) {
        true
    }

    open spec fn findings(&self, file: Option<Seq<char>>, source: Seq<char>, disabled: Seq<Seq<char>>) -> Seq<ErrorView> {
        if enabled(disabled, "JAVA050"@) {
            unreachable_errors(lines(source), lines(source).map_values(|l: Seq<char>| java050_term(l)), tmpl(file, Severity::Error, "JAVA050"@, "Unreachable code detected"@, "Remove unreachable statements"@))
        } else {
            seq![]
        }
    }

    fn check(&self, file: Option<&str>, source: &str, report: &mut LintReport, config: &LintConfig) {
        if !config.is_enabled(self.id()) {
            return;
        }
        let ls = lines_of_str(source);
        proof {
            lemma_lines_bounds(source@);
        }
        let mut term: Vec<bool> = Vec::new();
        let mut i: usize = 0;
        while i < ls.len()
            invariant
                i <= ls@.len(),
                term@.len() == i,
                views(ls@) == lines(source@),
                forall|j: int| 0 <= j < i ==> term@[j] == java050_term(lines(source@)[j]),
            decreases ls@.len() - i,
        {
            assert(views(ls@)[i as int] == ls@[i as int]@);
            term.push(java050_term_test(ls[i].as_slice()));
            i += 1;
        }
        assert(term@ =~= lines(source@).map_values(|l: Seq<char>| java050_term(l)));
        report_unreachable(report, file, &ls, &term, Severity::Error, "JAVA050", "Unreachable code detected", "Remove unreachable statements");
    }
}

/// JAVA060: Mutable public field.
#[derive(Clone, Copy, Debug)]
pub struct MutablePublicField;

/// Whether a line is reported by JAVA060.
pub open spec fn java060_hit(l: Seq<char>) -> bool {
    starts_with(trim_start(l), "public "@) && contains(l, ";"@) && !contains(l, "final"@) && !contains(l, "class"@) && !contains(l, "("@)
}

fn java060_test(l: &[char]) -> (b: bool)
    ensures
        b == java060_hit(l@),
{
    starts_with_lit(trimmed_start(l).as_slice(), "public ") && contains_lit(l, ";") && !contains_lit(l, "final") && !contains_lit(l, "class") && !contains_lit(l, "(")
}

impl Rule for MutablePublicField {
    open spec fn spec_id(&self) -> Seq<char> {
        "JAVA060"@
    }

    open spec fn spec_severity(&self) -> Severity {
        Severity::Warning
    }

    open spec fn is_pure(&self) -> bool {
        true
    }

    open spec fn accepts(&self, source: Seq<char>, disabled: Seq<Seq<char>>) -> bool {
        true
    }

    fn id(&self) -> (r: &'static str) {
        "JAVA060"
    }

    fn severity(&self) -> (s: Severity) {
        Severity::Warning
    }

    fn admits(&self, source: &str, config: &LintConfig) -> (b: bool) {
        true
    }

    open spec fn findings(&self, file: Option<Seq<char>>, source: Seq<char>, disabled: Seq<Seq<char>>) -> Seq<ErrorView> {
        if enabled(disabled, "JAVA060"@) {
            col_errors(hit_cols(lines(source).map_values(|l: Seq<char>| java060_hit(l))), tmpl(file, Severity::Warning, "JAVA060"@, "Mutable public field"@, "Make field private and provide accessors"@))
        } else {
            seq![]
        }
    }

    fn check(&self, file: Option<&str>, source: &str, report: &mut LintReport, config: &LintConfig) {
        if !config.is_enabled(self.id()) {
            return;
        }
        let ls = lines_of_str(source);
        proof {
            lemma_lines_bounds(source@);
        }
        let mut hits: Vec<bool> = Vec::new();
        let mut i: usize = 0;
        while i < ls.len()
            invariant
                i <= ls@.len(),
                hits@.len() == i,
                views(ls@) == lines(source@),
                forall|j: int| 0 <= j < i ==> hits@[j] == java060_hit(lines(source@)[j]),
            decreases ls@.len() - i,
        {
            assert(views(ls@)[i as int] == ls@[i as int]@);
            hits.push(java060_test(ls[i].as_slice()));
            i += 1;
        }
        assert(hits@ =~= lines(source@).map_values(|l: Seq<char>| java060_hit(l)));
        report_hits(report, file, &hits, Severity::Warning, "JAVA060", "Mutable public field", "Make field private and provide accessors");
    }
}

/// JAVA070: String comparison using ==.
#[derive(Clone, Copy, Debug)]
pub struct StringComparisonUsingDoubleEquals;

/// Whether a line is reported by JAVA070.
pub open spec fn java070_hit(l: Seq<char>) -> bool {
    contains(l, "=="@) && contains(l, "\""@)
}

fn java070_test(l: &[char]) -> (b: bool)
    ensures
        b == java070_hit(l@),
{
    contains_lit(l, "==") && contains_lit(l, "\"")
}

impl Rule for StringComparisonUsingDoubleEquals {
    open spec fn spec_id(&self) -> Seq<char> {
        "JAVA070"@
    }

    open spec fn spec_severity(&self) -> Severity {
        Severity::Error
    }

    open spec fn is_pure(&self) -> bool {
        true
    }

    open spec fn accepts(&self, source: Seq<char>, disabled: Seq<Seq<char>>) -> bool {
        true
    }

    fn id(&self) -> (r: &'static str) {
        "JAVA070"
    }

    fn severity(&self) -> (s: Severity) {
        Severity::Error
    }

    fn admits(&self, source: &str, config: &LintConfig) -> (b: bool) {
        true
    }

    open spec fn findings(&self, file: Option<Seq<char>>, source: Seq<char>, disabled: Seq<Seq<char>>) -> Seq<ErrorView> {
        if enabled(disabled, "JAVA070"@) {
            col_errors(hit_cols(lines(source).map_values(|l: Seq<char>| java070_hit(l))), tmpl(file, Severity::Error, "JAVA070"@, "String comparison using =="@, "Use .equals() for String comparison"@))
        } else {
            seq![]
        }
    }

    fn check(&self, file: Option<&str>, source: &str, report: &mut LintReport, config: &LintConfig) {
        if !config.is_enabled(self.id()) {
            return;
        }
        let ls = lines_of_str(source);
        proof {
            lemma_lines_bounds(source@);
        }
        let mut hits: Vec<bool> = Vec::new();
        let mut i: usize = 0;
        while i < ls.len()
            invariant
                i <= ls@.len(),
                hits@.len() == i,
                views(ls@) == lines(source@),
                forall|j: int| 0 <= j < i ==> hits@[j] == java070_hit(lines(source@)[j]),
            decreases ls@.len() - i,
        {
            assert(views(ls@)[i as int] == ls@[i as int]@);
            hits.push(java070_test(ls[i].as_slice()));
            i += 1;
        }
        assert(hits@ =~= lines(source@).map_values(|l: Seq<char>| java070_hit(l)));
        report_hits(report, file, &hits, Severity::Error, "JAVA070", "String comparison using ==", "Use .equals() for String comparison");
    }
}

/// JAVA011: Multiple public classes in a single file.
#[derive(Clone, Copy, Debug)]
pub struct MultiplePublicClasses;

/// Whether JAVA011 reports a source.
pub open spec fn java011_hit(file: Option<Seq<char>>, src: Seq<char>) -> bool {
    count_matches(src, "public class "@) > 1
}

fn java011_test(file: Option<&str>, src: &[char]) -> (b: bool)
    requires
        fits(src@),
    ensures
        b == java011_hit(opt_str_view(file), src@),
{
    count_lit(src, "public class ") > 1
}

impl Rule for MultiplePublicClasses {
    open spec fn spec_id(&self) -> Seq<char> {
        "JAVA011"@
    }

    open spec fn spec_severity(&self) -> Severity {
        Severity::Error
    }

    open spec fn is_pure(&self) -> bool {
        true
    }

    open spec fn accepts(&self, source: Seq<char>, disabled: Seq<Seq<char>>) -> bool {
        true
    }

    fn id(&self) -> (r: &'static str) {
        "JAVA011"
    }

    fn severity(&self) -> (s: Severity) {
        Severity::Error
    }

    fn admits(&self, source: &str, config: &LintConfig) -> (b: bool) {
        true
    }

    open spec fn findings(&self, file: Option<Seq<char>>, source: Seq<char>, disabled: Seq<Seq<char>>) -> Seq<ErrorView> {
        if enabled(disabled, "JAVA011"@) {
            once(java011_hit(file, source), tmpl(file, Severity::Error, "JAVA011"@, "Multiple public classes in a single file"@, "Only one public class per file"@))
        } else {
            seq![]
        }
    }

    fn check(&self, file: Option<&str>, source: &str, report: &mut LintReport, config: &LintConfig) {
        if !config.is_enabled(self.id()) {
            return;
        }
        let src = chars_of(source);
        let hit = java011_test(file, src.as_slice());
        report_once(report, file, hit, Severity::Error, "JAVA011", "Multiple public classes in a single file", "Only one public class per file");
    }
}



/// The rules of the Java rule set, in order.
pub open spec fn rule_set() -> Seq<LintRule> {
    seq![LintRule::JAVA001(TrailingWhitespace), LintRule::JAVA010(MissingPackageDeclaration), LintRule::JAVA011(MultiplePublicClasses), LintRule::JAVA020(SystemOutUsage), LintRule::JAVA021(EmptyCatchBlock), LintRule::JAVA030(EqualsWithoutHashCode), LintRule::JAVA031(RawTypeUsage), LintRule::JAVA040(ThrowingGenericException), LintRule::JAVA050(UnreachableCode), LintRule::JAVA060(MutablePublicField), LintRule::JAVA070(StringComparisonUsingDoubleEquals)]
}

/// The Java rule set.
pub fn linter() -> (l: Linter)
    ensures
        l@ == rule_set(),
{
    let l = Linter::new();
    assert(l@ == Seq::<LintRule>::empty());
    proof {
        lemma_fresh(l@, LintRule::JAVA001(TrailingWhitespace));
    }
    let l = l.add_rule(LintRule::JAVA001(TrailingWhitespace));
    proof {
        reveal_strlit("JAVA001");
        reveal_strlit("JAVA010");
        assert("JAVA001"@[5] != "JAVA010"@[5]);
        lemma_fresh(l@, LintRule::JAVA010(MissingPackageDeclaration));
    }
    let l = l.add_rule(LintRule::JAVA010(MissingPackageDeclaration));
    proof {
        reveal_strlit("JAVA001");
        reveal_strlit("JAVA010");
        reveal_strlit("JAVA011");
        assert("JAVA001"@[5] != "JAVA011"@[5]);
        assert("JAVA010"@[6] != "JAVA011"@[6]);
        lemma_fresh(l@, LintRule::JAVA011(MultiplePublicClasses));
    }
    let l = l.add_rule(LintRule::JAVA011(MultiplePublicClasses));
    proof {
        reveal_strlit("JAVA001");
        reveal_strlit("JAVA010");
        reveal_strlit("JAVA011");
        reveal_strlit("JAVA020");
        assert("JAVA001"@[5] != "JAVA020"@[5]);
        assert("JAVA010"@[5] != "JAVA020"@[5]);
        assert("JAVA011"@[5] != "JAVA020"@[5]);
        lemma_fresh(l@, LintRule::JAVA020(SystemOutUsage));
    }
    let l = l.add_rule(LintRule::JAVA020(SystemOutUsage));
    proof {
        reveal_strlit("JAVA001");
        reveal_strlit("JAVA010");
        reveal_strlit("JAVA011");
        reveal_strlit("JAVA020");
        reveal_strlit("JAVA021");
        assert("JAVA001"@[5] != "JAVA021"@[5]);
        assert("JAVA010"@[5] != "JAVA021"@[5]);
        assert("JAVA011"@[5] != "JAVA021"@[5]);
        assert("JAVA020"@[6] != "JAVA021"@[6]);
        lemma_fresh(l@, LintRule::JAVA021(EmptyCatchBlock));
    }
    let l = l.add_rule(LintRule::JAVA021(EmptyCatchBlock));
    proof {
        reveal_strlit("JAVA001");
        reveal_strlit("JAVA010");
        reveal_strlit("JAVA011");
        reveal_strlit("JAVA020");
        reveal_strlit("JAVA021");
        reveal_strlit("JAVA030");
        assert("JAVA001"@[5] != "JAVA030"@[5]);
        assert("JAVA010"@[5] != "JAVA030"@[5]);
        assert("JAVA011"@[5] != "JAVA030"@[5]);
        assert("JAVA020"@[5] != "JAVA030"@[5]);
        assert("JAVA021"@[5] != "JAVA030"@[5]);
        lemma_fresh(l@, LintRule::JAVA030(EqualsWithoutHashCode));
    }
    let l = l.add_rule(LintRule::JAVA030(EqualsWithoutHashCode));
    proof {
        reveal_strlit("JAVA001");
        reveal_strlit("JAVA010");
        reveal_strlit("JAVA011");
        reveal_strlit("JAVA020");
        reveal_strlit("JAVA021");
        reveal_strlit("JAVA030");
        reveal_strlit("JAVA031");
        assert("JAVA001"@[5] != "JAVA031"@[5]);
        assert("JAVA010"@[5] != "JAVA031"@[5]);
        assert("JAVA011"@[5] != "JAVA031"@[5]);
        assert("JAVA020"@[5] != "JAVA031"@[5]);
        assert("JAVA021"@[5] != "JAVA031"@[5]);
        assert("JAVA030"@[6] != "JAVA031"@[6]);
        lemma_fresh(l@, LintRule::JAVA031(RawTypeUsage));
    }
    let l = l.add_rule(LintRule::JAVA031(RawTypeUsage));
    proof {
        reveal_strlit("JAVA001");
        reveal_strlit("JAVA010");
        reveal_strlit("JAVA011");
        reveal_strlit("JAVA020");
        reveal_strlit("JAVA021");
        reveal_strlit("JAVA030");
        reveal_strlit("JAVA031");
        reveal_strlit("JAVA040");
        assert("JAVA001"@[5] != "JAVA040"@[5]);
        assert("JAVA010"@[5] != "JAVA040"@[5]);
        assert("JAVA011"@[5] != "JAVA040"@[5]);
        assert("JAVA020"@[5] != "JAVA040"@[5]);
        assert("JAVA021"@[5] != "JAVA040"@[5]);
        assert("JAVA030"@[5] != "JAVA040"@[5]);
        assert("JAVA031"@[5] != "JAVA040"@[5]);
        lemma_fresh(l@, LintRule::JAVA040(ThrowingGenericException));
    }
    let l = l.add_rule(LintRule::JAVA040(ThrowingGenericException));
    proof {
        reveal_strlit("JAVA001");
        reveal_strlit("JAVA010");
        reveal_strlit("JAVA011");
        reveal_strlit("JAVA020");
        reveal_strlit("JAVA021");
        reveal_strlit("JAVA030");
        reveal_strlit("JAVA031");
        reveal_strlit("JAVA040");
        reveal_strlit("JAVA050");
        assert("JAVA001"@[5] != "JAVA050"@[5]);
        assert("JAVA010"@[5] != "JAVA050"@[5]);
        assert("JAVA011"@[5] != "JAVA050"@[5]);
        assert("JAVA020"@[5] != "JAVA050"@[5]);
        assert("JAVA021"@[5] != "JAVA050"@[5]);
        assert("JAVA030"@[5] != "JAVA050"@[5]);
        assert("JAVA031"@[5] != "JAVA050"@[5]);
        assert("JAVA040"@[5] != "JAVA050"@[5]);
        lemma_fresh(l@, LintRule::JAVA050(UnreachableCode));
    }
    let l = l.add_rule(LintRule::JAVA050(UnreachableCode));
    proof {
        reveal_strlit("JAVA001");
        reveal_strlit("JAVA010");
        reveal_strlit("JAVA011");
        reveal_strlit("JAVA020");
        reveal_strlit("JAVA021");
        reveal_strlit("JAVA030");
        reveal_strlit("JAVA031");
        reveal_strlit("JAVA040");
        reveal_strlit("JAVA050");
        reveal_strlit("JAVA060");
        assert("JAVA001"@[5] != "JAVA060"@[5]);
        assert("JAVA010"@[5] != "JAVA060"@[5]);
        assert("JAVA011"@[5] != "JAVA060"@[5]);
        assert("JAVA020"@[5] != "JAVA060"@[5]);
        assert("JAVA021"@[5] != "JAVA060"@[5]);
        assert("JAVA030"@[5] != "JAVA060"@[5]);
        assert("JAVA031"@[5] != "JAVA060"@[5]);
        assert("JAVA040"@[5] != "JAVA060"@[5]);
        assert("JAVA050"@[5] != "JAVA060"@[5]);
        lemma_fresh(l@, LintRule::JAVA060(MutablePublicField));
    }
    let l = l.add_rule(LintRule::JAVA060(MutablePublicField));
    proof {
        reveal_strlit("JAVA001");
        reveal_strlit("JAVA010");
        reveal_strlit("JAVA011");
        reveal_strlit("JAVA020");
        reveal_strlit("JAVA021");
        reveal_strlit("JAVA030");
        reveal_strlit("JAVA031");
        reveal_strlit("JAVA040");
        reveal_strlit("JAVA050");
        reveal_strlit("JAVA060");
        reveal_strlit("JAVA070");
        assert("JAVA001"@[5] != "JAVA070"@[5]);
        assert("JAVA010"@[5] != "JAVA070"@[5]);
        assert("JAVA011"@[5] != "JAVA070"@[5]);
        assert("JAVA020"@[5] != "JAVA070"@[5]);
        assert("JAVA021"@[5] != "JAVA070"@[5]);
        assert("JAVA030"@[5] != "JAVA070"@[5]);
        assert("JAVA031"@[5] != "JAVA070"@[5]);
        assert("JAVA040"@[5] != "JAVA070"@[5]);
        assert("JAVA050"@[5] != "JAVA070"@[5]);
        assert("JAVA060"@[5] != "JAVA070"@[5]);
        lemma_fresh(l@, LintRule::JAVA070(StringComparisonUsingDoubleEquals));
    }
    let l = l.add_rule(LintRule::JAVA070(StringComparisonUsingDoubleEquals));
    l
}

} // verus!
