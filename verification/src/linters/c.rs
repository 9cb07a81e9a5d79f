//! C
use vstd::prelude::*;
use crate::lint::config::{LintConfig, enabled};
use crate::lint::error::{ErrorView, Severity, opt_str_view};
use crate::lint::linter::{Linter, lemma_fresh};
use crate::lint::registry::LintRule;
use crate::lint::report::LintReport;
use crate::lint::rule::Rule;
use crate::lint::edit::{Fix, single_fix};
use crate::lint::support::{lemma_line_fits, sum_pieces, line_offset, Tmpl, at, col_errors, hit_cols, once, tmpl, finding, make_error, report_hits, report_once, report_cols, lemma_lines_bounds, lemma_lines_total, total_chars, lemma_total_chars_take};
use crate::linters::common::{count_matches, count_matches_exec, count_lit, find_col, find_col_exec, word_errors, report_words, comma_needs_space, comma_needs_space_exec, brace_needs_space, brace_needs_space_exec, brace_prev_ascii, brace_prev_ascii_exec, match_errors, report_matches, all_true, trues, trailing_ws_errors, acc_offsets, piece_offsets, report_trailing_ws, acc_offsets_exec, piece_offsets_exec, unreachable_errors, report_unreachable};
use crate::text::{lines, views, contains, starts_with, ends_with, trim, trim_start, trim_end, upper, lower, chars_of, lines_of_str, contains_lit, starts_with_lit, ends_with_lit, eq_lit, trimmed, trimmed_start, trimmed_end, upper_of, lower_of, owned, string_of, slice_of, find, find_char, find_lit, find_chars, lemma_find, matches_at, is_ws, is_whitespace, utf8_len, byte_len, prefix_bytes, any_upper, has_upper, lemma_utf8_len_take, lemma_utf8_len_subrange, split_char, fits, match_indices, match_positions_lit, char_width, split_on, contains_char, numeric_char, is_numeric};

verus! {

/// C001: Trailing whitespace.
#[derive(Clone, Copy, Debug)]
pub struct TrailingWhitespace;

impl Rule for TrailingWhitespace {
    open spec fn spec_id(&self) -> Seq<char> {
        "C001"@
    }

    open spec fn spec_severity(&self) -> Severity {
        Severity::Info
    }

    open spec fn is_pure(&self) -> bool {
        true
    }

    open spec fn accepts(&self, source: Seq<char>, disabled: Seq<Seq<char>>) -> bool {
        true
    }

    fn id(&self) -> (r: &'static str) {
        "C001"
    }

    fn severity(&self) -> (s: Severity) {
        Severity::Info
    }

    fn admits(&self, source: &str, config: &LintConfig) -> (b: bool) {
        true
    }

    open spec fn findings(&self, file: Option<Seq<char>>, source: Seq<char>, disabled: Seq<Seq<char>>) -> Seq<ErrorView> {
        if enabled(disabled, "C001"@) {
            trailing_ws_errors(lines(source), acc_offsets(lines(source)), tmpl(file, Severity::Info, "C001"@, "Trailing whitespace"@, "Remove trailing whitespace"@))
        } else {
            seq![]
        }
    }

    fn check(&self, file: Option<&str>, source: &str, report: &mut LintReport, config: &LintConfig) {
        if !config.is_enabled(self.id()) {
            return;
        }
        let ls = lines_of_str(source);
        proof {
            lemma_lines_bounds(source@);
        }
        let offs = acc_offsets_exec(&ls, Ghost(source@));
        report_trailing_ws(report, file, &ls, &offs, Severity::Info, "C001", "Trailing whitespace", "Remove trailing whitespace");
    }
}

/// C010: gets() is unsafe and removed from C11.
#[derive(Clone, Copy, Debug)]
pub struct GetsUsage;

/// Whether C010 reports a source.
pub open spec fn c010_hit(file: Option<Seq<char>>, src: Seq<char>) -> bool {
    contains(src, "gets("@)
}

fn c010_test(file: Option<&str>, src: &[char]) -> (b: bool)
    requires
        fits(src@),
    ensures
        b == c010_hit(opt_str_view(file), src@),
{
    contains_lit(src, "gets(")
}

impl Rule for GetsUsage {
    open spec fn spec_id(&self) -> Seq<char> {
        "C010"@
    }

    open spec fn spec_severity(&self) -> Severity {
        Severity::Error
    }

    open spec fn is_pure(&self) -> bool {
        true
    }

    open spec fn accepts(&self, source: Seq<char>, disabled: Seq<Seq<char>>) -> bool {
        true
    }

    fn id(&self) -> (r: &'static str) {
        "C010"
    }

    fn severity(&self) -> (s: Severity) {
        Severity::Error
    }

    fn admits(&self, source: &str, config: &LintConfig) -> (b: bool) {
        true
    }

    open spec fn findings(&self, file: Option<Seq<char>>, source: Seq<char>, disabled: Seq<Seq<char>>) -> Seq<ErrorView> {
        if enabled(disabled, "C010"@) {
            once(c010_hit(file, source), tmpl(file, Severity::Error, "C010"@, "gets() is unsafe and removed from C11"@, "Use fgets() instead"@))
        } else {
            seq![]
        }
    }

    fn check(&self, file: Option<&str>, source: &str, report: &mut LintReport, config: &LintConfig) {
        if !config.is_enabled(self.id()) {
            return;
        }
        let src = chars_of(source);
        let hit = c010_test(file, src.as_slice());
        report_once(report, file, hit, Severity::Error, "C010", "gets() is unsafe and removed from C11", "Use fgets() instead");
    }
}

/// C020: strcpy() may cause buffer overflow.
#[derive(Clone, Copy, Debug)]
pub struct StrcpyUsage;

/// Whether C020 reports a source.
pub open spec fn c020_hit(file: Option<Seq<char>>, src: Seq<char>) -> bool {
    contains(src, "strcpy("@)
}

fn c020_test(file: Option<&str>, src: &[char]) -> (b: bool)
    requires
        fits(src@),
    ensures
        b == c020_hit(opt_str_view(file), src@),
{
    contains_lit(src, "strcpy(")
}

impl Rule for StrcpyUsage {
    open spec fn spec_id(&self) -> Seq<char> {
        "C020"@
    }

    open spec fn spec_severity(&self) -> Severity {
        Severity::Warning
    }

    open spec fn is_pure(&self) -> bool {
        true
    }

    open spec fn accepts(&self, source: Seq<char>, disabled: Seq<Seq<char>>) -> bool {
        true
    }

    fn id(&self) -> (r: &'static str) {
        "C020"
    }

    fn severity(&self) -> (s: Severity) {
        Severity::Warning
    }

    fn admits(&self, source: &str, config: &LintConfig) -> (b: bool) {
        true
    }

    open spec fn findings(&self, file: Option<Seq<char>>, source: Seq<char>, disabled: Seq<Seq<char>>) -> Seq<ErrorView> {
        if enabled(disabled, "C020"@) {
            once(c020_hit(file, source), tmpl(file, Severity::Warning, "C020"@, "strcpy() may cause buffer overflow"@, "Use strncpy() or safer alternatives"@))
        } else {
            seq![]
        }
    }

    fn check(&self, file: Option<&str>, source: &str, report: &mut LintReport, config: &LintConfig) {
        if !config.is_enabled(self.id()) {
            return;
        }
        let src = chars_of(source);
        let hit = c020_test(file, src.as_slice());
        report_once(report, file, hit, Severity::Warning, "C020", "strcpy() may cause buffer overflow", "Use strncpy() or safer alternatives");
    }
}

/// C030: sprintf() may cause buffer overflow.
#[derive(Clone, Copy, Debug)]
pub struct SprintfUsage;

/// Whether C030 reports a source.
pub open spec fn c030_hit(file: Option<Seq<char>>, src: Seq<char>) -> bool {
    contains(src, "sprintf("@)
}

fn c030_test(file: Option<&str>, src: &[char]) -> (b: bool)
    requires
        fits(src@),
    ensures
        b == c030_hit(opt_str_view(file), src@),
{
    contains_lit(src, "sprintf(")
}

impl Rule for SprintfUsage {
    open spec fn spec_id(&self) -> Seq<char> {
        "C030"@
    }

    open spec fn spec_severity(&self) -> Severity {
        Severity::Warning
    }

    open spec fn is_pure(&self) -> bool {
        true
    }

    open spec fn accepts(&self, source: Seq<char>, disabled: Seq<Seq<char>>) -> bool {
        true
    }

    fn id(&self) -> (r: &'static str) {
        "C030"
    }

    fn severity(&self) -> (s: Severity) {
        Severity::Warning
    }

    fn admits(&self, source: &str, config: &LintConfig) -> (b: bool) {
        true
    }

    open spec fn findings(&self, file: Option<Seq<char>>, source: Seq<char>, disabled: Seq<Seq<char>>) -> Seq<ErrorView> {
        if enabled(disabled, "C030"@) {
            once(c030_hit(file, source), tmpl(file, Severity::Warning, "C030"@, "sprintf() may cause buffer overflow"@, "Use snprintf() instead"@))
        } else {
            seq![]
        }
    }

    fn check(&self, file: Option<&str>, source: &str, report: &mut LintReport, config: &LintConfig) {
        if !config.is_enabled(self.id()) {
            return;
        }
        let src = chars_of(source);
        let hit = c030_test(file, src.as_slice());
        report_once(report, file, hit, Severity::Warning, "C030", "sprintf() may cause buffer overflow", "Use snprintf() instead");
    }
}

/// C040: Assignment used in condition.
#[derive(Clone, Copy, Debug)]
pub struct AssignmentInCondition;

/// Whether a line is reported by C040.
pub open spec fn c040_hit(l: Seq<char>) -> bool {
    contains(l, "if ("@) && contains(l, "="@) && !contains(l, "=="@)
}

fn c040_test(l: &[char]) -> (b: bool)
    ensures
        b == c040_hit(l@),
{
    contains_lit(l, "if (") && contains_lit(l, "=") && !contains_lit(l, "==")
}

impl Rule for AssignmentInCondition {
    open spec fn spec_id(&self) -> Seq<char> {
        "C040"@
    }

    open spec fn spec_severity(&self) -> Severity {
        Severity::Warning
    }

    open spec fn is_pure(&self) -> bool {
        true
    }

    open spec fn accepts(&self, source: Seq<char>, disabled: Seq<Seq<char>>) -> bool {
        true
    }

    fn id(&self) -> (r: &'static str) {
        "C040"
    }

    fn severity(&self) -> (s: Severity) {
        Severity::Warning
    }

    fn admits(&self, source: &str, config: &LintConfig) -> (b: bool) {
        true
    }

    open spec fn findings(&self, file: Option<Seq<char>>, source: Seq<char>, disabled: Seq<Seq<char>>) -> Seq<ErrorView> {
        if enabled(disabled, "C040"@) {
            col_errors(hit_cols(lines(source).map_values(|l: Seq<char>| c040_hit(l))), tmpl(file, Severity::Warning, "C040"@, "Assignment used in condition"@, "Use == for comparison or add parentheses for clarity"@))
        } else {
            seq![]
        }
    }

    fn check(&self, file: Option<&str>, source: &str, report: &mut LintReport, config: &LintConfig) {
        if !config.is_enabled(self.id()) {
            return;
        }
        let ls = lines_of_str(source);
        proof {
            lemma_lines_bounds(source@);
        }
        let mut hits: Vec<bool> = Vec::new();
        let mut i: usize = 0;
        while i < ls.len()
            invariant
                i <= ls@.len(),
                hits@.len() == i,
                views(ls@) == lines(source@),
                forall|j: int| 0 <= j < i ==> hits@[j] == c040_hit(lines(source@)[j]),
            decreases ls@.len() - i,
        {
            assert(views(ls@)[i as int] == ls@[i as int]@);
            hits.push(c040_test(ls[i].as_slice()));
            i += 1;
        }
        assert(hits@ =~= lines(source@).map_values(|l: Seq<char>| c040_hit(l)));
        report_hits(report, file, &hits, Severity::Warning, "C040", "Assignment used in condition", "Use == for comparison or add parentheses for clarity");
    }
}

/// C050: Possible global variable declaration.
#[derive(Clone, Copy, Debug)]
pub struct GlobalVariableUsage;

/// Whether a line is reported by C050.
pub open spec fn c050_hit(l: Seq<char>) -> bool {
    !starts_with(l, " "@) && contains(l, ";"@) && !contains(l, "("@) && !contains(l, "#"@)
}

fn c050_test(l: &[char]) -> (b: bool)
    ensures
        b == c050_hit(l@),
{
    !starts_with_lit(l, " ") && contains_lit(l, ";") && !contains_lit(l, "(") && !contains_lit(l, "#")
}

impl Rule for GlobalVariableUsage {
    open spec fn spec_id(&self) -> Seq<char> {
        "C050"@
    }

    open spec fn spec_severity(&self) -> Severity {
        Severity::Info
    }

    open spec fn is_pure(&self) -> bool {
        true
    }

    open spec fn accepts(&self, source: Seq<char>, disabled: Seq<Seq<char>>) -> bool {
        true
    }

    fn id(&self) -> (r: &'static str) {
        "C050"
    }

    fn severity(&self) -> (s: Severity) {
        Severity::Info
    }

    fn admits(&self, source: &str, config: &LintConfig) -> (b: bool) {
        true
    }

    open spec fn findings(&self, file: Option<Seq<char>>, source: Seq<char>, disabled: Seq<Seq<char>>) -> Seq<ErrorView> {
        if enabled(disabled, "C050"@) {
            col_errors(hit_cols(lines(source).map_values(|l: Seq<char>| c050_hit(l))), tmpl(file, Severity::Info, "C050"@, "Possible global variable declaration"@, "Limit global variable usage"@))
        } else {
            seq![]
        }
    }

    fn check(&self, file: Option<&str>, source: &str, report: &mut LintReport, config: &LintConfig) {
        if !config.is_enabled(self.id()) {
            return;
        }
        let ls = lines_of_str(source);
        proof {
            lemma_lines_bounds(source@);
        }
        let mut hits: Vec<bool> = Vec::new();
        let mut i: usize = 0;
        while i < ls.len()
            invariant
                i <= ls@.len(),
                hits@.len() == i,
                views(ls@) == lines(source@),
                forall|j: int| 0 <= j < i ==> hits@[j] == c050_hit(lines(source@)[j]),
            decreases ls@.len() - i,
        {
            assert(views(ls@)[i as int] == ls@[i as int]@);
            hits.push(c050_test(ls[i].as_slice()));
            i += 1;
        }
        assert(hits@ =~= lines(source@).map_values(|l: Seq<char>| c050_hit(l)));
        report_hits(report, file, &hits, Severity::Info, "C050", "Possible global variable declaration", "Limit global variable usage");
    }
}

/// C060: Non-void function missing return statement.
#[derive(Clone, Copy, Debug)]
pub struct MissingReturnInNonVoid;

/// Whether C060 reports a source.
pub open spec fn c060_hit(file: Option<Seq<char>>, src: Seq<char>) -> bool {
    contains(src, "int "@) && contains(src, "{"@) && !contains(src, "return"@)
}

fn c060_test(file: Option<&str>, src: &[char]) -> (b: bool)
    requires
        fits(src@),
    ensures
        b == c060_hit(opt_str_view(file), src@),
{
    contains_lit(src, "int ") && contains_lit(src, "{") && !contains_lit(src, "return")
}

impl Rule for MissingReturnInNonVoid {
    open spec fn spec_id(&self) -> Seq<char> {
        "C060"@
    }

    open spec fn spec_severity(&self) -> Severity {
        Severity::Error
    }

    open spec fn is_pure(&self) -> bool {
        true
    }

    open spec fn accepts(&self, source: Seq<char>, disabled: Seq<Seq<char>>) -> bool {
        true
    }

    fn id(&self) -> (r: &'static str) {
        "C060"
    }

    fn severity(&self) -> (s: Severity) {
        Severity::Error
    }

    fn admits(&self, source: &str, config: &LintConfig) -> (b: bool) {
        true
    }

    open spec fn findings(&self, file: Option<Seq<char>>, source: Seq<char>, disabled: Seq<Seq<char>>) -> Seq<ErrorView> {
        if enabled(disabled, "C060"@) {
            once(c060_hit(file, source), tmpl(file, Severity::Error, "C060"@, "Non-void function missing return statement"@, "Ensure all control paths return a value"@))
        } else {
            seq![]
        }
    }

    fn check(&self, file: Option<&str>, source: &str, report: &mut LintReport, config: &LintConfig) {
        if !config.is_enabled(self.id()) {
            return;
        }
        let src = chars_of(source);
        let hit = c060_test(file, src.as_slice());
        report_once(report, file, hit, Severity::Error, "C060", "Non-void function missing return statement", "Ensure all control paths return a value");
    }
}

/// C090: Unreachable code detected.
#[derive(Clone, Copy, Debug)]
pub struct UnreachableCode;

/// Whether a line ends the reachable code for C090.
pub open spec fn c090_term(l: Seq<char>) -> bool {
    starts_with(trim_start(l), "return "@)
}

fn c090_term_test(l: &[char]) -> (b: bool)
    ensures
        b == c090_term(l@),
{
    starts_with_lit(trimmed_start(l).as_slice(), "return ")
}

impl Rule for UnreachableCode {
    open spec fn spec_id(&self) -> Seq<char> {
        "C090"@
    }

    open spec fn spec_severity(&self) -> Severity {
        Severity::Error
    }

    open spec fn is_pure(&self) -> bool {
        true
    }

    open spec fn accepts(&self, source: Seq<char>, disabled: Seq<Seq<char>>) -> bool {
        true
    }

    fn id(&self) -> (r: &'static str) {
        "C090"
    }

    fn severity(&self) -> (s: Severity) {
        Severity::Error
    }

    fn admits(&self, source: &str, config: &LintConfig) -> (b: bool) {
        true
    }

    open spec fn findings(&self, file: Option<Seq<char>>, source: Seq<char>, disabled: Seq<Seq<char>>) -> Seq<ErrorView> {
        if enabled(disabled, "C090"@) {
            unreachable_errors(lines(source), lines(source).map_values(|l: Seq<char>| c090_term(l)), tmpl(file, Severity::Error, "C090"@, "Unreachable code detected"@, "Remove unreachable statements"@))
        } else {
            seq![]
        }
    }

    fn check(&self, file: Option<&str>, source: &str, report: &mut LintReport, config: &LintConfig) {
        if !config.is_enabled(self.id()) {
            return;
        }
        let ls = lines_of_str(source);
        proof {
            lemma_lines_bounds(source@);
        }
        let mut term: Vec<bool> = Vec::new();
        let mut i: usize = 0;
        while i < ls.len()
            invariant
                i <= ls@.len(),
                term@.len() == i,
                views(ls@) == lines(source@),
                forall|j: int| 0 <= j < i ==> term@[j] == c090_term(lines(source@)[j]),
            decreases ls@.len() - i,
        {
            assert(views(ls@)[i as int] == ls@[i as int]@);
            term.push(c090_term_test(ls[i].as_slice()));
            i += 1;
        }
        assert(term@ =~= lines(source@).map_values(|l: Seq<char>| c090_term(l)));
        report_unreachable(report, file, &ls, &term, Severity::Error, "C090", "Unreachable code detected", "Remove unreachable statements");
    }
}

/// The rules of the C rule set, in order.
pub open spec fn rule_set() -> Seq<LintRule> {
    seq![LintRule::C001(TrailingWhitespace), LintRule::C010(GetsUsage), LintRule::C020(StrcpyUsage), LintRule::C030(SprintfUsage), LintRule::C040(AssignmentInCondition), LintRule::C050(GlobalVariableUsage), LintRule::C060(MissingReturnInNonVoid), LintRule::C090(UnreachableCode)]
}

/// The C rule set.
pub fn linter() -> (l: Linter)
    ensures
        l@ == rule_set(),
{
    let l = Linter::new();
    assert(l@ == Seq::<LintRule>::empty());
    proof {
        lemma_fresh(l@, LintRule::C001(TrailingWhitespace));
    }
    let l = l.add_rule(LintRule::C001(TrailingWhitespace));
    proof {
        reveal_strlit("C001");
        reveal_strlit("C010");
        assert("C001"@[2] != "C010"@[2]);
        lemma_fresh(l@, LintRule::C010(GetsUsage));
    }
    let l = l.add_rule(LintRule::C010(GetsUsage));
    proof {
        reveal_strlit("C001");
        reveal_strlit("C010");
        reveal_strlit("C020");
        assert("C001"@[2] != "C020"@[2]);
        assert("C010"@[2] != "C020"@[2]);
        lemma_fresh(l@, LintRule::C020(StrcpyUsage));
    }
    let l = l.add_rule(LintRule::C020(StrcpyUsage));
    proof {
        reveal_strlit("C001");
        reveal_strlit("C010");
        reveal_strlit("C020");
        reveal_strlit("C030");
        assert("C001"@[2] != "C030"@[2]);
        assert("C010"@[2] != "C030"@[2]);
        assert("C020"@[2] != "C030"@[2]);
        lemma_fresh(l@, LintRule::C030(SprintfUsage));
    }
    let l = l.add_rule(LintRule::C030(SprintfUsage));
    proof {
        reveal_strlit("C001");
        reveal_strlit("C010");
        reveal_strlit("C020");
        reveal_strlit("C030");
        reveal_strlit("C040");
        assert("C001"@[2] != "C040"@[2]);
        assert("C010"@[2] != "C040"@[2]);
        assert("C020"@[2] != "C040"@[2]);
        assert("C030"@[2] != "C040"@[2]);
        lemma_fresh(l@, LintRule::C040(AssignmentInCondition));
    }
    let l = l.add_rule(LintRule::C040(AssignmentInCondition));
    proof {
        reveal_strlit("C001");
        reveal_strlit("C010");
        reveal_strlit("C020");
        reveal_strlit("C030");
        reveal_strlit("C040");
        reveal_strlit("C050");
        assert("C001"@[2] != "C050"@[2]);
        assert("C010"@[2] != "C050"@[2]);
        assert("C020"@[2] != "C050"@[2]);
        assert("C030"@[2] != "C050"@[2]);
        assert("C040"@[2] != "C050"@[2]);
        lemma_fresh(l@, LintRule::C050(GlobalVariableUsage));
    }
    let l = l.add_rule(LintRule::C050(GlobalVariableUsage));
    proof {
        reveal_strlit("C001");
        reveal_strlit("C010");
        reveal_strlit("C020");
        reveal_strlit("C030");
        reveal_strlit("C040");
        reveal_strlit("C050");
        reveal_strlit("C060");
        assert("C001"@[2] != "C060"@[2]);
        assert("C010"@[2] != "C060"@[2]);
        assert("C020"@[2] != "C060"@[2]);
        assert("C030"@[2] != "C060"@[2]);
        assert("C040"@[2] != "C060"@[2]);
        assert("C050"@[2] != "C060"@[2]);
        lemma_fresh(l@, LintRule::C060(MissingReturnInNonVoid));
    }
    let l = l.add_rule(LintRule::C060(MissingReturnInNonVoid));
    proof {
        reveal_strlit("C001");
        reveal_strlit("C010");
        reveal_strlit("C020");
        reveal_strlit("C030");
        reveal_strlit("C040");
        reveal_strlit("C050");
        reveal_strlit("C060");
        reveal_strlit("C090");
        assert("C001"@[2] != "C090"@[2]);
        assert("C010"@[2] != "C090"@[2]);
        assert("C020"@[2] != "C090"@[2]);
        assert("C030"@[2] != "C090"@[2]);
        assert("C040"@[2] != "C090"@[2]);
        assert("C050"@[2] != "C090"@[2]);
        assert("C060"@[2] != "C090"@[2]);
        lemma_fresh(l@, LintRule::C090(UnreachableCode));
    }
    let l = l.add_rule(LintRule::C090(UnreachableCode));
    l
}

} // verus!
