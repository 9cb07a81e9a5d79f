//! C#
use vstd::prelude::*;
use crate::lint::config::{LintConfig, enabled};
use crate::lint::error::{ErrorView, Severity, opt_str_view};
use crate::lint::linter::{Linter, lemma_fresh};
use crate::lint::registry::LintRule;
use crate::lint::report::LintReport;
use crate::lint::rule::Rule;
use crate::lint::edit::{Fix, single_fix};
use crate::lint::support::{lemma_line_fits, sum_pieces, line_offset, Tmpl, at, col_errors, hit_cols, once, tmpl, finding, make_error, report_hits, report_once, report_cols, lemma_lines_bounds, lemma_lines_total, total_chars, lemma_total_chars_take};
use crate::linters::common::{count_matches, count_matches_exec, count_lit, find_col, find_col_exec, word_errors, report_words, comma_needs_space, comma_needs_space_exec, brace_needs_space, brace_needs_space_exec, brace_prev_ascii, brace_prev_ascii_exec, match_errors, report_matches, all_true, trues, trailing_ws_errors, acc_offsets, piece_offsets, report_trailing_ws, acc_offsets_exec, piece_offsets_exec, unreachable_errors, report_unreachable};
use crate::text::{lines, views, contains, starts_with, ends_with, trim, trim_start, trim_end, upper, lower, chars_of, lines_of_str, contains_lit, starts_with_lit, ends_with_lit, eq_lit, trimmed, trimmed_start, trimmed_end, upper_of, lower_of, owned, string_of, slice_of, find, find_char, find_lit, find_chars, lemma_find, matches_at, is_ws, is_whitespace, utf8_len, byte_len, prefix_bytes, any_upper, has_upper, lemma_utf8_len_take, lemma_utf8_len_subrange, split_char, fits, match_indices, match_positions_lit, char_width, split_on, contains_char, numeric_char, is_numeric};

verus! {

/// CS001: Trailing whitespace.
#[derive(Clone, Copy, Debug)]
pub struct TrailingWhitespace;

impl Rule for TrailingWhitespace {
    open spec fn spec_id(&self) -> Seq<char> {
        "CS001"@
    }

    open spec fn spec_severity(&self) -> Severity {
        Severity::Info
    }

    open spec fn is_pure(&self) -> bool {
        true
    }

    open spec fn accepts(&self, source: Seq<char>, disabled: Seq<Seq<char>>) -> bool {
        true
    }

    fn id(&self) -> (r: &'static str) {
        "CS001"
    }

    fn severity(&self) -> (s: Severity) {
        Severity::Info
    }

    fn admits(&self, source: &str, config: &LintConfig) -> (b: bool) {
        true
    }

    open spec fn findings(&self, file: Option<Seq<char>>, source: Seq<char>, disabled: Seq<Seq<char>>) -> Seq<ErrorView> {
        if enabled(disabled, "CS001"@) {
            trailing_ws_errors(lines(source), acc_offsets(lines(source)), tmpl(file, Severity::Info, "CS001"@, "Trailing whitespace"@, "Remove trailing whitespace"@))
        } else {
            seq![]
        }
    }

    fn check(&self, file: Option<&str>, source: &str, report: &mut LintReport, config: &LintConfig) {
        if !config.is_enabled(self.id()) {
            return;
        }
        let ls = lines_of_str(source);
        proof {
            lemma_lines_bounds(source@);
        }
        let offs = acc_offsets_exec(&ls, Ghost(source@));
        report_trailing_ws(report, file, &ls, &offs, Severity::Info, "CS001", "Trailing whitespace", "Remove trailing whitespace");
    }
}

/// CS010: Console.WriteLine detected.
#[derive(Clone, Copy, Debug)]
pub struct ConsoleWriteLineUsage;

/// Whether a line is reported by CS010.
pub open spec fn cs010_hit(l: Seq<char>) -> bool {
    contains(l, "Console.WriteLine"@)
}

fn cs010_test(l: &[char]) -> (b: bool)
    ensures
        b == cs010_hit(l@),
{
    contains_lit(l, "Console.WriteLine")
}

impl Rule for ConsoleWriteLineUsage {
    open spec fn spec_id(&self) -> Seq<char> {
        "CS010"@
    }

    open spec fn spec_severity(&self) -> Severity {
        Severity::Info
    }

    open spec fn is_pure(&self) -> bool {
        true
    }

    open spec fn accepts(&self, source: Seq<char>, disabled: Seq<Seq<char>>) -> bool {
        true
    }

    fn id(&self) -> (r: &'static str) {
        "CS010"
    }

    fn severity(&self) -> (s: Severity) {
        Severity::Info
    }

    fn admits(&self, source: &str, config: &LintConfig) -> (b: bool) {
        true
    }

    open spec fn findings(&self, file: Option<Seq<char>>, source: Seq<char>, disabled: Seq<Seq<char>>) -> Seq<ErrorView> {
        if enabled(disabled, "CS010"@) {
            col_errors(hit_cols(lines(source).map_values(|l: Seq<char>| cs010_hit(l))), tmpl(file, Severity::Info, "CS010"@, "Console.WriteLine detected"@, "Remove debug logging in production code"@))
        } else {
            seq![]
        }
    }

    fn check(&self, file: Option<&str>, source: &str, report: &mut LintReport, config: &LintConfig) {
        if !config.is_enabled(self.id()) {
            return;
        }
        let ls = lines_of_str(source);
        proof {
            lemma_lines_bounds(source@);
        }
        let mut hits: Vec<bool> = Vec::new();
        let mut i: usize = 0;
        while i < ls.len()
            invariant
                i <= ls@.len(),
                hits@.len() == i,
                views(ls@) == lines(source@),
                forall|j: int| 0 <= j < i ==> hits@[j] == cs010_hit(lines(source@)[j]),
            decreases ls@.len() - i,
        {
            assert(views(ls@)[i as int] == ls@[i as int]@);
            hits.push(cs010_test(ls[i].as_slice()));
            i += 1;
        }
        assert(hits@ =~= lines(source@).map_values(|l: Seq<char>| cs010_hit(l)));
        report_hits(report, file, &hits, Severity::Info, "CS010", "Console.WriteLine detected", "Remove debug logging in production code");
    }
}

/// CS020: Avoid async void methods.
#[derive(Clone, Copy, Debug)]
pub struct AsyncVoidUsage;

/// Whether a line is reported by CS020.
pub open spec fn cs020_hit(l: Seq<char>) -> bool {
    contains(l, "async void"@)
}

fn cs020_test(l: &[char]) -> (b: bool)
    ensures
        b == cs020_hit(l@),
{
    contains_lit(l, "async void")
}

impl Rule for AsyncVoidUsage {
    open spec fn spec_id(&self) -> Seq<char> {
        "CS020"@
    }

    open spec fn spec_severity(&self) -> Severity {
        Severity::Error
    }

    open spec fn is_pure(&self) -> bool {
        true
    }

    open spec fn accepts(&self, source: Seq<char>, disabled: Seq<Seq<char>>) -> bool {
        true
    }

    fn id(&self) -> (r: &'static str) {
        "CS020"
    }

    fn severity(&self) -> (s: Severity) {
        Severity::Error
    }

    fn admits(&self, source: &str, config: &LintConfig) -> (b: bool) {
        true
    }

    open spec fn findings(&self, file: Option<Seq<char>>, source: Seq<char>, disabled: Seq<Seq<char>>) -> Seq<ErrorView> {
        if enabled(disabled, "CS020"@) {
            col_errors(hit_cols(lines(source).map_values(|l: Seq<char>| cs020_hit(l))), tmpl(file, Severity::Error, "CS020"@, "Avoid async void methods"@, "Use async Task instead"@))
        } else {
            seq![]
        }
    }

    fn check(&self, file: Option<&str>, source: &str, report: &mut LintReport, config: &LintConfig) {
        if !config.is_enabled(self.id()) {
            return;
        }
        let ls = lines_of_str(source);
        proof {
            lemma_lines_bounds(source@);
        }
        let mut hits: Vec<bool> = Vec::new();
        let mut i: usize = 0;
        while i < ls.len()
            invariant
                i <= ls@.len(),
                hits@.len() == i,
                views(ls@) == lines(source@),
                forall|j: int| 0 <= j < i ==> hits@[j] == cs020_hit(lines(source@)[j]),
            decreases ls@.len() - i,
        {
            assert(views(ls@)[i as int] == ls@[i as int]@);
            hits.push(cs020_test(ls[i].as_slice()));
            i += 1;
        }
        assert(hits@ =~= lines(source@).map_values(|l: Seq<char>| cs020_hit(l)));
        report_hits(report, file, &hits, Severity::Error, "CS020", "Avoid async void methods", "Use async Task instead");
    }
}

/// CS030: Blocking on Task.Result detected.
#[derive(Clone, Copy, Debug)]
pub struct TaskResultUsage;

/// Whether CS030 reports a source.
pub open spec fn cs030_hit(file: Option<Seq<char>>, src: Seq<char>) -> bool {
    contains(src, ".Result"@)
}

fn cs030_test(file: Option<&str>, src: &[char]) -> (b: bool)
    requires
        fits(src@),
    ensures
        b == cs030_hit(opt_str_view(file), src@),
{
    contains_lit(src, ".Result")
}

impl Rule for TaskResultUsage {
    open spec fn spec_id(&self) -> Seq<char> {
        "CS030"@
    }

    open spec fn spec_severity(&self) -> Severity {
        Severity::Warning
    }

    open spec fn is_pure(&self) -> bool {
        true
    }

    open spec fn accepts(&self, source: Seq<char>, disabled: Seq<Seq<char>>) -> bool {
        true
    }

    fn id(&self) -> (r: &'static str) {
        "CS030"
    }

    fn severity(&self) -> (s: Severity) {
        Severity::Warning
    }

    fn admits(&self, source: &str, config: &LintConfig) -> (b: bool) {
        true
    }

    open spec fn findings(&self, file: Option<Seq<char>>, source: Seq<char>, disabled: Seq<Seq<char>>) -> Seq<ErrorView> {
        if enabled(disabled, "CS030"@) {
            once(cs030_hit(file, source), tmpl(file, Severity::Warning, "CS030"@, "Blocking on Task.Result detected"@, "Use await instead of .Result"@))
        } else {
            seq![]
        }
    }

    fn check(&self, file: Option<&str>, source: &str, report: &mut LintReport, config: &LintConfig) {
        if !config.is_enabled(self.id()) {
            return;
        }
        let src = chars_of(source);
        let hit = cs030_test(file, src.as_slice());
        report_once(report, file, hit, Severity::Warning, "CS030", "Blocking on Task.Result detected", "Use await instead of .Result");
    }
}

/// CS040: Empty catch block detected.
#[derive(Clone, Copy, Debug)]
pub struct EmptyCatchBlock;

/// Whether CS040 reports a source.
pub open spec fn cs040_hit(file: Option<Seq<char>>, src: Seq<char>) -> bool {
    contains(src, "catch"@) && contains(src, "{}"@)
}

fn cs040_test(file: Option<&str>, src: &[char]) -> (b: bool)
    requires
        fits(src@),
    ensures
        b == cs040_hit(opt_str_view(file), src@),
{
    contains_lit(src, "catch") && contains_lit(src, "{}")
}

impl Rule for EmptyCatchBlock {
    open spec fn spec_id(&self) -> Seq<char> {
        "CS040"@
    }

    open spec fn spec_severity(&self) -> Severity {
        Severity::Warning
    }

    open spec fn is_pure(&self) -> bool {
        true
    }

    open spec fn accepts(&self, source: Seq<char>, disabled: Seq<Seq<char>>) -> bool {
        true
    }

    fn id(&self) -> (r: &'static str) {
        "CS040"
    }

    fn severity(&self) -> (s: Severity) {
        Severity::Warning
    }

    fn admits(&self, source: &str, config: &LintConfig) -> (b: bool) {
        true
    }

    open spec fn findings(&self, file: Option<Seq<char>>, source: Seq<char>, disabled: Seq<Seq<char>>) -> Seq<ErrorView> {
        if enabled(disabled, "CS040"@) {
            once(cs040_hit(file, source), tmpl(file, Severity::Warning, "CS040"@, "Empty catch block detected"@, "Handle or log the exception"@))
        } else {
            seq![]
        }
    }

    fn check(&self, file: Option<&str>, source: &str, report: &mut LintReport, config: &LintConfig) {
        if !config.is_enabled(self.id()) {
            return;
        }
        let src = chars_of(source);
        let hit = cs040_test(file, src.as_slice());
        report_once(report, file, hit, Severity::Warning, "CS040", "Empty catch block detected", "Handle or log the exception");
    }
}

/// CS050: Null-forgiving operator used.
#[derive(Clone, Copy, Debug)]
pub struct NullForgivingOperator;

/// Whether CS050 reports a source.
pub open spec fn cs050_hit(file: Option<Seq<char>>, src: Seq<char>) -> bool {
    contains(src, "!."@)
}

fn cs050_test(file: Option<&str>, src: &[char]) -> (b: bool)
    requires
        fits(src@),
    ensures
        b == cs050_hit(opt_str_view(file), src@),
{
    contains_lit(src, "!.")
}

impl Rule for NullForgivingOperator {
    open spec fn spec_id(&self) -> Seq<char> {
        "CS050"@
    }

    open spec fn spec_severity(&self) -> Severity {
        Severity::Warning
    }

    open spec fn is_pure(&self) -> bool {
        true
    }

    open spec fn accepts(&self, source: Seq<char>, disabled: Seq<Seq<char>>) -> bool {
        true
    }

    fn id(&self) -> (r: &'static str) {
        "CS050"
    }

    fn severity(&self) -> (s: Severity) {
        Severity::Warning
    }

    fn admits(&self, source: &str, config: &LintConfig) -> (b: bool) {
        true
    }

    open spec fn findings(&self, file: Option<Seq<char>>, source: Seq<char>, disabled: Seq<Seq<char>>) -> Seq<ErrorView> {
        if enabled(disabled, "CS050"@) {
            once(cs050_hit(file, source), tmpl(file, Severity::Warning, "CS050"@, "Null-forgiving operator used"@, "Handle null explicitly instead of using !"@))
        } else {
            seq![]
        }
    }

    fn check(&self, file: Option<&str>, source: &str, report: &mut LintReport, config: &LintConfig) {
        if !config.is_enabled(self.id()) {
            return;
        }
        let src = chars_of(source);
        let hit = cs050_test(file, src.as_slice());
        report_once(report, file, hit, Severity::Warning, "CS050", "Null-forgiving operator used", "Handle null explicitly instead of using !");
    }
}

/// CS060: Public field detected.
#[derive(Clone, Copy, Debug)]
pub struct PublicFieldUsage;

/// Whether a line is reported by CS060.
pub open spec fn cs060_hit(l: Seq<char>) -> bool {
    starts_with(trim_start(l), "public "@) && contains(l, ";"@) && !contains(l, "("@)
}

fn cs060_test(l: &[char]) -> (b: bool)
    ensures
        b == cs060_hit(l@),
{
    starts_with_lit(trimmed_start(l).as_slice(), "public ") && contains_lit(l, ";") && !contains_lit(l, "(")
}

impl Rule for PublicFieldUsage {
    open spec fn spec_id(&self) -> Seq<char> {
        "CS060"@
    }

    open spec fn spec_severity(&self) -> Severity {
        Severity::Warning
    }

    open spec fn is_pure(&self) -> bool {
        true
    }

    open spec fn accepts(&self, source: Seq<char>, disabled: Seq<Seq<char>>) -> bool {
        true
    }

    fn id(&self) -> (r: &'static str) {
        "CS060"
    }

    fn severity(&self) -> (s: Severity) {
        Severity::Warning
    }

    fn admits(&self, source: &str, config: &LintConfig) -> (b: bool) {
        true
    }

    open spec fn findings(&self, file: Option<Seq<char>>, source: Seq<char>, disabled: Seq<Seq<char>>) -> Seq<ErrorView> {
        if enabled(disabled, "CS060"@) {
            col_errors(hit_cols(lines(source).map_values(|l: Seq<char>| cs060_hit(l))), tmpl(file, Severity::Warning, "CS060"@, "Public field detected"@, "Use properties instead of public fields"@))
        } else {
            seq![]
        }
    }

    fn check(&self, file: Option<&str>, source: &str, report: &mut LintReport, config: &LintConfig) {
        if !config.is_enabled(self.id()) {
            return;
        }
        let ls = lines_of_str(source);
        proof {
            lemma_lines_bounds(source@);
        }
        let mut hits: Vec<bool> = Vec::new();
        let mut i: usize = 0;
        while i < ls.len()
            invariant
                i <= ls@.len(),
                hits@.len() == i,
                views(ls@) == lines(source@),
                forall|j: int| 0 <= j < i ==> hits@[j] == cs060_hit(lines(source@)[j]),
            decreases ls@.len() - i,
        {
            assert(views(ls@)[i as int] == ls@[i as int]@);
            hits.push(cs060_test(ls[i].as_slice()));
            i += 1;
        }
        assert(hits@ =~= lines(source@).map_values(|l: Seq<char>| cs060_hit(l)));
        report_hits(report, file, &hits, Severity::Warning, "CS060", "Public field detected", "Use properties instead of public fields");
    }
}

/// CS090: Unreachable code detected.
#[derive(Clone, Copy, Debug)]
pub struct UnreachableCode;

/// Whether a line ends the reachable code for CS090.
pub open spec fn cs090_term(l: Seq<char>) -> bool {
    starts_with(trim_start(l), "return "@)
}

fn cs090_term_test(l: &[char]) -> (b: bool)
    ensures
        b == cs090_term(l@),
{
    starts_with_lit(trimmed_start(l).as_slice(), "return ")
}

impl Rule for UnreachableCode {
    open spec fn spec_id(&self) -> Seq<char> {
        "CS090"@
    }

    open spec fn spec_severity(&self) -> Severity {
        Severity::Error
    }

    open spec fn is_pure(&self) -> bool {
        true
    }

    open spec fn accepts(&self, source: Seq<char>, disabled: Seq<Seq<char>>) -> bool {
        true
    }

    fn id(&self) -> (r: &'static str) {
        "CS090"
    }

    fn severity(&self) -> (s: Severity) {
        Severity::Error
    }

    fn admits(&self, source: &str, config: &LintConfig) -> (b: bool) {
        true
    }

    open spec fn findings(&self, file: Option<Seq<char>>, source: Seq<char>, disabled: Seq<Seq<char>>) -> Seq<ErrorView> {
        if enabled(disabled, "CS090"@) {
            unreachable_errors(lines(source), lines(source).map_values(|l: Seq<char>| cs090_term(l)), tmpl(file, Severity::Error, "CS090"@, "Unreachable code detected"@, "Remove unreachable statements"@))
        } else {
            seq![]
        }
    }

    fn check(&self, file: Option<&str>, source: &str, report: &mut LintReport, config: &LintConfig) {
        if !config.is_enabled(self.id()) {
            return;
        }
        let ls = lines_of_str(source);
        proof {
            lemma_lines_bounds(source@);
        }
        let mut term: Vec<bool> = Vec::new();
        let mut i: usize = 0;
        while i < ls.len()
            invariant
                i <= ls@.len(),
                term@.len() == i,
                views(ls@) == lines(source@),
                forall|j: int| 0 <= j < i ==> term@[j] == cs090_term(lines(source@)[j]),
            decreases ls@.len() - i,
        {
            assert(views(ls@)[i as int] == ls@[i as int]@);
            term.push(cs090_term_test(ls[i].as_slice()));
            i += 1;
        }
        assert(term@ =~= lines(source@).map_values(|l: Seq<char>| cs090_term(l)));
        report_unreachable(report, file, &ls, &term, Severity::Error, "CS090", "Unreachable code detected", "Remove unreachable statements");
    }
}

/// The rules of the C# rule set, in order.
pub open spec fn rule_set() -> Seq<LintRule> {
    seq![LintRule::CS001(TrailingWhitespace), LintRule::CS010(ConsoleWriteLineUsage), LintRule::CS020(AsyncVoidUsage), LintRule::CS030(TaskResultUsage), LintRule::CS040(EmptyCatchBlock), LintRule::CS050(NullForgivingOperator), LintRule::CS060(PublicFieldUsage), LintRule::CS090(UnreachableCode)]
}

/// The C# rule set.
pub fn linter() -> (l: Linter)
    ensures
        l@ == rule_set(),
{
    let l = Linter::new();
    assert(l@ == Seq::<LintRule>::empty());
    proof {
        lemma_fresh(l@, LintRule::CS001(TrailingWhitespace));
    }
    let l = l.add_rule(LintRule::CS001(TrailingWhitespace));
    proof {
        reveal_strlit("CS001");
        reveal_strlit("CS010");
        assert("CS001"@[3] != "CS010"@[3]);
        lemma_fresh(l@, LintRule::CS010(ConsoleWriteLineUsage));
    }
    let l = l.add_rule(LintRule::CS010(ConsoleWriteLineUsage));
    proof {
        reveal_strlit("CS001");
        reveal_strlit("CS010");
        reveal_strlit("CS020");
        assert("CS001"@[3] != "CS020"@[3]);
        assert("CS010"@[3] != "CS020"@[3]);
        lemma_fresh(l@, LintRule::CS020(AsyncVoidUsage));
    }
    let l = l.add_rule(LintRule::CS020(AsyncVoidUsage));
    proof {
        reveal_strlit("CS001");
        reveal_strlit("CS010");
        reveal_strlit("CS020");
        reveal_strlit("CS030");
        assert("CS001"@[3] != "CS030"@[3]);
        assert("CS010"@[3] != "CS030"@[3]);
        assert("CS020"@[3] != "CS030"@[3]);
        lemma_fresh(l@, LintRule::CS030(TaskResultUsage));
    }
    let l = l.add_rule(LintRule::CS030(TaskResultUsage));
    proof {
        reveal_strlit("CS001");
        reveal_strlit("CS010");
        reveal_strlit("CS020");
        reveal_strlit("CS030");
        reveal_strlit("CS040");
        assert("CS001"@[3] != "CS040"@[3]);
        assert("CS010"@[3] != "CS040"@[3]);
        assert("CS020"@[3] != "CS040"@[3]);
        assert("CS030"@[3] != "CS040"@[3]);
        lemma_fresh(l@, LintRule::CS040(EmptyCatchBlock));
    }
    let l = l.add_rule(LintRule::CS040(EmptyCatchBlock));
    proof {
        reveal_strlit("CS001");
        reveal_strlit("CS010");
        reveal_strlit("CS020");
        reveal_strlit("CS030");
        reveal_strlit("CS040");
        reveal_strlit("CS050");
        assert("CS001"@[3] != "CS050"@[3]);
        assert("CS010"@[3] != "CS050"@[3]);
        assert("CS020"@[3] != "CS050"@[3]);
        assert("CS030"@[3] != "CS050"@[3]);
        assert("CS040"@[3] != "CS050"@[3]);
        lemma_fresh(l@, LintRule::CS050(NullForgivingOperator));
    }
    let l = l.add_rule(LintRule::CS050(NullForgivingOperator));
    proof {
        reveal_strlit("CS001");
        reveal_strlit("CS010");
        reveal_strlit("CS020");
        reveal_strlit("CS030");
        reveal_strlit("CS040");
        reveal_strlit("CS050");
        reveal_strlit("CS060");
        assert("CS001"@[3] != "CS060"@[3]);
        assert("CS010"@[3] != "CS060"@[3]);
        assert("CS020"@[3] != "CS060"@[3]);
        assert("CS030"@[3] != "CS060"@[3]);
        assert("CS040"@[3] != "CS060"@[3]);
        assert("CS050"@[3] != "CS060"@[3]);
        lemma_fresh(l@, LintRule::CS060(PublicFieldUsage));
    }
    let l = l.add_rule(LintRule::CS060(PublicFieldUsage));
    proof {
        reveal_strlit("CS001");
        reveal_strlit("CS010");
        reveal_strlit("CS020");
        reveal_strlit("CS030");
        reveal_strlit("CS040");
        reveal_strlit("CS050");
        reveal_strlit("CS060");
        reveal_strlit("CS090");
        assert("CS001"@[3] != "CS090"@[3]);
        assert("CS010"@[3] != "CS090"@[3]);
        assert("CS020"@[3] != "CS090"@[3]);
        assert("CS030"@[3] != "CS090"@[3]);
        assert("CS040"@[3] != "CS090"@[3]);
        assert("CS050"@[3] != "CS090"@[3]);
        assert("CS060"@[3] != "CS090"@[3]);
        lemma_fresh(l@, LintRule::CS090(UnreachableCode));
    }
    let l = l.add_rule(LintRule::CS090(UnreachableCode));
    l
}

} // verus!
