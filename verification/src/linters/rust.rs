//! Rust
use vstd::prelude::*;
use crate::lint::config::{LintConfig, enabled};
use crate::lint::error::{ErrorView, Severity, opt_str_view};
use crate::lint::linter::{Linter, lemma_fresh};
use crate::lint::registry::LintRule;
use crate::lint::report::LintReport;
use crate::lint::rule::Rule;
use crate::lint::edit::{Fix, single_fix};
use crate::lint::support::{lemma_line_fits, sum_pieces, line_offset, Tmpl, at, col_errors, hit_cols, once, tmpl, finding, make_error, report_hits, report_once, report_cols, lemma_lines_bounds, lemma_lines_total, total_chars, lemma_total_chars_take};
use crate::linters::common::{count_matches, count_matches_exec, count_lit, find_col, find_col_exec, word_errors, report_words, comma_needs_space, comma_needs_space_exec, brace_needs_space, brace_needs_space_exec, brace_prev_ascii, brace_prev_ascii_exec, match_errors, report_matches, all_true, trues, trailing_ws_errors, acc_offsets, piece_offsets, report_trailing_ws, acc_offsets_exec, piece_offsets_exec, unreachable_errors, report_unreachable};
use crate::text::{lines, views, contains, starts_with, ends_with, trim, trim_start, trim_end, upper, lower, chars_of, lines_of_str, contains_lit, starts_with_lit, ends_with_lit, eq_lit, trimmed, trimmed_start, trimmed_end, upper_of, lower_of, owned, string_of, slice_of, find, find_char, find_lit, find_chars, lemma_find, matches_at, is_ws, is_whitespace, utf8_len, byte_len, prefix_bytes, any_upper, has_upper, lemma_utf8_len_take, lemma_utf8_len_subrange, split_char, fits, match_indices, match_positions_lit, char_width, split_on, contains_char, numeric_char, is_numeric};

verus! {

/// RUST001: Trailing whitespace.
#[derive(Clone, Copy, Debug)]
pub struct TrailingWhitespace;

impl Rule for TrailingWhitespace {
    open spec fn spec_id(&self) -> Seq<char> {
        "RUST001"@
    }

    open spec fn spec_severity(&self) -> Severity {
        Severity::Info
    }

    open spec fn is_pure(&self) -> bool {
        true
    }

    open spec fn accepts(&self, source: Seq<char>, disabled: Seq<Seq<char>>) -> bool {
        true
    }

    fn id(&self) -> (r: &'static str) {
        "RUST001"
    }

    fn severity(&self) -> (s: Severity) {
        Severity::Info
    }

    fn admits(&self, source: &str, config: &LintConfig) -> (b: bool) {
        true
    }

    open spec fn findings(&self, file: Option<Seq<char>>, source: Seq<char>, disabled: Seq<Seq<char>>) -> Seq<ErrorView> {
        if enabled(disabled, "RUST001"@) {
            trailing_ws_errors(lines(source), piece_offsets(source), tmpl(file, Severity::Info, "RUST001"@, "Trailing whitespace"@, "Remove trailing whitespace"@))
        } else {
            seq![]
        }
    }

    fn check(&self, file: Option<&str>, source: &str, report: &mut LintReport, config: &LintConfig) {
        if !config.is_enabled(self.id()) {
            return;
        }
        let ls = lines_of_str(source);
        proof {
            lemma_lines_bounds(source@);
        }
        let src = chars_of(source);
        let offs = piece_offsets_exec(src.as_slice());
        assert forall|i: int| 0 <= i < ls@.len() implies offs@[i] + utf8_len(#[trigger] ls@[i]@) <= usize::MAX by {
            assert(views(ls@)[i] == ls@[i]@);
        }
        report_trailing_ws(report, file, &ls, &offs, Severity::Info, "RUST001", "Trailing whitespace", "Remove trailing whitespace");
    }
}

/// RUST010: Wildcard import.
#[derive(Clone, Copy, Debug)]
pub struct WildcardImport;

/// Whether a line is reported by RUST010.
pub open spec fn rust010_hit(l: Seq<char>) -> bool {
    starts_with(trim(l), "use "@) && contains(l, "::*"@)
}

fn rust010_test(l: &[char]) -> (b: bool)
    ensures
        b == rust010_hit(l@),
{
    starts_with_lit(trimmed(l).as_slice(), "use ") && contains_lit(l, "::*")
}

impl Rule for WildcardImport {
    open spec fn spec_id(&self) -> Seq<char> {
        "RUST010"@
    }

    open spec fn spec_severity(&self) -> Severity {
        Severity::Warning
    }

    open spec fn is_pure(&self) -> bool {
        true
    }

    open spec fn accepts(&self, source: Seq<char>, disabled: Seq<Seq<char>>) -> bool {
        true
    }

    fn id(&self) -> (r: &'static str) {
        "RUST010"
    }

    fn severity(&self) -> (s: Severity) {
        Severity::Warning
    }

    fn admits(&self, source: &str, config: &LintConfig) -> (b: bool) {
        true
    }

    open spec fn findings(&self, file: Option<Seq<char>>, source: Seq<char>, disabled: Seq<Seq<char>>) -> Seq<ErrorView> {
        if enabled(disabled, "RUST010"@) {
            col_errors(hit_cols(lines(source).map_values(|l: Seq<char>| rust010_hit(l))), tmpl(file, Severity::Warning, "RUST010"@, "Wildcard import"@, "Import specific items instead"@))
        } else {
            seq![]
        }
    }

    fn check(&self, file: Option<&str>, source: &str, report: &mut LintReport, config: &LintConfig) {
        if !config.is_enabled(self.id()) {
            return;
        }
        let ls = lines_of_str(source);
        proof {
            lemma_lines_bounds(source@);
        }
        let mut hits: Vec<bool> = Vec::new();
        let mut i: usize = 0;
        while i < ls.len()
            invariant
                i <= ls@.len(),
                hits@.len() == i,
                views(ls@) == lines(source@),
                forall|j: int| 0 <= j < i ==> hits@[j] == rust010_hit(lines(source@)[j]),
            decreases ls@.len() - i,
        {
            assert(views(ls@)[i as int] == ls@[i as int]@);
            hits.push(rust010_test(ls[i].as_slice()));
            i += 1;
        }
        assert(hits@ =~= lines(source@).map_values(|l: Seq<char>| rust010_hit(l)));
        report_hits(report, file, &hits, Severity::Warning, "RUST010", "Wildcard import", "Import specific items instead");
    }
}

/// RUST002: Tab indentation found.
#[derive(Clone, Copy, Debug)]
pub struct TabIndentation;

impl Rule for TabIndentation {
    open spec fn spec_id(&self) -> Seq<char> {
        "RUST002"@
    }

    open spec fn spec_severity(&self) -> Severity {
        Severity::Warning
    }

    open spec fn is_pure(&self) -> bool {
        true
    }

    open spec fn accepts(&self, source: Seq<char>, disabled: Seq<Seq<char>>) -> bool {
        true
    }

    open spec fn findings(&self, file: Option<Seq<char>>, source: Seq<char>, disabled: Seq<Seq<char>>) -> Seq<ErrorView> {
        if enabled(disabled, "RUST002"@) {
            match_errors(source, match_indices(source, "\t"@), trues(match_indices(source, "\t"@).len() as int), tmpl(file, Severity::Warning, "RUST002"@, "Tab indentation found"@, "Replace with 4 spaces"@), Some((0, 1, "    "@)))
        } else {
            seq![]
        }
    }

    fn id(&self) -> (r: &'static str) {
        "RUST002"
    }

    fn severity(&self) -> (s: Severity) {
        Severity::Warning
    }

    fn admits(&self, source: &str, config: &LintConfig) -> (b: bool) {
        true
    }

    fn check(&self, file: Option<&str>, source: &str, report: &mut LintReport, config: &LintConfig) {
        if !config.is_enabled(self.id()) {
            return;
        }
        let src = chars_of(source);
        let ghost before = report@;
        {
            proof {
                reveal_strlit("\t");
            }
            let ks = match_positions_lit(src.as_slice(), "\t");
            proof {
                assert(ks@.map_values(|k: usize| k as int) == match_indices(source@, "\t"@));
                assert forall|t: int| 0 <= t < ks@.len() implies #[trigger] ks@[t] <= src@.len() by {
                    assert(ks@[t] + "\t"@.len() <= src@.len());
                }
            }
        let conds = all_true(ks.len());
        assert(conds@ =~= trues(match_indices(source@, "\t"@).len() as int));
            report_matches(report, file, src.as_slice(), &ks, &conds, Severity::Warning, "RUST002", "Tab indentation found", "Replace with 4 spaces", Some((0, 1, "    ")));
        }
    }
}



/// RUST003: Missing space after comma.
#[derive(Clone, Copy, Debug)]
pub struct MissingSpaceAfterComma;

impl Rule for MissingSpaceAfterComma {
    open spec fn spec_id(&self) -> Seq<char> {
        "RUST003"@
    }

    open spec fn spec_severity(&self) -> Severity {
        Severity::Warning
    }

    open spec fn is_pure(&self) -> bool {
        true
    }

    open spec fn accepts(&self, source: Seq<char>, disabled: Seq<Seq<char>>) -> bool {
        true
    }

    open spec fn findings(&self, file: Option<Seq<char>>, source: Seq<char>, disabled: Seq<Seq<char>>) -> Seq<ErrorView> {
        if enabled(disabled, "RUST003"@) {
            match_errors(source, match_indices(source, ","@), match_indices(source, ","@).map_values(|k: int| comma_needs_space(source, k)), tmpl(file, Severity::Warning, "RUST003"@, "Missing space after comma"@, "Add space after comma"@), Some((1, 1, " "@)))
        } else {
            seq![]
        }
    }

    fn id(&self) -> (r: &'static str) {
        "RUST003"
    }

    fn severity(&self) -> (s: Severity) {
        Severity::Warning
    }

    fn admits(&self, source: &str, config: &LintConfig) -> (b: bool) {
        true
    }

    fn check(&self, file: Option<&str>, source: &str, report: &mut LintReport, config: &LintConfig) {
        if !config.is_enabled(self.id()) {
            return;
        }
        let src = chars_of(source);
        let ghost before = report@;
        {
            proof {
                reveal_strlit(",");
            }
            let ks = match_positions_lit(src.as_slice(), ",");
            proof {
                assert(ks@.map_values(|k: usize| k as int) == match_indices(source@, ","@));
                assert forall|t: int| 0 <= t < ks@.len() implies #[trigger] ks@[t] <= src@.len() by {
                    assert(ks@[t] + ","@.len() <= src@.len());
                }
            }
        let mut conds: Vec<bool> = Vec::new();
        let mut j: usize = 0;
        while j < ks.len()
            invariant
                src@ == source@,
                j <= ks@.len(),
                conds@.len() == j,
                forall|t: int| 0 <= t < ks@.len() ==> #[trigger] ks@[t] + ","@.len() <= src@.len(),
                forall|t: int| 0 <= t < j ==> conds@[t] == comma_needs_space(source@, ks@[t] as int),
            decreases ks@.len() - j,
        {
            conds.push(comma_needs_space_exec(src.as_slice(), ks[j]));
            j += 1;
        }
        assert(conds@ =~= match_indices(source@, ","@).map_values(|k: int| comma_needs_space(source@, k)));
            report_matches(report, file, src.as_slice(), &ks, &conds, Severity::Warning, "RUST003", "Missing space after comma", "Add space after comma", Some((1, 1, " ")));
        }
    }
}



/// RUST004: Missing space before '{'.
#[derive(Clone, Copy, Debug)]
pub struct SpaceBeforeBrace;

impl Rule for SpaceBeforeBrace {
    open spec fn spec_id(&self) -> Seq<char> {
        "RUST004"@
    }

    open spec fn spec_severity(&self) -> Severity {
        Severity::Warning
    }

    open spec fn is_pure(&self) -> bool {
        true
    }

    open spec fn accepts(&self, source: Seq<char>, disabled: Seq<Seq<char>>) -> bool {
        !enabled(disabled, "RUST004"@) || (brace_prev_ascii(source))
    }

    open spec fn findings(&self, file: Option<Seq<char>>, source: Seq<char>, disabled: Seq<Seq<char>>) -> Seq<ErrorView> {
        if enabled(disabled, "RUST004"@) {
            match_errors(source, match_indices(source, "{"@), match_indices(source, "{"@).map_values(|k: int| brace_needs_space(source, k)), tmpl(file, Severity::Warning, "RUST004"@, "Missing space before '{'"@, "Add space before '{'"@), Some((0, 0, " "@)))
        } else {
            seq![]
        }
    }

    fn id(&self) -> (r: &'static str) {
        "RUST004"
    }

    fn severity(&self) -> (s: Severity) {
        Severity::Warning
    }

    fn admits(&self, source: &str, config: &LintConfig) -> (b: bool) {
        if !config.is_enabled(self.id()) {
            return true;
        }
        brace_prev_ascii_exec(source)
    }

    fn check(&self, file: Option<&str>, source: &str, report: &mut LintReport, config: &LintConfig) {
        if !config.is_enabled(self.id()) {
            return;
        }
        let src = chars_of(source);
        let ghost before = report@;
        {
            proof {
                reveal_strlit("{");
            }
            let ks = match_positions_lit(src.as_slice(), "{");
            proof {
                assert(ks@.map_values(|k: usize| k as int) == match_indices(source@, "{"@));
                assert forall|t: int| 0 <= t < ks@.len() implies #[trigger] ks@[t] <= src@.len() by {
                    assert(ks@[t] + "{"@.len() <= src@.len());
                }
            }
        let mut conds: Vec<bool> = Vec::new();
        let mut j: usize = 0;
        while j < ks.len()
            invariant
                src@ == source@,
                j <= ks@.len(),
                conds@.len() == j,
                forall|t: int| 0 <= t < ks@.len() ==> #[trigger] ks@[t] + "{"@.len() <= src@.len(),
                forall|t: int| 0 <= t < j ==> conds@[t] == brace_needs_space(source@, ks@[t] as int),
            decreases ks@.len() - j,
        {
            conds.push(brace_needs_space_exec(src.as_slice(), ks[j]));
            j += 1;
        }
        assert(conds@ =~= match_indices(source@, "{"@).map_values(|k: int| brace_needs_space(source@, k)));
            report_matches(report, file, src.as_slice(), &ks, &conds, Severity::Warning, "RUST004", "Missing space before '{'", "Add space before '{'", Some((0, 0, " ")));
        }
    }
}



/// RUST005: Boolean must be lowercase.
#[derive(Clone, Copy, Debug)]
pub struct UppercaseBoolean;

impl Rule for UppercaseBoolean {
    open spec fn spec_id(&self) -> Seq<char> {
        "RUST005"@
    }

    open spec fn spec_severity(&self) -> Severity {
        Severity::Error
    }

    open spec fn is_pure(&self) -> bool {
        true
    }

    open spec fn accepts(&self, source: Seq<char>, disabled: Seq<Seq<char>>) -> bool {
        true
    }

    open spec fn findings(&self, file: Option<Seq<char>>, source: Seq<char>, disabled: Seq<Seq<char>>) -> Seq<ErrorView> {
        if enabled(disabled, "RUST005"@) {
            match_errors(source, match_indices(source, "True"@), trues(match_indices(source, "True"@).len() as int), tmpl(file, Severity::Error, "RUST005"@, "Boolean must be lowercase"@, "Use 'true'"@), Some((0, 4, "true"@))) + match_errors(source, match_indices(source, "False"@), trues(match_indices(source, "False"@).len() as int), tmpl(file, Severity::Error, "RUST005"@, "Boolean must be lowercase"@, "Use 'false'"@), Some((0, 5, "false"@)))
        } else {
            seq![]
        }
    }

    fn id(&self) -> (r: &'static str) {
        "RUST005"
    }

    fn severity(&self) -> (s: Severity) {
        Severity::Error
    }

    fn admits(&self, source: &str, config: &LintConfig) -> (b: bool) {
        true
    }

    fn check(&self, file: Option<&str>, source: &str, report: &mut LintReport, config: &LintConfig) {
        if !config.is_enabled(self.id()) {
            return;
        }
        let src = chars_of(source);
        let ghost before = report@;
        {
            proof {
                reveal_strlit("True");
            }
            let ks = match_positions_lit(src.as_slice(), "True");
            proof {
                assert(ks@.map_values(|k: usize| k as int) == match_indices(source@, "True"@));
                assert forall|t: int| 0 <= t < ks@.len() implies #[trigger] ks@[t] <= src@.len() by {
                    assert(ks@[t] + "True"@.len() <= src@.len());
                }
            }
        let conds = all_true(ks.len());
        assert(conds@ =~= trues(match_indices(source@, "True"@).len() as int));
            report_matches(report, file, src.as_slice(), &ks, &conds, Severity::Error, "RUST005", "Boolean must be lowercase", "Use 'true'", Some((0, 4, "true")));
        }
        {
            proof {
                reveal_strlit("False");
            }
            let ks = match_positions_lit(src.as_slice(), "False");
            proof {
                assert(ks@.map_values(|k: usize| k as int) == match_indices(source@, "False"@));
                assert forall|t: int| 0 <= t < ks@.len() implies #[trigger] ks@[t] <= src@.len() by {
                    assert(ks@[t] + "False"@.len() <= src@.len());
                }
            }
        let conds = all_true(ks.len());
        assert(conds@ =~= trues(match_indices(source@, "False"@).len() as int));
            report_matches(report, file, src.as_slice(), &ks, &conds, Severity::Error, "RUST005", "Boolean must be lowercase", "Use 'false'", Some((0, 5, "false")));
        }
    }
}



/// RUST006: Avoid unwrap() in production code.
#[derive(Clone, Copy, Debug)]
pub struct UnwrapUsage;

impl Rule for UnwrapUsage {
    open spec fn spec_id(&self) -> Seq<char> {
        "RUST006"@
    }

    open spec fn spec_severity(&self) -> Severity {
        Severity::Warning
    }

    open spec fn is_pure(&self) -> bool {
        true
    }

    open spec fn accepts(&self, source: Seq<char>, disabled: Seq<Seq<char>>) -> bool {
        true
    }

    open spec fn findings(&self, file: Option<Seq<char>>, source: Seq<char>, disabled: Seq<Seq<char>>) -> Seq<ErrorView> {
        if enabled(disabled, "RUST006"@) {
            match_errors(source, match_indices(source, ".unwrap()"@), trues(match_indices(source, ".unwrap()"@).len() as int), tmpl(file, Severity::Warning, "RUST006"@, "Avoid unwrap() in production code"@, "Handle error explicitly"@), None)
        } else {
            seq![]
        }
    }

    fn id(&self) -> (r: &'static str) {
        "RUST006"
    }

    fn severity(&self) -> (s: Severity) {
        Severity::Warning
    }

    fn admits(&self, source: &str, config: &LintConfig) -> (b: bool) {
        true
    }

    fn check(&self, file: Option<&str>, source: &str, report: &mut LintReport, config: &LintConfig) {
        if !config.is_enabled(self.id()) {
            return;
        }
        let src = chars_of(source);
        let ghost before = report@;
        {
            proof {
                reveal_strlit(".unwrap()");
            }
            let ks = match_positions_lit(src.as_slice(), ".unwrap()");
            proof {
                assert(ks@.map_values(|k: usize| k as int) == match_indices(source@, ".unwrap()"@));
                assert forall|t: int| 0 <= t < ks@.len() implies #[trigger] ks@[t] <= src@.len() by {
                    assert(ks@[t] + ".unwrap()"@.len() <= src@.len());
                }
            }
        let conds = all_true(ks.len());
        assert(conds@ =~= trues(match_indices(source@, ".unwrap()"@).len() as int));
            report_matches(report, file, src.as_slice(), &ks, &conds, Severity::Warning, "RUST006", "Avoid unwrap() in production code", "Handle error explicitly", None);
        }
    }
}



/// RUST007: todo!() found.
#[derive(Clone, Copy, Debug)]
pub struct TodoMacro;

impl Rule for TodoMacro {
    open spec fn spec_id(&self) -> Seq<char> {
        "RUST007"@
    }

    open spec fn spec_severity(&self) -> Severity {
        Severity::Error
    }

    open spec fn is_pure(&self) -> bool {
        true
    }

    open spec fn accepts(&self, source: Seq<char>, disabled: Seq<Seq<char>>) -> bool {
        true
    }

    open spec fn findings(&self, file: Option<Seq<char>>, source: Seq<char>, disabled: Seq<Seq<char>>) -> Seq<ErrorView> {
        if enabled(disabled, "RUST007"@) {
            match_errors(source, match_indices(source, "todo!()"@), trues(match_indices(source, "todo!()"@).len() as int), tmpl(file, Severity::Error, "RUST007"@, "todo!() found"@, "Remove before production"@), None)
        } else {
            seq![]
        }
    }

    fn id(&self) -> (r: &'static str) {
        "RUST007"
    }

    fn severity(&self) -> (s: Severity) {
        Severity::Error
    }

    fn admits(&self, source: &str, config: &LintConfig) -> (b: bool) {
        true
    }

    fn check(&self, file: Option<&str>, source: &str, report: &mut LintReport, config: &LintConfig) {
        if !config.is_enabled(self.id()) {
            return;
        }
        let src = chars_of(source);
        let ghost before = report@;
        {
            proof {
                reveal_strlit("todo!()");
            }
            let ks = match_positions_lit(src.as_slice(), "todo!()");
            proof {
                assert(ks@.map_values(|k: usize| k as int) == match_indices(source@, "todo!()"@));
                assert forall|t: int| 0 <= t < ks@.len() implies #[trigger] ks@[t] <= src@.len() by {
                    assert(ks@[t] + "todo!()"@.len() <= src@.len());
                }
            }
        let conds = all_true(ks.len());
        assert(conds@ =~= trues(match_indices(source@, "todo!()"@).len() as int));
            report_matches(report, file, src.as_slice(), &ks, &conds, Severity::Error, "RUST007", "todo!() found", "Remove before production", None);
        }
    }
}



/// RUST008: dbg! macro found.
#[derive(Clone, Copy, Debug)]
pub struct DebugMacro;

impl Rule for DebugMacro {
    open spec fn spec_id(&self) -> Seq<char> {
        "RUST008"@
    }

    open spec fn spec_severity(&self) -> Severity {
        Severity::Warning
    }

    open spec fn is_pure(&self) -> bool {
        true
    }

    open spec fn accepts(&self, source: Seq<char>, disabled: Seq<Seq<char>>) -> bool {
        true
    }

    open spec fn findings(&self, file: Option<Seq<char>>, source: Seq<char>, disabled: Seq<Seq<char>>) -> Seq<ErrorView> {
        if enabled(disabled, "RUST008"@) {
            match_errors(source, match_indices(source, "dbg!("@), trues(match_indices(source, "dbg!("@).len() as int), tmpl(file, Severity::Warning, "RUST008"@, "dbg! macro found"@, "Remove debug macro"@), None)
        } else {
            seq![]
        }
    }

    fn id(&self) -> (r: &'static str) {
        "RUST008"
    }

    fn severity(&self) -> (s: Severity) {
        Severity::Warning
    }

    fn admits(&self, source: &str, config: &LintConfig) -> (b: bool) {
        true
    }

    fn check(&self, file: Option<&str>, source: &str, report: &mut LintReport, config: &LintConfig) {
        if !config.is_enabled(self.id()) {
            return;
        }
        let src = chars_of(source);
        let ghost before = report@;
        {
            proof {
                reveal_strlit("dbg!(");
            }
            let ks = match_positions_lit(src.as_slice(), "dbg!(");
            proof {
                assert(ks@.map_values(|k: usize| k as int) == match_indices(source@, "dbg!("@));
                assert forall|t: int| 0 <= t < ks@.len() implies #[trigger] ks@[t] <= src@.len() by {
                    assert(ks@[t] + "dbg!("@.len() <= src@.len());
                }
            }
        let conds = all_true(ks.len());
        assert(conds@ =~= trues(match_indices(source@, "dbg!("@).len() as int));
            report_matches(report, file, src.as_slice(), &ks, &conds, Severity::Warning, "RUST008", "dbg! macro found", "Remove debug macro", None);
        }
    }
}



/// RUST009: Double semicolon.
#[derive(Clone, Copy, Debug)]
pub struct DoubleSemicolon;

impl Rule for DoubleSemicolon {
    open spec fn spec_id(&self) -> Seq<char> {
        "RUST009"@
    }

    open spec fn spec_severity(&self) -> Severity {
        Severity::Warning
    }

    open spec fn is_pure(&self) -> bool {
        true
    }

    open spec fn accepts(&self, source: Seq<char>, disabled: Seq<Seq<char>>) -> bool {
        true
    }

    open spec fn findings(&self, file: Option<Seq<char>>, source: Seq<char>, disabled: Seq<Seq<char>>) -> Seq<ErrorView> {
        if enabled(disabled, "RUST009"@) {
            match_errors(source, match_indices(source, ";;"@), trues(match_indices(source, ";;"@).len() as int), tmpl(file, Severity::Warning, "RUST009"@, "Double semicolon"@, "Remove extra semicolon"@), Some((0, 1, ""@)))
        } else {
            seq![]
        }
    }

    fn id(&self) -> (r: &'static str) {
        "RUST009"
    }

    fn severity(&self) -> (s: Severity) {
        Severity::Warning
    }

    fn admits(&self, source: &str, config: &LintConfig) -> (b: bool) {
        true
    }

    fn check(&self, file: Option<&str>, source: &str, report: &mut LintReport, config: &LintConfig) {
        if !config.is_enabled(self.id()) {
            return;
        }
        let src = chars_of(source);
        let ghost before = report@;
        {
            proof {
                reveal_strlit(";;");
            }
            let ks = match_positions_lit(src.as_slice(), ";;");
            proof {
                assert(ks@.map_values(|k: usize| k as int) == match_indices(source@, ";;"@));
                assert forall|t: int| 0 <= t < ks@.len() implies #[trigger] ks@[t] <= src@.len() by {
                    assert(ks@[t] + ";;"@.len() <= src@.len());
                }
            }
        let conds = all_true(ks.len());
        assert(conds@ =~= trues(match_indices(source@, ";;"@).len() as int));
            report_matches(report, file, src.as_slice(), &ks, &conds, Severity::Warning, "RUST009", "Double semicolon", "Remove extra semicolon", Some((0, 1, "")));
        }
    }
}



/// RUST011: Empty block.
#[derive(Clone, Copy, Debug)]
pub struct EmptyBlock;

impl Rule for EmptyBlock {
    open spec fn spec_id(&self) -> Seq<char> {
        "RUST011"@
    }

    open spec fn spec_severity(&self) -> Severity {
        Severity::Info
    }

    open spec fn is_pure(&self) -> bool {
        true
    }

    open spec fn accepts(&self, source: Seq<char>, disabled: Seq<Seq<char>>) -> bool {
        true
    }

    open spec fn findings(&self, file: Option<Seq<char>>, source: Seq<char>, disabled: Seq<Seq<char>>) -> Seq<ErrorView> {
        if enabled(disabled, "RUST011"@) {
            match_errors(source, match_indices(source, "{ }"@), trues(match_indices(source, "{ }"@).len() as int), tmpl(file, Severity::Info, "RUST011"@, "Empty block"@, "Remove empty block or add implementation"@), None)
        } else {
            seq![]
        }
    }

    fn id(&self) -> (r: &'static str) {
        "RUST011"
    }

    fn severity(&self) -> (s: Severity) {
        Severity::Info
    }

    fn admits(&self, source: &str, config: &LintConfig) -> (b: bool) {
        true
    }

    fn check(&self, file: Option<&str>, source: &str, report: &mut LintReport, config: &LintConfig) {
        if !config.is_enabled(self.id()) {
            return;
        }
        let src = chars_of(source);
        let ghost before = report@;
        {
            proof {
                reveal_strlit("{ }");
            }
            let ks = match_positions_lit(src.as_slice(), "{ }");
            proof {
                assert(ks@.map_values(|k: usize| k as int) == match_indices(source@, "{ }"@));
                assert forall|t: int| 0 <= t < ks@.len() implies #[trigger] ks@[t] <= src@.len() by {
                    assert(ks@[t] + "{ }"@.len() <= src@.len());
                }
            }
        let conds = all_true(ks.len());
        assert(conds@ =~= trues(match_indices(source@, "{ }"@).len() as int));
            report_matches(report, file, src.as_slice(), &ks, &conds, Severity::Info, "RUST011", "Empty block", "Remove empty block or add implementation", None);
        }
    }
}



/// RUST012: Missing trailing newline.
#[derive(Clone, Copy, Debug)]
pub struct TrailingNewline;

impl Rule for TrailingNewline {
    open spec fn spec_id(&self) -> Seq<char> {
        "RUST012"@
    }

    open spec fn spec_severity(&self) -> Severity {
        Severity::Info
    }

    open spec fn is_pure(&self) -> bool {
        true
    }

    open spec fn accepts(&self, source: Seq<char>, disabled: Seq<Seq<char>>) -> bool {
        true
    }

    open spec fn findings(&self, file: Option<Seq<char>>, source: Seq<char>, disabled: Seq<Seq<char>>) -> Seq<ErrorView> {
        if enabled(disabled, "RUST012"@) && !ends_with(source, "\n"@) {
            seq![
                at(
                    tmpl(file, Severity::Info, "RUST012"@, "Missing trailing newline"@, "Add newline at end of file"@),
                    0,
                    0,
                    Some(single_fix("RUST012"@, utf8_len(source) as int, utf8_len(source) as int, "\n"@)),
                ),
            ]
        } else {
            seq![]
        }
    }

    fn id(&self) -> (r: &'static str) {
        "RUST012"
    }

    fn severity(&self) -> (s: Severity) {
        Severity::Info
    }

    fn admits(&self, source: &str, config: &LintConfig) -> (b: bool) {
        true
    }

    fn check(&self, file: Option<&str>, source: &str, report: &mut LintReport, config: &LintConfig) {
        if !config.is_enabled(self.id()) {
            return;
        }
        let src = chars_of(source);
        if !ends_with_lit(src.as_slice(), "\n") {
            let n = byte_len(src.as_slice());
            let fix = Fix::single("RUST012", n, n, owned("\n"));
            report.push(finding(file, 0, 0, Severity::Info, "RUST012", "Missing trailing newline", "Add newline at end of file", Some(fix)));
        }
    }
}

/// The rules of the Rust rule set, in order.
pub open spec fn rule_set() -> Seq<LintRule> {
    seq![LintRule::RUST001(TrailingWhitespace), LintRule::RUST002(TabIndentation), LintRule::RUST003(MissingSpaceAfterComma), LintRule::RUST004(SpaceBeforeBrace), LintRule::RUST005(UppercaseBoolean), LintRule::RUST006(UnwrapUsage), LintRule::RUST007(TodoMacro), LintRule::RUST008(DebugMacro), LintRule::RUST009(DoubleSemicolon), LintRule::RUST010(WildcardImport), LintRule::RUST011(EmptyBlock), LintRule::RUST012(TrailingNewline)]
}

/// The Rust rule set.
pub fn linter() -> (l: Linter)
    ensures
        l@ == rule_set(),
{
    let l = Linter::new();
    assert(l@ == Seq::<LintRule>::empty());
    proof {
        lemma_fresh(l@, LintRule::RUST001(TrailingWhitespace));
    }
    let l = l.add_rule(LintRule::RUST001(TrailingWhitespace));
    proof {
        reveal_strlit("RUST001");
        reveal_strlit("RUST002");
        assert("RUST001"@[6] != "RUST002"@[6]);
        lemma_fresh(l@, LintRule::RUST002(TabIndentation));
    }
    let l = l.add_rule(LintRule::RUST002(TabIndentation));
    proof {
        reveal_strlit("RUST001");
        reveal_strlit("RUST002");
        reveal_strlit("RUST003");
        assert("RUST001"@[6] != "RUST003"@[6]);
        assert("RUST002"@[6] != "RUST003"@[6]);
        lemma_fresh(l@, LintRule::RUST003(MissingSpaceAfterComma));
    }
    let l = l.add_rule(LintRule::RUST003(MissingSpaceAfterComma));
    proof {
        reveal_strlit("RUST001");
        reveal_strlit("RUST002");
        reveal_strlit("RUST003");
        reveal_strlit("RUST004");
        assert("RUST001"@[6] != "RUST004"@[6]);
        assert("RUST002"@[6] != "RUST004"@[6]);
        assert("RUST003"@[6] != "RUST004"@[6]);
        lemma_fresh(l@, LintRule::RUST004(SpaceBeforeBrace));
    }
    let l = l.add_rule(LintRule::RUST004(SpaceBeforeBrace));
    proof {
        reveal_strlit("RUST001");
        reveal_strlit("RUST002");
        reveal_strlit("RUST003");
        reveal_strlit("RUST004");
        reveal_strlit("RUST005");
        assert("RUST001"@[6] != "RUST005"@[6]);
        assert("RUST002"@[6] != "RUST005"@[6]);
        assert("RUST003"@[6] != "RUST005"@[6]);
        assert("RUST004"@[6] != "RUST005"@[6]);
        lemma_fresh(l@, LintRule::RUST005(UppercaseBoolean));
    }
    let l = l.add_rule(LintRule::RUST005(UppercaseBoolean));
    proof {
        reveal_strlit("RUST001");
        reveal_strlit("RUST002");
        reveal_strlit("RUST003");
        reveal_strlit("RUST004");
        reveal_strlit("RUST005");
        reveal_strlit("RUST006");
        assert("RUST001"@[6] != "RUST006"@[6]);
        assert("RUST002"@[6] != "RUST006"@[6]);
        assert("RUST003"@[6] != "RUST006"@[6]);
        assert("RUST004"@[6] != "RUST006"@[6]);
        assert("RUST005"@[6] != "RUST006"@[6]);
        lemma_fresh(l@, LintRule::RUST006(UnwrapUsage));
    }
    let l = l.add_rule(LintRule::RUST006(UnwrapUsage));
    proof {
        reveal_strlit("RUST001");
        reveal_strlit("RUST002");
        reveal_strlit("RUST003");
        reveal_strlit("RUST004");
        reveal_strlit("RUST005");
        reveal_strlit("RUST006");
        reveal_strlit("RUST007");
        assert("RUST001"@[6] != "RUST007"@[6]);
        assert("RUST002"@[6] != "RUST007"@[6]);
        assert("RUST003"@[6] != "RUST007"@[6]);
        assert("RUST004"@[6] != "RUST007"@[6]);
        assert("RUST005"@[6] != "RUST007"@[6]);
        assert("RUST006"@[6] != "RUST007"@[6]);
        lemma_fresh(l@, LintRule::RUST007(TodoMacro));
    }
    let l = l.add_rule(LintRule::RUST007(TodoMacro));
    proof {
        reveal_strlit("RUST001");
        reveal_strlit("RUST002");
        reveal_strlit("RUST003");
        reveal_strlit("RUST004");
        reveal_strlit("RUST005");
        reveal_strlit("RUST006");
        reveal_strlit("RUST007");
        reveal_strlit("RUST008");
        assert("RUST001"@[6] != "RUST008"@[6]);
        assert("RUST002"@[6] != "RUST008"@[6]);
        assert("RUST003"@[6] != "RUST008"@[6]);
        assert("RUST004"@[6] != "RUST008"@[6]);
        assert("RUST005"@[6] != "RUST008"@[6]);
        assert("RUST006"@[6] != "RUST008"@[6]);
        assert("RUST007"@[6] != "RUST008"@[6]);
        lemma_fresh(l@, LintRule::RUST008(DebugMacro));
    }
    let l = l.add_rule(LintRule::RUST008(DebugMacro));
    proof {
        reveal_strlit("RUST001");
        reveal_strlit("RUST002");
        reveal_strlit("RUST003");
        reveal_strlit("RUST004");
        reveal_strlit("RUST005");
        reveal_strlit("RUST006");
        reveal_strlit("RUST007");
        reveal_strlit("RUST008");
        reveal_strlit("RUST009");
        assert("RUST001"@[6] != "RUST009"@[6]);
        assert("RUST002"@[6] != "RUST009"@[6]);
        assert("RUST003"@[6] != "RUST009"@[6]);
        assert("RUST004"@[6] != "RUST009"@[6]);
        assert("RUST005"@[6] != "RUST009"@[6]);
        assert("RUST006"@[6] != "RUST009"@[6]);
        assert("RUST007"@[6] != "RUST009"@[6]);
        assert("RUST008"@[6] != "RUST009"@[6]);
        lemma_fresh(l@, LintRule::RUST009(DoubleSemicolon));
    }
    let l = l.add_rule(LintRule::RUST009(DoubleSemicolon));
    proof {
        reveal_strlit("RUST001");
        reveal_strlit("RUST002");
        reveal_strlit("RUST003");
        reveal_strlit("RUST004");
        reveal_strlit("RUST005");
        reveal_strlit("RUST006");
        reveal_strlit("RUST007");
        reveal_strlit("RUST008");
        reveal_strlit("RUST009");
        reveal_strlit("RUST010");
        assert("RUST001"@[5] != "RUST010"@[5]);
        assert("RUST002"@[5] != "RUST010"@[5]);
        assert("RUST003"@[5] != "RUST010"@[5]);
        assert("RUST004"@[5] != "RUST010"@[5]);
        assert("RUST005"@[5] != "RUST010"@[5]);
        assert("RUST006"@[5] != "RUST010"@[5]);
        assert("RUST007"@[5] != "RUST010"@[5]);
        assert("RUST008"@[5] != "RUST010"@[5]);
        assert("RUST009"@[5] != "RUST010"@[5]);
        lemma_fresh(l@, LintRule::RUST010(WildcardImport));
    }
    let l = l.add_rule(LintRule::RUST010(WildcardImport));
    proof {
        reveal_strlit("RUST001");
        reveal_strlit("RUST002");
        reveal_strlit("RUST003");
        reveal_strlit("RUST004");
        reveal_strlit("RUST005");
        reveal_strlit("RUST006");
        reveal_strlit("RUST007");
        reveal_strlit("RUST008");
        reveal_strlit("RUST009");
        reveal_strlit("RUST010");
        reveal_strlit("RUST011");
        assert("RUST001"@[5] != "RUST011"@[5]);
        assert("RUST002"@[5] != "RUST011"@[5]);
        assert("RUST003"@[5] != "RUST011"@[5]);
        assert("RUST004"@[5] != "RUST011"@[5]);
        assert("RUST005"@[5] != "RUST011"@[5]);
        assert("RUST006"@[5] != "RUST011"@[5]);
        assert("RUST007"@[5] != "RUST011"@[5]);
        assert("RUST008"@[5] != "RUST011"@[5]);
        assert("RUST009"@[5] != "RUST011"@[5]);
        assert("RUST010"@[6] != "RUST011"@[6]);
        lemma_fresh(l@, LintRule::RUST011(EmptyBlock));
    }
    let l = l.add_rule(LintRule::RUST011(EmptyBlock));
    proof {
        reveal_strlit("RUST001");
        reveal_strlit("RUST002");
        reveal_strlit("RUST003");
        reveal_strlit("RUST004");
        reveal_strlit("RUST005");
        reveal_strlit("RUST006");
        reveal_strlit("RUST007");
        reveal_strlit("RUST008");
        reveal_strlit("RUST009");
        reveal_strlit("RUST010");
        reveal_strlit("RUST011");
        reveal_strlit("RUST012");
        assert("RUST001"@[5] != "RUST012"@[5]);
        assert("RUST002"@[5] != "RUST012"@[5]);
        assert("RUST003"@[5] != "RUST012"@[5]);
        assert("RUST004"@[5] != "RUST012"@[5]);
        assert("RUST005"@[5] != "RUST012"@[5]);
        assert("RUST006"@[5] != "RUST012"@[5]);
        assert("RUST007"@[5] != "RUST012"@[5]);
        assert("RUST008"@[5] != "RUST012"@[5]);
        assert("RUST009"@[5] != "RUST012"@[5]);
        assert("RUST010"@[6] != "RUST012"@[6]);
        assert("RUST011"@[6] != "RUST012"@[6]);
        lemma_fresh(l@, LintRule::RUST012(TrailingNewline));
    }
    let l = l.add_rule(LintRule::RUST012(TrailingNewline));
    l
}

} // verus!
