//! CSS rules of error severity
use vstd::prelude::*;
use crate::lint::config::{LintConfig, enabled};
use crate::lint::error::{ErrorView, Severity, opt_str_view};
use crate::lint::linter::{Linter, lemma_fresh};
use crate::lint::registry::LintRule;
use crate::lint::report::LintReport;
use crate::lint::rule::Rule;
use crate::lint::edit::{Fix, single_fix};
use crate::lint::support::{lemma_line_fits, sum_pieces, line_offset, Tmpl, at, col_errors, hit_cols, once, tmpl, finding, make_error, report_hits, report_once, report_cols, lemma_lines_bounds, lemma_lines_total, total_chars, lemma_total_chars_take};
use crate::linters::common::{count_matches, count_matches_exec, count_lit, find_col, find_col_exec, word_errors, report_words, comma_needs_space, comma_needs_space_exec, brace_needs_space, brace_needs_space_exec, brace_prev_ascii, brace_prev_ascii_exec, match_errors, report_matches, all_true, trues, trailing_ws_errors, acc_offsets, piece_offsets, report_trailing_ws, acc_offsets_exec, piece_offsets_exec, unreachable_errors, report_unreachable};
use crate::text::{lines, views, contains, starts_with, ends_with, trim, trim_start, trim_end, upper, lower, chars_of, lines_of_str, contains_lit, starts_with_lit, ends_with_lit, eq_lit, trimmed, trimmed_start, trimmed_end, upper_of, lower_of, owned, string_of, slice_of, find, find_char, find_lit, find_chars, lemma_find, matches_at, is_ws, is_whitespace, utf8_len, byte_len, prefix_bytes, any_upper, has_upper, lemma_utf8_len_take, lemma_utf8_len_subrange, split_char, fits, match_indices, match_positions_lit, char_width, split_on, contains_char, numeric_char, is_numeric};
use crate::text::{match_positions, lemma_utf8_len_concat, is_ascii_upper, is_blank, lines_of, rfind_char_exec, rfind_char, width_of};

verus! {

/// The code of a trimmed CSS line, without a trailing `/* ... */` comment.
pub open spec fn css_code_part(t: Seq<char>) -> Seq<char> {
    match find(t, "/*"@) {
        Some(k) => trim_end(t.take(k)),
        None => t,
    }
}

/// The column of the CSS003 finding on line `l`, if any.
pub open spec fn css003_col(l: Seq<char>) -> Option<usize> {
    let t = trim(l);
    let c = css_code_part(t);
    if t.len() != 0 && contains(c, ":"@) && !ends_with(c, ";"@) && !ends_with(c, "{"@) && !ends_with(c, "}"@) {
        Some(utf8_len(l) as usize)
    } else {
        None
    }
}

fn css003_test(l: &[char]) -> (c: Option<usize>)
    requires
        fits(l@),
    ensures
        c == css003_col(l@),
{
    let t = trimmed(l);
    if t.len() == 0 {
        return None;
    }
    let code = match find_lit(t.as_slice(), "/*") {
        Some(k) => {
            proof {
                lemma_find(t@, "/*"@);
            }
            let head = slice_of(t.as_slice(), 0, k);
            trimmed_end(head.as_slice())
        },
        None => t,
    };
    if contains_lit(code.as_slice(), ":") && !ends_with_lit(code.as_slice(), ";") && !ends_with_lit(code.as_slice(), "{") && !ends_with_lit(code.as_slice(), "}") {
        Some(byte_len(l))
    } else {
        None
    }
}

/// CSS003: Missing semicolon at end of property.
#[derive(Clone, Copy, Debug)]
pub struct MissingSemicolon;

impl Rule for MissingSemicolon {
    open spec fn spec_id(&self) -> Seq<char> {
        "CSS003"@
    }

    open spec fn spec_severity(&self) -> Severity {
        Severity::Error
    }

    open spec fn is_pure(&self) -> bool {
        true
    }

    open spec fn accepts(&self, source: Seq<char>, disabled: Seq<Seq<char>>) -> bool {
        true
    }

    open spec fn findings(&self, file: Option<Seq<char>>, source: Seq<char>, disabled: Seq<Seq<char>>) -> Seq<ErrorView> {
        if enabled(disabled, "CSS003"@) {
            col_errors(lines(source).map_values(|l: Seq<char>| css003_col(l)), tmpl(file, Severity::Error, "CSS003"@, "Missing semicolon at end of property"@, "Add ';'"@))
        } else {
            seq![]
        }
    }

    fn id(&self) -> (r: &'static str) {
        "CSS003"
    }

    fn severity(&self) -> (s: Severity) {
        Severity::Error
    }

    fn admits(&self, source: &str, config: &LintConfig) -> (b: bool) {
        true
    }

    fn check(&self, file: Option<&str>, source: &str, report: &mut LintReport, config: &LintConfig) {
        if !config.is_enabled(self.id()) {
            return;
        }
        let ls = lines_of_str(source);
        proof {
            lemma_lines_bounds(source@);
        }
        let mut cols: Vec<Option<usize>> = Vec::new();
        let mut i: usize = 0;
        while i < ls.len()
            invariant
                i <= ls@.len(),
                cols@.len() == i,
                fits(source@),
                views(ls@) == lines(source@),
                forall|j: int| 0 <= j < i ==> cols@[j] == css003_col(lines(source@)[j]),
            decreases ls@.len() - i,
        {
            assert(views(ls@)[i as int] == ls@[i as int]@);
            proof {
                lemma_line_fits(source@, i as int);
            }
            cols.push(css003_test(ls[i].as_slice()));
            i += 1;
        }
        assert(cols@ =~= lines(source@).map_values(|l: Seq<char>| css003_col(l)));
        report_cols(report, file, &cols, Severity::Error, "CSS003", "Missing semicolon at end of property", "Add ';'");
    }
}

/// The rules of this group, in order.
pub fn rules() -> (v: Vec<LintRule>)
    ensures
        v@ == seq![LintRule::CSS003(MissingSemicolon)],
{
    let mut v: Vec<LintRule> = Vec::new();
    v.push(LintRule::CSS003(MissingSemicolon));
    assert(v@ =~= seq![LintRule::CSS003(MissingSemicolon)]);
    v
}

} // verus!
