//! JavaScript
use vstd::prelude::*;
use crate::lint::config::{LintConfig, enabled};
use crate::lint::error::{ErrorView, Severity, opt_str_view};
use crate::lint::linter::{Linter, lemma_fresh};
use crate::lint::registry::LintRule;
use crate::lint::report::LintReport;
use crate::lint::rule::Rule;
use crate::lint::edit::{Fix, single_fix};
use crate::lint::support::{lemma_line_fits, sum_pieces, line_offset, Tmpl, at, col_errors, hit_cols, once, tmpl, finding, make_error, report_hits, report_once, report_cols, lemma_lines_bounds, lemma_lines_total, total_chars, lemma_total_chars_take};
use crate::linters::common::{count_matches, count_matches_exec, count_lit, find_col, find_col_exec, word_errors, report_words, comma_needs_space, comma_needs_space_exec, brace_needs_space, brace_needs_space_exec, brace_prev_ascii, brace_prev_ascii_exec, match_errors, report_matches, all_true, trues, trailing_ws_errors, acc_offsets, piece_offsets, report_trailing_ws, acc_offsets_exec, piece_offsets_exec, unreachable_errors, report_unreachable};
use crate::text::{lines, views, contains, starts_with, ends_with, trim, trim_start, trim_end, upper, lower, chars_of, lines_of_str, contains_lit, starts_with_lit, ends_with_lit, eq_lit, trimmed, trimmed_start, trimmed_end, upper_of, lower_of, owned, string_of, slice_of, find, find_char, find_lit, find_chars, lemma_find, matches_at, is_ws, is_whitespace, utf8_len, byte_len, prefix_bytes, any_upper, has_upper, lemma_utf8_len_take, lemma_utf8_len_subrange, split_char, fits, match_indices, match_positions_lit, char_width, split_on, contains_char, numeric_char, is_numeric};

verus! {

/// JS001: Trailing whitespace.
#[derive(Clone, Copy, Debug)]
pub struct TrailingWhitespace;

impl Rule for TrailingWhitespace {
    open spec fn spec_id(&self) -> Seq<char> {
        "JS001"@
    }

    open spec fn spec_severity(&self) -> Severity {
        Severity::Info
    }

    open spec fn is_pure(&self) -> bool {
        true
    }

    open spec fn accepts(&self, source: Seq<char>, disabled: Seq<Seq<char>>) -> bool {
        true
    }

    fn id(&self) -> (r: &'static str) {
        "JS001"
    }

    fn severity(&self) -> (s: Severity) {
        Severity::Info
    }

    fn admits(&self, source: &str, config: &LintConfig) -> (b: bool) {
        true
    }

    open spec fn findings(&self, file: Option<Seq<char>>, source: Seq<char>, disabled: Seq<Seq<char>>) -> Seq<ErrorView> {
        if true {
            trailing_ws_errors(lines(source), piece_offsets(source), tmpl(file, Severity::Info, "JS001"@, "Trailing whitespace"@, "Remove trailing whitespace"@))
        } else {
            seq![]
        }
    }

    fn check(&self, file: Option<&str>, source: &str, report: &mut LintReport, config: &LintConfig) {
        let ls = lines_of_str(source);
        proof {
            lemma_lines_bounds(source@);
        }
        let src = chars_of(source);
        let offs = piece_offsets_exec(src.as_slice());
        assert forall|i: int| 0 <= i < ls@.len() implies offs@[i] + utf8_len(#[trigger] ls@[i]@) <= usize::MAX by {
            assert(views(ls@)[i] == ls@[i]@);
        }
        report_trailing_ws(report, file, &ls, &offs, Severity::Info, "JS001", "Trailing whitespace", "Remove trailing whitespace");
    }
}

/// JS005: Avoid 'var', use 'let' or 'const'.
#[derive(Clone, Copy, Debug)]
pub struct VarInsteadOfLetConst;

/// Whether a line is reported by JS005.
pub open spec fn js005_hit(l: Seq<char>) -> bool {
    starts_with(trim_start(l), "var "@)
}

fn js005_test(l: &[char]) -> (b: bool)
    ensures
        b == js005_hit(l@),
{
    starts_with_lit(trimmed_start(l).as_slice(), "var ")
}

impl Rule for VarInsteadOfLetConst {
    open spec fn spec_id(&self) -> Seq<char> {
        "JS005"@
    }

    open spec fn spec_severity(&self) -> Severity {
        Severity::Warning
    }

    open spec fn is_pure(&self) -> bool {
        true
    }

    open spec fn accepts(&self, source: Seq<char>, disabled: Seq<Seq<char>>) -> bool {
        true
    }

    fn id(&self) -> (r: &'static str) {
        "JS005"
    }

    fn severity(&self) -> (s: Severity) {
        Severity::Warning
    }

    fn admits(&self, source: &str, config: &LintConfig) -> (b: bool) {
        true
    }

    open spec fn findings(&self, file: Option<Seq<char>>, source: Seq<char>, disabled: Seq<Seq<char>>) -> Seq<ErrorView> {
        if true {
            col_errors(hit_cols(lines(source).map_values(|l: Seq<char>| js005_hit(l))), tmpl(file, Severity::Warning, "JS005"@, "Avoid 'var', use 'let' or 'const'"@, "Replace 'var' with 'let' or 'const'"@))
        } else {
            seq![]
        }
    }

    fn check(&self, file: Option<&str>, source: &str, report: &mut LintReport, config: &LintConfig) {
        let ls = lines_of_str(source);
        proof {
            lemma_lines_bounds(source@);
        }
        let mut hits: Vec<bool> = Vec::new();
        let mut i: usize = 0;
        while i < ls.len()
            invariant
                i <= ls@.len(),
                hits@.len() == i,
                views(ls@) == lines(source@),
                forall|j: int| 0 <= j < i ==> hits@[j] == js005_hit(lines(source@)[j]),
            decreases ls@.len() - i,
        {
            assert(views(ls@)[i as int] == ls@[i as int]@);
            hits.push(js005_test(ls[i].as_slice()));
            i += 1;
        }
        assert(hits@ =~= lines(source@).map_values(|l: Seq<char>| js005_hit(l)));
        report_hits(report, file, &hits, Severity::Warning, "JS005", "Avoid 'var', use 'let' or 'const'", "Replace 'var' with 'let' or 'const'");
    }
}

/// JS006: Debugger statement found.
#[derive(Clone, Copy, Debug)]
pub struct DebuggerStatement;

/// Whether a line is reported by JS006.
pub open spec fn js006_hit(l: Seq<char>) -> bool {
    contains(l, "debugger;"@)
}

fn js006_test(l: &[char]) -> (b: bool)
    ensures
        b == js006_hit(l@),
{
    contains_lit(l, "debugger;")
}

impl Rule for DebuggerStatement {
    open spec fn spec_id(&self) -> Seq<char> {
        "JS006"@
    }

    open spec fn spec_severity(&self) -> Severity {
        Severity::Warning
    }

    open spec fn is_pure(&self) -> bool {
        true
    }

    open spec fn accepts(&self, source: Seq<char>, disabled: Seq<Seq<char>>) -> bool {
        true
    }

    fn id(&self) -> (r: &'static str) {
        "JS006"
    }

    fn severity(&self) -> (s: Severity) {
        Severity::Warning
    }

    fn admits(&self, source: &str, config: &LintConfig) -> (b: bool) {
        true
    }

    open spec fn findings(&self, file: Option<Seq<char>>, source: Seq<char>, disabled: Seq<Seq<char>>) -> Seq<ErrorView> {
        if true {
            col_errors(hit_cols(lines(source).map_values(|l: Seq<char>| js006_hit(l))), tmpl(file, Severity::Warning, "JS006"@, "Debugger statement found"@, "Remove debugger statement"@))
        } else {
            seq![]
        }
    }

    fn check(&self, file: Option<&str>, source: &str, report: &mut LintReport, config: &LintConfig) {
        let ls = lines_of_str(source);
        proof {
            lemma_lines_bounds(source@);
        }
        let mut hits: Vec<bool> = Vec::new();
        let mut i: usize = 0;
        while i < ls.len()
            invariant
                i <= ls@.len(),
                hits@.len() == i,
                views(ls@) == lines(source@),
                forall|j: int| 0 <= j < i ==> hits@[j] == js006_hit(lines(source@)[j]),
            decreases ls@.len() - i,
        {
            assert(views(ls@)[i as int] == ls@[i as int]@);
            hits.push(js006_test(ls[i].as_slice()));
            i += 1;
        }
        assert(hits@ =~= lines(source@).map_values(|l: Seq<char>| js006_hit(l)));
        report_hits(report, file, &hits, Severity::Warning, "JS006", "Debugger statement found", "Remove debugger statement");
    }
}

/// Whether JS002 reports a line.
pub open spec fn js002_hit(l: Seq<char>) -> bool {
    let t = trim(l);
    !(ends_with(t, "}"@) || ends_with(t, "{"@)) && !ends_with(t, ";"@) && t.len() != 0
}

fn js002_test(l: &[char]) -> (b: bool)
    ensures
        b == js002_hit(l@),
{
    let t = trimmed(l);
    !(ends_with_lit(t.as_slice(), "}") || ends_with_lit(t.as_slice(), "{")) && !ends_with_lit(t.as_slice(), ";") && t.len() != 0
}

/// JS002 findings on lines `ls`: column at the line's byte length, and a
/// fix inserting `;` at the end of the line (offsets counted with one
/// terminator byte per line).
pub open spec fn js002_errors(ls: Seq<Seq<char>>, all: Seq<Seq<char>>, t: Tmpl) -> Seq<ErrorView>
    decreases ls.len(),
{
    if ls.len() == 0 {
        seq![]
    } else {
        let i = ls.len() - 1;
        let e = line_offset(all, i + 1) - 1;
        js002_errors(ls.drop_last(), all, t) + if js002_hit(ls.last()) {
            seq![at(t, i + 1, utf8_len(ls.last()) as int, Some(single_fix(t.rule_id, e, e, ";"@)))]
        } else {
            seq![]
        }
    }
}

/// JS002: Missing semicolon.
#[derive(Clone, Copy, Debug)]
pub struct MissingSemicolon;

impl Rule for MissingSemicolon {
    open spec fn spec_id(&self) -> Seq<char> {
        "JS002"@
    }

    open spec fn spec_severity(&self) -> Severity {
        Severity::Error
    }

    open spec fn is_pure(&self) -> bool {
        true
    }

    open spec fn accepts(&self, source: Seq<char>, disabled: Seq<Seq<char>>) -> bool {
        true
    }

    open spec fn findings(&self, file: Option<Seq<char>>, source: Seq<char>, disabled: Seq<Seq<char>>) -> Seq<ErrorView> {
        js002_errors(lines(source), lines(source), tmpl(file, Severity::Error, "JS002"@, "Missing semicolon"@, "Add semicolon at end"@))
    }

    fn id(&self) -> (r: &'static str) {
        "JS002"
    }

    fn severity(&self) -> (s: Severity) {
        Severity::Error
    }

    fn admits(&self, source: &str, config: &LintConfig) -> (b: bool) {
        true
    }

    fn check(&self, file: Option<&str>, source: &str, report: &mut LintReport, config: &LintConfig) {
        let ls = lines_of_str(source);
        proof {
            lemma_lines_bounds(source@);
        }
        let offs = acc_offsets_exec(&ls, Ghost(source@));
        let ghost v = views(ls@);
        let ghost t = tmpl(opt_str_view(file), Severity::Error, "JS002"@, "Missing semicolon"@, "Add semicolon at end"@);
        let mut i: usize = 0;
        while i < ls.len()
            invariant
                v == views(ls@),
                v == lines(source@),
                fits(source@),
                sum_pieces(v) <= utf8_len(source@) + 1,
                offs@.len() == ls@.len(),
                offs@.map_values(|o: usize| o as int) == acc_offsets(v),
                forall|i: int| 0 <= i < ls@.len() ==> offs@[i] + utf8_len(#[trigger] ls@[i]@) < usize::MAX,
                i <= ls@.len(),
                t == tmpl(opt_str_view(file), Severity::Error, "JS002"@, "Missing semicolon"@, "Add semicolon at end"@),
                report@ == old(report)@ + js002_errors(v.take(i as int), v, t),
            decreases ls@.len() - i,
        {
            assert(v.take(i + 1).drop_last() =~= v.take(i as int));
            assert(v[i as int] == ls@[i as int]@);
            let line = ls[i].as_slice();
            if js002_test(line) {
                let lb = byte_len(line);
                proof {
                    assert(offs@.map_values(|o: usize| o as int)[i as int] == line_offset(v, i as int));
                    assert(v.take(i + 1).last() == v[i as int]);
                    assert(line_offset(v, i + 1) == line_offset(v, i as int) + utf8_len(v[i as int]) + 1);
                }
                let e = offs[i] + lb;
                let fix = Fix::single("JS002", e, e, owned(";"));
                report.push(finding(file, i + 1, lb, Severity::Error, "JS002", "Missing semicolon", "Add semicolon at end", Some(fix)));
            }
            assert(report@ =~= old(report)@ + js002_errors(v.take(i + 1), v, t));
            i += 1;
        }
        assert(v.take(i as int) =~= v);
    }
}

/// JS003: Double semicolon.
#[derive(Clone, Copy, Debug)]
pub struct DoubleSemicolon;

impl Rule for DoubleSemicolon {
    open spec fn spec_id(&self) -> Seq<char> {
        "JS003"@
    }

    open spec fn spec_severity(&self) -> Severity {
        Severity::Warning
    }

    open spec fn is_pure(&self) -> bool {
        true
    }

    open spec fn accepts(&self, source: Seq<char>, disabled: Seq<Seq<char>>) -> bool {
        true
    }

    open spec fn findings(&self, file: Option<Seq<char>>, source: Seq<char>, disabled: Seq<Seq<char>>) -> Seq<ErrorView> {
        if true {
            match_errors(source, match_indices(source, ";;"@), trues(match_indices(source, ";;"@).len() as int), tmpl(file, Severity::Warning, "JS003"@, "Double semicolon"@, "Remove extra semicolon"@), Some((0, 1, ""@)))
        } else {
            seq![]
        }
    }

    fn id(&self) -> (r: &'static str) {
        "JS003"
    }

    fn severity(&self) -> (s: Severity) {
        Severity::Warning
    }

    fn admits(&self, source: &str, config: &LintConfig) -> (b: bool) {
        true
    }

    fn check(&self, file: Option<&str>, source: &str, report: &mut LintReport, config: &LintConfig) {
        let src = chars_of(source);
        let ghost before = report@;
        {
            proof {
                reveal_strlit(";;");
            }
            let ks = match_positions_lit(src.as_slice(), ";;");
            proof {
                assert(ks@.map_values(|k: usize| k as int) == match_indices(source@, ";;"@));
                assert forall|t: int| 0 <= t < ks@.len() implies #[trigger] ks@[t] <= src@.len() by {
                    assert(ks@[t] + ";;"@.len() <= src@.len());
                }
            }
        let conds = all_true(ks.len());
        assert(conds@ =~= trues(match_indices(source@, ";;"@).len() as int));
            report_matches(report, file, src.as_slice(), &ks, &conds, Severity::Warning, "JS003", "Double semicolon", "Remove extra semicolon", Some((0, 1, "")));
        }
    }
}



/// JS004: Missing space after comma.
#[derive(Clone, Copy, Debug)]
pub struct MissingSpaceAfterComma;

impl Rule for MissingSpaceAfterComma {
    open spec fn spec_id(&self) -> Seq<char> {
        "JS004"@
    }

    open spec fn spec_severity(&self) -> Severity {
        Severity::Warning
    }

    open spec fn is_pure(&self) -> bool {
        true
    }

    open spec fn accepts(&self, source: Seq<char>, disabled: Seq<Seq<char>>) -> bool {
        true
    }

    open spec fn findings(&self, file: Option<Seq<char>>, source: Seq<char>, disabled: Seq<Seq<char>>) -> Seq<ErrorView> {
        if true {
            match_errors(source, match_indices(source, ","@), match_indices(source, ","@).map_values(|k: int| comma_needs_space(source, k)), tmpl(file, Severity::Warning, "JS004"@, "Missing space after comma"@, "Add space after comma"@), Some((1, 1, " "@)))
        } else {
            seq![]
        }
    }

    fn id(&self) -> (r: &'static str) {
        "JS004"
    }

    fn severity(&self) -> (s: Severity) {
        Severity::Warning
    }

    fn admits(&self, source: &str, config: &LintConfig) -> (b: bool) {
        true
    }

    fn check(&self, file: Option<&str>, source: &str, report: &mut LintReport, config: &LintConfig) {
        let src = chars_of(source);
        let ghost before = report@;
        {
            proof {
                reveal_strlit(",");
            }
            let ks = match_positions_lit(src.as_slice(), ",");
            proof {
                assert(ks@.map_values(|k: usize| k as int) == match_indices(source@, ","@));
                assert forall|t: int| 0 <= t < ks@.len() implies #[trigger] ks@[t] <= src@.len() by {
                    assert(ks@[t] + ","@.len() <= src@.len());
                }
            }
        let mut conds: Vec<bool> = Vec::new();
        let mut j: usize = 0;
        while j < ks.len()
            invariant
                src@ == source@,
                j <= ks@.len(),
                conds@.len() == j,
                forall|t: int| 0 <= t < ks@.len() ==> #[trigger] ks@[t] + ","@.len() <= src@.len(),
                forall|t: int| 0 <= t < j ==> conds@[t] == comma_needs_space(source@, ks@[t] as int),
            decreases ks@.len() - j,
        {
            conds.push(comma_needs_space_exec(src.as_slice(), ks[j]));
            j += 1;
        }
        assert(conds@ =~= match_indices(source@, ","@).map_values(|k: int| comma_needs_space(source@, k)));
            report_matches(report, file, src.as_slice(), &ks, &conds, Severity::Warning, "JS004", "Missing space after comma", "Add space after comma", Some((1, 1, " ")));
        }
    }
}



/// JS007: Boolean should be lowercase.
#[derive(Clone, Copy, Debug)]
pub struct UppercaseBooleanJS;

impl Rule for UppercaseBooleanJS {
    open spec fn spec_id(&self) -> Seq<char> {
        "JS007"@
    }

    open spec fn spec_severity(&self) -> Severity {
        Severity::Info
    }

    open spec fn is_pure(&self) -> bool {
        true
    }

    open spec fn accepts(&self, source: Seq<char>, disabled: Seq<Seq<char>>) -> bool {
        true
    }

    open spec fn findings(&self, file: Option<Seq<char>>, source: Seq<char>, disabled: Seq<Seq<char>>) -> Seq<ErrorView> {
        if true {
            match_errors(source, match_indices(source, "True"@), trues(match_indices(source, "True"@).len() as int), tmpl(file, Severity::Info, "JS007"@, "Boolean should be lowercase"@, "Use 'true'"@), Some((0, 4, "true"@))) + match_errors(source, match_indices(source, "False"@), trues(match_indices(source, "False"@).len() as int), tmpl(file, Severity::Info, "JS007"@, "Boolean should be lowercase"@, "Use 'false'"@), Some((0, 5, "false"@)))
        } else {
            seq![]
        }
    }

    fn id(&self) -> (r: &'static str) {
        "JS007"
    }

    fn severity(&self) -> (s: Severity) {
        Severity::Info
    }

    fn admits(&self, source: &str, config: &LintConfig) -> (b: bool) {
        true
    }

    fn check(&self, file: Option<&str>, source: &str, report: &mut LintReport, config: &LintConfig) {
        let src = chars_of(source);
        let ghost before = report@;
        {
            proof {
                reveal_strlit("True");
            }
            let ks = match_positions_lit(src.as_slice(), "True");
            proof {
                assert(ks@.map_values(|k: usize| k as int) == match_indices(source@, "True"@));
                assert forall|t: int| 0 <= t < ks@.len() implies #[trigger] ks@[t] <= src@.len() by {
                    assert(ks@[t] + "True"@.len() <= src@.len());
                }
            }
        let conds = all_true(ks.len());
        assert(conds@ =~= trues(match_indices(source@, "True"@).len() as int));
            report_matches(report, file, src.as_slice(), &ks, &conds, Severity::Info, "JS007", "Boolean should be lowercase", "Use 'true'", Some((0, 4, "true")));
        }
        {
            proof {
                reveal_strlit("False");
            }
            let ks = match_positions_lit(src.as_slice(), "False");
            proof {
                assert(ks@.map_values(|k: usize| k as int) == match_indices(source@, "False"@));
                assert forall|t: int| 0 <= t < ks@.len() implies #[trigger] ks@[t] <= src@.len() by {
                    assert(ks@[t] + "False"@.len() <= src@.len());
                }
            }
        let conds = all_true(ks.len());
        assert(conds@ =~= trues(match_indices(source@, "False"@).len() as int));
            report_matches(report, file, src.as_slice(), &ks, &conds, Severity::Info, "JS007", "Boolean should be lowercase", "Use 'false'", Some((0, 5, "false")));
        }
    }
}



/// JS008: Missing space before '{'.
#[derive(Clone, Copy, Debug)]
pub struct ExtraSpacesBeforeBrace;

impl Rule for ExtraSpacesBeforeBrace {
    open spec fn spec_id(&self) -> Seq<char> {
        "JS008"@
    }

    open spec fn spec_severity(&self) -> Severity {
        Severity::Info
    }

    open spec fn is_pure(&self) -> bool {
        true
    }

    open spec fn accepts(&self, source: Seq<char>, disabled: Seq<Seq<char>>) -> bool {
        brace_prev_ascii(source)
    }

    open spec fn findings(&self, file: Option<Seq<char>>, source: Seq<char>, disabled: Seq<Seq<char>>) -> Seq<ErrorView> {
        if true {
            match_errors(source, match_indices(source, "{"@), match_indices(source, "{"@).map_values(|k: int| brace_needs_space(source, k)), tmpl(file, Severity::Info, "JS008"@, "Missing space before '{'"@, "Add space before '{'"@), Some((0, 0, " "@)))
        } else {
            seq![]
        }
    }

    fn id(&self) -> (r: &'static str) {
        "JS008"
    }

    fn severity(&self) -> (s: Severity) {
        Severity::Info
    }

    fn admits(&self, source: &str, config: &LintConfig) -> (b: bool) {
        brace_prev_ascii_exec(source)
    }

    fn check(&self, file: Option<&str>, source: &str, report: &mut LintReport, config: &LintConfig) {
        let src = chars_of(source);
        let ghost before = report@;
        {
            proof {
                reveal_strlit("{");
            }
            let ks = match_positions_lit(src.as_slice(), "{");
            proof {
                assert(ks@.map_values(|k: usize| k as int) == match_indices(source@, "{"@));
                assert forall|t: int| 0 <= t < ks@.len() implies #[trigger] ks@[t] <= src@.len() by {
                    assert(ks@[t] + "{"@.len() <= src@.len());
                }
            }
        let mut conds: Vec<bool> = Vec::new();
        let mut j: usize = 0;
        while j < ks.len()
            invariant
                src@ == source@,
                j <= ks@.len(),
                conds@.len() == j,
                forall|t: int| 0 <= t < ks@.len() ==> #[trigger] ks@[t] + "{"@.len() <= src@.len(),
                forall|t: int| 0 <= t < j ==> conds@[t] == brace_needs_space(source@, ks@[t] as int),
            decreases ks@.len() - j,
        {
            conds.push(brace_needs_space_exec(src.as_slice(), ks[j]));
            j += 1;
        }
        assert(conds@ =~= match_indices(source@, "{"@).map_values(|k: int| brace_needs_space(source@, k)));
            report_matches(report, file, src.as_slice(), &ks, &conds, Severity::Info, "JS008", "Missing space before '{'", "Add space before '{'", Some((0, 0, " ")));
        }
    }
}



/// The rules of the JavaScript rule set, in order.
pub open spec fn rule_set() -> Seq<LintRule> {
    seq![LintRule::JS001(TrailingWhitespace), LintRule::JS002(MissingSemicolon), LintRule::JS003(DoubleSemicolon), LintRule::JS004(MissingSpaceAfterComma), LintRule::JS005(VarInsteadOfLetConst), LintRule::JS006(DebuggerStatement), LintRule::JS007(UppercaseBooleanJS), LintRule::JS008(ExtraSpacesBeforeBrace)]
}

/// The JavaScript rule set.
pub fn linter() -> (l: Linter)
    ensures
        l@ == rule_set(),
{
    let l = Linter::new();
    assert(l@ == Seq::<LintRule>::empty());
    proof {
        lemma_fresh(l@, LintRule::JS001(TrailingWhitespace));
    }
    let l = l.add_rule(LintRule::JS001(TrailingWhitespace));
    proof {
        reveal_strlit("JS001");
        reveal_strlit("JS002");
        assert("JS001"@[4] != "JS002"@[4]);
        lemma_fresh(l@, LintRule::JS002(MissingSemicolon));
    }
    let l = l.add_rule(LintRule::JS002(MissingSemicolon));
    proof {
        reveal_strlit("JS001");
        reveal_strlit("JS002");
        reveal_strlit("JS003");
        assert("JS001"@[4] != "JS003"@[4]);
        assert("JS002"@[4] != "JS003"@[4]);
        lemma_fresh(l@, LintRule::JS003(DoubleSemicolon));
    }
    let l = l.add_rule(LintRule::JS003(DoubleSemicolon));
    proof {
        reveal_strlit("JS001");
        reveal_strlit("JS002");
        reveal_strlit("JS003");
        reveal_strlit("JS004");
        assert("JS001"@[4] != "JS004"@[4]);
        assert("JS002"@[4] != "JS004"@[4]);
        assert("JS003"@[4] != "JS004"@[4]);
        lemma_fresh(l@, LintRule::JS004(MissingSpaceAfterComma));
    }
    let l = l.add_rule(LintRule::JS004(MissingSpaceAfterComma));
    proof {
        reveal_strlit("JS001");
        reveal_strlit("JS002");
        reveal_strlit("JS003");
        reveal_strlit("JS004");
        reveal_strlit("JS005");
        assert("JS001"@[4] != "JS005"@[4]);
        assert("JS002"@[4] != "JS005"@[4]);
        assert("JS003"@[4] != "JS005"@[4]);
        assert("JS004"@[4] != "JS005"@[4]);
        lemma_fresh(l@, LintRule::JS005(VarInsteadOfLetConst));
    }
    let l = l.add_rule(LintRule::JS005(VarInsteadOfLetConst));
    proof {
        reveal_strlit("JS001");
        reveal_strlit("JS002");
        reveal_strlit("JS003");
        reveal_strlit("JS004");
        reveal_strlit("JS005");
        reveal_strlit("JS006");
        assert("JS001"@[4] != "JS006"@[4]);
        assert("JS002"@[4] != "JS006"@[4]);
        assert("JS003"@[4] != "JS006"@[4]);
        assert("JS004"@[4] != "JS006"@[4]);
        assert("JS005"@[4] != "JS006"@[4]);
        lemma_fresh(l@, LintRule::JS006(DebuggerStatement));
    }
    let l = l.add_rule(LintRule::JS006(DebuggerStatement));
    proof {
        reveal_strlit("JS001");
        reveal_strlit("JS002");
        reveal_strlit("JS003");
        reveal_strlit("JS004");
        reveal_strlit("JS005");
        reveal_strlit("JS006");
        reveal_strlit("JS007");
        assert("JS001"@[4] != "JS007"@[4]);
        assert("JS002"@[4] != "JS007"@[4]);
        assert("JS003"@[4] != "JS007"@[4]);
        assert("JS004"@[4] != "JS007"@[4]);
        assert("JS005"@[4] != "JS007"@[4]);
        assert("JS006"@[4] != "JS007"@[4]);
        lemma_fresh(l@, LintRule::JS007(UppercaseBooleanJS));
    }
    let l = l.add_rule(LintRule::JS007(UppercaseBooleanJS));
    proof {
        reveal_strlit("JS001");
        reveal_strlit("JS002");
        reveal_strlit("JS003");
        reveal_strlit("JS004");
        reveal_strlit("JS005");
        reveal_strlit("JS006");
        reveal_strlit("JS007");
        reveal_strlit("JS008");
        assert("JS001"@[4] != "JS008"@[4]);
        assert("JS002"@[4] != "JS008"@[4]);
        assert("JS003"@[4] != "JS008"@[4]);
        assert("JS004"@[4] != "JS008"@[4]);
        assert("JS005"@[4] != "JS008"@[4]);
        assert("JS006"@[4] != "JS008"@[4]);
        assert("JS007"@[4] != "JS008"@[4]);
        lemma_fresh(l@, LintRule::JS008(ExtraSpacesBeforeBrace));
    }
    let l = l.add_rule(LintRule::JS008(ExtraSpacesBeforeBrace));
    l
}

} // verus!
