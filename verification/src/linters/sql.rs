//! SQL
use vstd::prelude::*;
use crate::lint::config::{LintConfig, enabled};
use crate::lint::error::{ErrorView, Severity, opt_str_view};
use crate::lint::linter::{Linter, lemma_fresh};
use crate::lint::registry::LintRule;
use crate::lint::report::LintReport;
use crate::lint::rule::Rule;
use crate::lint::edit::{Fix, single_fix};
use crate::lint::support::{lemma_line_fits, sum_pieces, line_offset, Tmpl, at, col_errors, hit_cols, once, tmpl, finding, make_error, report_hits, report_once, report_cols, lemma_lines_bounds, lemma_lines_total, total_chars, lemma_total_chars_take};
use crate::linters::common::{count_matches, count_matches_exec, count_lit, find_col, find_col_exec, word_errors, report_words, comma_needs_space, comma_needs_space_exec, brace_needs_space, brace_needs_space_exec, brace_prev_ascii, brace_prev_ascii_exec, match_errors, report_matches, all_true, trues, trailing_ws_errors, acc_offsets, piece_offsets, report_trailing_ws, acc_offsets_exec, piece_offsets_exec, unreachable_errors, report_unreachable};
use crate::text::{lines, views, contains, starts_with, ends_with, trim, trim_start, trim_end, upper, lower, chars_of, lines_of_str, contains_lit, starts_with_lit, ends_with_lit, eq_lit, trimmed, trimmed_start, trimmed_end, upper_of, lower_of, owned, string_of, slice_of, find, find_char, find_lit, find_chars, lemma_find, matches_at, is_ws, is_whitespace, utf8_len, byte_len, prefix_bytes, any_upper, has_upper, lemma_utf8_len_take, lemma_utf8_len_subrange, split_char, fits, match_indices, match_positions_lit, char_width, split_on, contains_char, numeric_char, is_numeric};

verus! {

/// SQL001: Trailing whitespace.
#[derive(Clone, Copy, Debug)]
pub struct TrailingWhitespace;

impl Rule for TrailingWhitespace {
    open spec fn spec_id(&self) -> Seq<char> {
        "SQL001"@
    }

    open spec fn spec_severity(&self) -> Severity {
        Severity::Info
    }

    open spec fn is_pure(&self) -> bool {
        true
    }

    open spec fn accepts(&self, source: Seq<char>, disabled: Seq<Seq<char>>) -> bool {
        true
    }

    fn id(&self) -> (r: &'static str) {
        "SQL001"
    }

    fn severity(&self) -> (s: Severity) {
        Severity::Info
    }

    fn admits(&self, source: &str, config: &LintConfig) -> (b: bool) {
        true
    }

    open spec fn findings(&self, file: Option<Seq<char>>, source: Seq<char>, disabled: Seq<Seq<char>>) -> Seq<ErrorView> {
        if enabled(disabled, "SQL001"@) {
            trailing_ws_errors(lines(source), acc_offsets(lines(source)), tmpl(file, Severity::Info, "SQL001"@, "Trailing whitespace"@, "Remove trailing whitespace"@))
        } else {
            seq![]
        }
    }

    fn check(&self, file: Option<&str>, source: &str, report: &mut LintReport, config: &LintConfig) {
        if !config.is_enabled(self.id()) {
            return;
        }
        let ls = lines_of_str(source);
        proof {
            lemma_lines_bounds(source@);
        }
        let offs = acc_offsets_exec(&ls, Ghost(source@));
        report_trailing_ws(report, file, &ls, &offs, Severity::Info, "SQL001", "Trailing whitespace", "Remove trailing whitespace");
    }
}

/// SQL010: SELECT * usage detected.
#[derive(Clone, Copy, Debug)]
pub struct SelectStarUsage;

/// Whether a line is reported by SQL010.
pub open spec fn sql010_hit(l: Seq<char>) -> bool {
    contains(upper(l), "SELECT *"@)
}

fn sql010_test(l: &[char]) -> (b: bool)
    ensures
        b == sql010_hit(l@),
{
    contains_lit(upper_of(l).as_slice(), "SELECT *")
}

impl Rule for SelectStarUsage {
    open spec fn spec_id(&self) -> Seq<char> {
        "SQL010"@
    }

    open spec fn spec_severity(&self) -> Severity {
        Severity::Warning
    }

    open spec fn is_pure(&self) -> bool {
        true
    }

    open spec fn accepts(&self, source: Seq<char>, disabled: Seq<Seq<char>>) -> bool {
        true
    }

    fn id(&self) -> (r: &'static str) {
        "SQL010"
    }

    fn severity(&self) -> (s: Severity) {
        Severity::Warning
    }

    fn admits(&self, source: &str, config: &LintConfig) -> (b: bool) {
        true
    }

    open spec fn findings(&self, file: Option<Seq<char>>, source: Seq<char>, disabled: Seq<Seq<char>>) -> Seq<ErrorView> {
        if enabled(disabled, "SQL010"@) {
            col_errors(hit_cols(lines(source).map_values(|l: Seq<char>| sql010_hit(l))), tmpl(file, Severity::Warning, "SQL010"@, "SELECT * usage detected"@, "Specify explicit column names"@))
        } else {
            seq![]
        }
    }

    fn check(&self, file: Option<&str>, source: &str, report: &mut LintReport, config: &LintConfig) {
        if !config.is_enabled(self.id()) {
            return;
        }
        let ls = lines_of_str(source);
        proof {
            lemma_lines_bounds(source@);
        }
        let mut hits: Vec<bool> = Vec::new();
        let mut i: usize = 0;
        while i < ls.len()
            invariant
                i <= ls@.len(),
                hits@.len() == i,
                views(ls@) == lines(source@),
                forall|j: int| 0 <= j < i ==> hits@[j] == sql010_hit(lines(source@)[j]),
            decreases ls@.len() - i,
        {
            assert(views(ls@)[i as int] == ls@[i as int]@);
            hits.push(sql010_test(ls[i].as_slice()));
            i += 1;
        }
        assert(hits@ =~= lines(source@).map_values(|l: Seq<char>| sql010_hit(l)));
        report_hits(report, file, &hits, Severity::Warning, "SQL010", "SELECT * usage detected", "Specify explicit column names");
    }
}

/// SQL020: DELETE without WHERE clause.
#[derive(Clone, Copy, Debug)]
pub struct DeleteWithoutWhere;

/// Whether SQL020 reports a source.
pub open spec fn sql020_hit(file: Option<Seq<char>>, src: Seq<char>) -> bool {
    contains(upper(src), "DELETE FROM"@) && !contains(upper(src), "WHERE"@)
}

fn sql020_test(file: Option<&str>, src: &[char]) -> (b: bool)
    requires
        fits(src@),
    ensures
        b == sql020_hit(opt_str_view(file), src@),
{
    let up = upper_of(src);
    contains_lit(up.as_slice(), "DELETE FROM") && !contains_lit(up.as_slice(), "WHERE")
}

impl Rule for DeleteWithoutWhere {
    open spec fn spec_id(&self) -> Seq<char> {
        "SQL020"@
    }

    open spec fn spec_severity(&self) -> Severity {
        Severity::Error
    }

    open spec fn is_pure(&self) -> bool {
        true
    }

    open spec fn accepts(&self, source: Seq<char>, disabled: Seq<Seq<char>>) -> bool {
        true
    }

    fn id(&self) -> (r: &'static str) {
        "SQL020"
    }

    fn severity(&self) -> (s: Severity) {
        Severity::Error
    }

    fn admits(&self, source: &str, config: &LintConfig) -> (b: bool) {
        true
    }

    open spec fn findings(&self, file: Option<Seq<char>>, source: Seq<char>, disabled: Seq<Seq<char>>) -> Seq<ErrorView> {
        if enabled(disabled, "SQL020"@) {
            once(sql020_hit(file, source), tmpl(file, Severity::Error, "SQL020"@, "DELETE without WHERE clause"@, "Add WHERE clause to restrict deletion"@))
        } else {
            seq![]
        }
    }

    fn check(&self, file: Option<&str>, source: &str, report: &mut LintReport, config: &LintConfig) {
        if !config.is_enabled(self.id()) {
            return;
        }
        let src = chars_of(source);
        let hit = sql020_test(file, src.as_slice());
        report_once(report, file, hit, Severity::Error, "SQL020", "DELETE without WHERE clause", "Add WHERE clause to restrict deletion");
    }
}

/// SQL021: UPDATE without WHERE clause.
#[derive(Clone, Copy, Debug)]
pub struct UpdateWithoutWhere;

/// Whether SQL021 reports a source.
pub open spec fn sql021_hit(file: Option<Seq<char>>, src: Seq<char>) -> bool {
    contains(upper(src), "UPDATE "@) && !contains(upper(src), "WHERE"@)
}

fn sql021_test(file: Option<&str>, src: &[char]) -> (b: bool)
    requires
        fits(src@),
    ensures
        b == sql021_hit(opt_str_view(file), src@),
{
    let up = upper_of(src);
    contains_lit(up.as_slice(), "UPDATE ") && !contains_lit(up.as_slice(), "WHERE")
}

impl Rule for UpdateWithoutWhere {
    open spec fn spec_id(&self) -> Seq<char> {
        "SQL021"@
    }

    open spec fn spec_severity(&self) -> Severity {
        Severity::Error
    }

    open spec fn is_pure(&self) -> bool {
        true
    }

    open spec fn accepts(&self, source: Seq<char>, disabled: Seq<Seq<char>>) -> bool {
        true
    }

    fn id(&self) -> (r: &'static str) {
        "SQL021"
    }

    fn severity(&self) -> (s: Severity) {
        Severity::Error
    }

    fn admits(&self, source: &str, config: &LintConfig) -> (b: bool) {
        true
    }

    open spec fn findings(&self, file: Option<Seq<char>>, source: Seq<char>, disabled: Seq<Seq<char>>) -> Seq<ErrorView> {
        if enabled(disabled, "SQL021"@) {
            once(sql021_hit(file, source), tmpl(file, Severity::Error, "SQL021"@, "UPDATE without WHERE clause"@, "Add WHERE clause to restrict updates"@))
        } else {
            seq![]
        }
    }

    fn check(&self, file: Option<&str>, source: &str, report: &mut LintReport, config: &LintConfig) {
        if !config.is_enabled(self.id()) {
            return;
        }
        let src = chars_of(source);
        let hit = sql021_test(file, src.as_slice());
        report_once(report, file, hit, Severity::Error, "SQL021", "UPDATE without WHERE clause", "Add WHERE clause to restrict updates");
    }
}

/// SQL030: DROP TABLE detected.
#[derive(Clone, Copy, Debug)]
pub struct DropTableUsage;

/// Whether SQL030 reports a source.
pub open spec fn sql030_hit(file: Option<Seq<char>>, src: Seq<char>) -> bool {
    contains(upper(src), "DROP TABLE"@)
}

fn sql030_test(file: Option<&str>, src: &[char]) -> (b: bool)
    requires
        fits(src@),
    ensures
        b == sql030_hit(opt_str_view(file), src@),
{
    let up = upper_of(src);
    contains_lit(upper_of(src).as_slice(), "DROP TABLE")
}

impl Rule for DropTableUsage {
    open spec fn spec_id(&self) -> Seq<char> {
        "SQL030"@
    }

    open spec fn spec_severity(&self) -> Severity {
        Severity::Warning
    }

    open spec fn is_pure(&self) -> bool {
        true
    }

    open spec fn accepts(&self, source: Seq<char>, disabled: Seq<Seq<char>>) -> bool {
        true
    }

    fn id(&self) -> (r: &'static str) {
        "SQL030"
    }

    fn severity(&self) -> (s: Severity) {
        Severity::Warning
    }

    fn admits(&self, source: &str, config: &LintConfig) -> (b: bool) {
        true
    }

    open spec fn findings(&self, file: Option<Seq<char>>, source: Seq<char>, disabled: Seq<Seq<char>>) -> Seq<ErrorView> {
        if enabled(disabled, "SQL030"@) {
            once(sql030_hit(file, source), tmpl(file, Severity::Warning, "SQL030"@, "DROP TABLE detected"@, "Ensure this is intentional and protected"@))
        } else {
            seq![]
        }
    }

    fn check(&self, file: Option<&str>, source: &str, report: &mut LintReport, config: &LintConfig) {
        if !config.is_enabled(self.id()) {
            return;
        }
        let src = chars_of(source);
        let hit = sql030_test(file, src.as_slice());
        report_once(report, file, hit, Severity::Warning, "SQL030", "DROP TABLE detected", "Ensure this is intentional and protected");
    }
}

/// SQL040: Implicit join detected (comma syntax).
#[derive(Clone, Copy, Debug)]
pub struct ImplicitJoinSyntax;

/// Whether SQL040 reports a source.
pub open spec fn sql040_hit(file: Option<Seq<char>>, src: Seq<char>) -> bool {
    contains(upper(src), "FROM"@) && contains(src, ","@) && !contains(upper(src), "JOIN"@)
}

fn sql040_test(file: Option<&str>, src: &[char]) -> (b: bool)
    requires
        fits(src@),
    ensures
        b == sql040_hit(opt_str_view(file), src@),
{
    let up = upper_of(src);
    contains_lit(upper_of(src).as_slice(), "FROM") && contains_lit(src, ",") && !contains_lit(upper_of(src).as_slice(), "JOIN")
}

impl Rule for ImplicitJoinSyntax {
    open spec fn spec_id(&self) -> Seq<char> {
        "SQL040"@
    }

    open spec fn spec_severity(&self) -> Severity {
        Severity::Warning
    }

    open spec fn is_pure(&self) -> bool {
        true
    }

    open spec fn accepts(&self, source: Seq<char>, disabled: Seq<Seq<char>>) -> bool {
        true
    }

    fn id(&self) -> (r: &'static str) {
        "SQL040"
    }

    fn severity(&self) -> (s: Severity) {
        Severity::Warning
    }

    fn admits(&self, source: &str, config: &LintConfig) -> (b: bool) {
        true
    }

    open spec fn findings(&self, file: Option<Seq<char>>, source: Seq<char>, disabled: Seq<Seq<char>>) -> Seq<ErrorView> {
        if enabled(disabled, "SQL040"@) {
            once(sql040_hit(file, source), tmpl(file, Severity::Warning, "SQL040"@, "Implicit join detected (comma syntax)"@, "Use explicit JOIN syntax"@))
        } else {
            seq![]
        }
    }

    fn check(&self, file: Option<&str>, source: &str, report: &mut LintReport, config: &LintConfig) {
        if !config.is_enabled(self.id()) {
            return;
        }
        let src = chars_of(source);
        let hit = sql040_test(file, src.as_slice());
        report_once(report, file, hit, Severity::Warning, "SQL040", "Implicit join detected (comma syntax)", "Use explicit JOIN syntax");
    }
}

/// SQL050: NOT IN may behave unexpectedly with NULL values.
#[derive(Clone, Copy, Debug)]
pub struct NotInWithNullRisk;

/// Whether SQL050 reports a source.
pub open spec fn sql050_hit(file: Option<Seq<char>>, src: Seq<char>) -> bool {
    contains(upper(src), "NOT IN"@)
}

fn sql050_test(file: Option<&str>, src: &[char]) -> (b: bool)
    requires
        fits(src@),
    ensures
        b == sql050_hit(opt_str_view(file), src@),
{
    let up = upper_of(src);
    contains_lit(upper_of(src).as_slice(), "NOT IN")
}

impl Rule for NotInWithNullRisk {
    open spec fn spec_id(&self) -> Seq<char> {
        "SQL050"@
    }

    open spec fn spec_severity(&self) -> Severity {
        Severity::Warning
    }

    open spec fn is_pure(&self) -> bool {
        true
    }

    open spec fn accepts(&self, source: Seq<char>, disabled: Seq<Seq<char>>) -> bool {
        true
    }

    fn id(&self) -> (r: &'static str) {
        "SQL050"
    }

    fn severity(&self) -> (s: Severity) {
        Severity::Warning
    }

    fn admits(&self, source: &str, config: &LintConfig) -> (b: bool) {
        true
    }

    open spec fn findings(&self, file: Option<Seq<char>>, source: Seq<char>, disabled: Seq<Seq<char>>) -> Seq<ErrorView> {
        if enabled(disabled, "SQL050"@) {
            once(sql050_hit(file, source), tmpl(file, Severity::Warning, "SQL050"@, "NOT IN may behave unexpectedly with NULL values"@, "Consider NOT EXISTS instead"@))
        } else {
            seq![]
        }
    }

    fn check(&self, file: Option<&str>, source: &str, report: &mut LintReport, config: &LintConfig) {
        if !config.is_enabled(self.id()) {
            return;
        }
        let src = chars_of(source);
        let hit = sql050_test(file, src.as_slice());
        report_once(report, file, hit, Severity::Warning, "SQL050", "NOT IN may behave unexpectedly with NULL values", "Consider NOT EXISTS instead");
    }
}

/// SQL060: OR in WHERE clause may prevent index usage.
#[derive(Clone, Copy, Debug)]
pub struct OrInWhereClause;

/// Whether SQL060 reports a source.
pub open spec fn sql060_hit(file: Option<Seq<char>>, src: Seq<char>) -> bool {
    contains(upper(src), "WHERE"@) && contains(upper(src), " OR "@)
}

fn sql060_test(file: Option<&str>, src: &[char]) -> (b: bool)
    requires
        fits(src@),
    ensures
        b == sql060_hit(opt_str_view(file), src@),
{
    let up = upper_of(src);
    contains_lit(upper_of(src).as_slice(), "WHERE") && contains_lit(upper_of(src).as_slice(), " OR ")
}

impl Rule for OrInWhereClause {
    open spec fn spec_id(&self) -> Seq<char> {
        "SQL060"@
    }

    open spec fn spec_severity(&self) -> Severity {
        Severity::Info
    }

    open spec fn is_pure(&self) -> bool {
        true
    }

    open spec fn accepts(&self, source: Seq<char>, disabled: Seq<Seq<char>>) -> bool {
        true
    }

    fn id(&self) -> (r: &'static str) {
        "SQL060"
    }

    fn severity(&self) -> (s: Severity) {
        Severity::Info
    }

    fn admits(&self, source: &str, config: &LintConfig) -> (b: bool) {
        true
    }

    open spec fn findings(&self, file: Option<Seq<char>>, source: Seq<char>, disabled: Seq<Seq<char>>) -> Seq<ErrorView> {
        if enabled(disabled, "SQL060"@) {
            once(sql060_hit(file, source), tmpl(file, Severity::Info, "SQL060"@, "OR in WHERE clause may prevent index usage"@, "Consider UNION or indexed conditions"@))
        } else {
            seq![]
        }
    }

    fn check(&self, file: Option<&str>, source: &str, report: &mut LintReport, config: &LintConfig) {
        if !config.is_enabled(self.id()) {
            return;
        }
        let src = chars_of(source);
        let hit = sql060_test(file, src.as_slice());
        report_once(report, file, hit, Severity::Info, "SQL060", "OR in WHERE clause may prevent index usage", "Consider UNION or indexed conditions");
    }
}

/// SQL070: Table created without PRIMARY KEY.
#[derive(Clone, Copy, Debug)]
pub struct CreateTableWithoutPrimaryKey;

/// Whether SQL070 reports a source.
pub open spec fn sql070_hit(file: Option<Seq<char>>, src: Seq<char>) -> bool {
    contains(upper(src), "CREATE TABLE"@) && !contains(upper(src), "PRIMARY KEY"@)
}

fn sql070_test(file: Option<&str>, src: &[char]) -> (b: bool)
    requires
        fits(src@),
    ensures
        b == sql070_hit(opt_str_view(file), src@),
{
    let up = upper_of(src);
    contains_lit(up.as_slice(), "CREATE TABLE") && !contains_lit(up.as_slice(), "PRIMARY KEY")
}

impl Rule for CreateTableWithoutPrimaryKey {
    open spec fn spec_id(&self) -> Seq<char> {
        "SQL070"@
    }

    open spec fn spec_severity(&self) -> Severity {
        Severity::Warning
    }

    open spec fn is_pure(&self) -> bool {
        true
    }

    open spec fn accepts(&self, source: Seq<char>, disabled: Seq<Seq<char>>) -> bool {
        true
    }

    fn id(&self) -> (r: &'static str) {
        "SQL070"
    }

    fn severity(&self) -> (s: Severity) {
        Severity::Warning
    }

    fn admits(&self, source: &str, config: &LintConfig) -> (b: bool) {
        true
    }

    open spec fn findings(&self, file: Option<Seq<char>>, source: Seq<char>, disabled: Seq<Seq<char>>) -> Seq<ErrorView> {
        if enabled(disabled, "SQL070"@) {
            once(sql070_hit(file, source), tmpl(file, Severity::Warning, "SQL070"@, "Table created without PRIMARY KEY"@, "Define a PRIMARY KEY"@))
        } else {
            seq![]
        }
    }

    fn check(&self, file: Option<&str>, source: &str, report: &mut LintReport, config: &LintConfig) {
        if !config.is_enabled(self.id()) {
            return;
        }
        let src = chars_of(source);
        let hit = sql070_test(file, src.as_slice());
        report_once(report, file, hit, Severity::Warning, "SQL070", "Table created without PRIMARY KEY", "Define a PRIMARY KEY");
    }
}

/// The rules of the SQL rule set, in order.
pub open spec fn rule_set() -> Seq<LintRule> {
    seq![LintRule::SQL001(TrailingWhitespace), LintRule::SQL010(SelectStarUsage), LintRule::SQL020(DeleteWithoutWhere), LintRule::SQL021(UpdateWithoutWhere), LintRule::SQL030(DropTableUsage), LintRule::SQL040(ImplicitJoinSyntax), LintRule::SQL050(NotInWithNullRisk), LintRule::SQL060(OrInWhereClause), LintRule::SQL070(CreateTableWithoutPrimaryKey)]
}

/// The SQL rule set.
pub fn linter() -> (l: Linter)
    ensures
        l@ == rule_set(),
{
    let l = Linter::new();
    assert(l@ == Seq::<LintRule>::empty());
    proof {
        lemma_fresh(l@, LintRule::SQL001(TrailingWhitespace));
    }
    let l = l.add_rule(LintRule::SQL001(TrailingWhitespace));
    proof {
        reveal_strlit("SQL001");
        reveal_strlit("SQL010");
        assert("SQL001"@[4] != "SQL010"@[4]);
        lemma_fresh(l@, LintRule::SQL010(SelectStarUsage));
    }
    let l = l.add_rule(LintRule::SQL010(SelectStarUsage));
    proof {
        reveal_strlit("SQL001");
        reveal_strlit("SQL010");
        reveal_strlit("SQL020");
        assert("SQL001"@[4] != "SQL020"@[4]);
        assert("SQL010"@[4] != "SQL020"@[4]);
        lemma_fresh(l@, LintRule::SQL020(DeleteWithoutWhere));
    }
    let l = l.add_rule(LintRule::SQL020(DeleteWithoutWhere));
    proof {
        reveal_strlit("SQL001");
        reveal_strlit("SQL010");
        reveal_strlit("SQL020");
        reveal_strlit("SQL021");
        assert("SQL001"@[4] != "SQL021"@[4]);
        assert("SQL010"@[4] != "SQL021"@[4]);
        assert("SQL020"@[5] != "SQL021"@[5]);
        lemma_fresh(l@, LintRule::SQL021(UpdateWithoutWhere));
    }
    let l = l.add_rule(LintRule::SQL021(UpdateWithoutWhere));
    proof {
        reveal_strlit("SQL001");
        reveal_strlit("SQL010");
        reveal_strlit("SQL020");
        reveal_strlit("SQL021");
        reveal_strlit("SQL030");
        assert("SQL001"@[4] != "SQL030"@[4]);
        assert("SQL010"@[4] != "SQL030"@[4]);
        assert("SQL020"@[4] != "SQL030"@[4]);
        assert("SQL021"@[4] != "SQL030"@[4]);
        lemma_fresh(l@, LintRule::SQL030(DropTableUsage));
    }
    let l = l.add_rule(LintRule::SQL030(DropTableUsage));
    proof {
        reveal_strlit("SQL001");
        reveal_strlit("SQL010");
        reveal_strlit("SQL020");
        reveal_strlit("SQL021");
        reveal_strlit("SQL030");
        reveal_strlit("SQL040");
        assert("SQL001"@[4] != "SQL040"@[4]);
        assert("SQL010"@[4] != "SQL040"@[4]);
        assert("SQL020"@[4] != "SQL040"@[4]);
        assert("SQL021"@[4] != "SQL040"@[4]);
        assert("SQL030"@[4] != "SQL040"@[4]);
        lemma_fresh(l@, LintRule::SQL040(ImplicitJoinSyntax));
    }
    let l = l.add_rule(LintRule::SQL040(ImplicitJoinSyntax));
    proof {
        reveal_strlit("SQL001");
        reveal_strlit("SQL010");
        reveal_strlit("SQL020");
        reveal_strlit("SQL021");
        reveal_strlit("SQL030");
        reveal_strlit("SQL040");
        reveal_strlit("SQL050");
        assert("SQL001"@[4] != "SQL050"@[4]);
        assert("SQL010"@[4] != "SQL050"@[4]);
        assert("SQL020"@[4] != "SQL050"@[4]);
        assert("SQL021"@[4] != "SQL050"@[4]);
        assert("SQL030"@[4] != "SQL050"@[4]);
        assert("SQL040"@[4] != "SQL050"@[4]);
        lemma_fresh(l@, LintRule::SQL050(NotInWithNullRisk));
    }
    let l = l.add_rule(LintRule::SQL050(NotInWithNullRisk));
    proof {
        reveal_strlit("SQL001");
        reveal_strlit("SQL010");
        reveal_strlit("SQL020");
        reveal_strlit("SQL021");
        reveal_strlit("SQL030");
        reveal_strlit("SQL040");
        reveal_strlit("SQL050");
        reveal_strlit("SQL060");
        assert("SQL001"@[4] != "SQL060"@[4]);
        assert("SQL010"@[4] != "SQL060"@[4]);
        assert("SQL020"@[4] != "SQL060"@[4]);
        assert("SQL021"@[4] != "SQL060"@[4]);
        assert("SQL030"@[4] != "SQL060"@[4]);
        assert("SQL040"@[4] != "SQL060"@[4]);
        assert("SQL050"@[4] != "SQL060"@[4]);
        lemma_fresh(l@, LintRule::SQL060(OrInWhereClause));
    }
    let l = l.add_rule(LintRule::SQL060(OrInWhereClause));
    proof {
        reveal_strlit("SQL001");
        reveal_strlit("SQL010");
        reveal_strlit("SQL020");
        reveal_strlit("SQL021");
        reveal_strlit("SQL030");
        reveal_strlit("SQL040");
        reveal_strlit("SQL050");
        reveal_strlit("SQL060");
        reveal_strlit("SQL070");
        assert("SQL001"@[4] != "SQL070"@[4]);
        assert("SQL010"@[4] != "SQL070"@[4]);
        assert("SQL020"@[4] != "SQL070"@[4]);
        assert("SQL021"@[4] != "SQL070"@[4]);
        assert("SQL030"@[4] != "SQL070"@[4]);
        assert("SQL040"@[4] != "SQL070"@[4]);
        assert("SQL050"@[4] != "SQL070"@[4]);
        assert("SQL060"@[4] != "SQL070"@[4]);
        lemma_fresh(l@, LintRule::SQL070(CreateTableWithoutPrimaryKey));
    }
    let l = l.add_rule(LintRule::SQL070(CreateTableWithoutPrimaryKey));
    l
}

} // verus!
