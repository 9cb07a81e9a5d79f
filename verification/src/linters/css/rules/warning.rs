//! CSS rules of warning severity
use vstd::prelude::*;
use crate::lint::config::{LintConfig, enabled};
use crate::lint::error::{ErrorView, Severity, opt_str_view};
use crate::lint::linter::{Linter, lemma_fresh};
use crate::lint::registry::LintRule;
use crate::lint::report::LintReport;
use crate::lint::rule::Rule;
use crate::lint::edit::{Fix, single_fix};
use crate::lint::support::{lemma_line_fits, sum_pieces, line_offset, Tmpl, at, col_errors, hit_cols, once, tmpl, finding, make_error, report_hits, report_once, report_cols, lemma_lines_bounds, lemma_lines_total, total_chars, lemma_total_chars_take};
use crate::linters::common::{count_matches, count_matches_exec, count_lit, find_col, find_col_exec, word_errors, report_words, comma_needs_space, comma_needs_space_exec, brace_needs_space, brace_needs_space_exec, brace_prev_ascii, brace_prev_ascii_exec, match_errors, report_matches, all_true, trues, trailing_ws_errors, acc_offsets, piece_offsets, report_trailing_ws, acc_offsets_exec, piece_offsets_exec, unreachable_errors, report_unreachable};
use crate::text::{lines, views, contains, starts_with, ends_with, trim, trim_start, trim_end, upper, lower, chars_of, lines_of_str, contains_lit, starts_with_lit, ends_with_lit, eq_lit, trimmed, trimmed_start, trimmed_end, upper_of, lower_of, owned, string_of, slice_of, find, find_char, find_lit, find_chars, lemma_find, matches_at, is_ws, is_whitespace, utf8_len, byte_len, prefix_bytes, any_upper, has_upper, lemma_utf8_len_take, lemma_utf8_len_subrange, split_char, fits, match_indices, match_positions_lit, char_width, split_on, contains_char, numeric_char, is_numeric};
use crate::text::{match_positions, lemma_utf8_len_concat, is_ascii_upper, is_blank, lines_of, rfind_char_exec, rfind_char, width_of};

verus! {

/// CSS005: Avoid using !important.
#[derive(Clone, Copy, Debug)]
pub struct ImportantUsage;

/// Whether a line is reported by CSS005.
pub open spec fn css005_hit(l: Seq<char>) -> bool {
    contains(l, "!important"@)
}

fn css005_test(l: &[char]) -> (b: bool)
    ensures
        b == css005_hit(l@),
{
    contains_lit(l, "!important")
}

impl Rule for ImportantUsage {
    open spec fn spec_id(&self) -> Seq<char> {
        "CSS005"@
    }

    open spec fn spec_severity(&self) -> Severity {
        Severity::Warning
    }

    open spec fn is_pure(&self) -> bool {
        true
    }

    open spec fn accepts(&self, source: Seq<char>, disabled: Seq<Seq<char>>) -> bool {
        true
    }

    fn id(&self) -> (r: &'static str) {
        "CSS005"
    }

    fn severity(&self) -> (s: Severity) {
        Severity::Warning
    }

    fn admits(&self, source: &str, config: &LintConfig) -> (b: bool) {
        true
    }

    open spec fn findings(&self, file: Option<Seq<char>>, source: Seq<char>, disabled: Seq<Seq<char>>) -> Seq<ErrorView> {
        if enabled(disabled, "CSS005"@) {
            col_errors(hit_cols(lines(source).map_values(|l: Seq<char>| css005_hit(l))), tmpl(file, Severity::Warning, "CSS005"@, "Avoid using !important"@, "Refactor specificity instead"@))
        } else {
            seq![]
        }
    }

    fn check(&self, file: Option<&str>, source: &str, report: &mut LintReport, config: &LintConfig) {
        if !config.is_enabled(self.id()) {
            return;
        }
        let ls = lines_of_str(source);
        proof {
            lemma_lines_bounds(source@);
        }
        let mut hits: Vec<bool> = Vec::new();
        let mut i: usize = 0;
        while i < ls.len()
            invariant
                i <= ls@.len(),
                hits@.len() == i,
                views(ls@) == lines(source@),
                forall|j: int| 0 <= j < i ==> hits@[j] == css005_hit(lines(source@)[j]),
            decreases ls@.len() - i,
        {
            assert(views(ls@)[i as int] == ls@[i as int]@);
            hits.push(css005_test(ls[i].as_slice()));
            i += 1;
        }
        assert(hits@ =~= lines(source@).map_values(|l: Seq<char>| css005_hit(l)));
        report_hits(report, file, &hits, Severity::Warning, "CSS005", "Avoid using !important", "Refactor specificity instead");
    }
}

/// Number of occurrences of the character `c` in `s`.
fn count_of(s: &[char], c: char) -> (n: usize)
    ensures
        n == count_matches(s@, seq![c]),
{
    let mut p: Vec<char> = Vec::new();
    p.push(c);
    let ks = match_positions(s, p.as_slice());
    assert(ks@.map_values(|k: usize| k as int).len() == ks@.len());
    ks.len()
}

/// `{` on the trimmed line.
pub open spec fn css002_opens(l: Seq<char>) -> nat {
    count_matches(trim(l), seq!['{'])
}

/// `}` on the trimmed line.
pub open spec fn css002_closes(l: Seq<char>) -> nat {
    count_matches(trim(l), seq!['}'])
}

/// Brace depth after the first `n` lines.
pub open spec fn css002_depth(ls: Seq<Seq<char>>, n: int) -> int
    decreases n,
{
    if n <= 0 || n > ls.len() {
        0
    } else {
        css002_depth(ls, n - 1) + css002_opens(ls[n - 1]) - css002_closes(ls[n - 1])
    }
}

/// Line `n` moves the brace counter (an `i32`) without overflow.
pub open spec fn css002_step_ok(ls: Seq<Seq<char>>, n: int) -> bool {
    &&& css002_opens(ls[n]) <= i32::MAX
    &&& css002_closes(ls[n]) <= i32::MAX
    &&& css002_depth(ls, n) + css002_opens(ls[n]) <= i32::MAX
    &&& css002_depth(ls, n + 1) >= i32::MIN
}

/// The brace counter never overflows on `ls`.
pub open spec fn css002_in_range(ls: Seq<Seq<char>>) -> bool {
    forall|n: int| 0 <= n < ls.len() ==> #[trigger] css002_step_ok(ls, n)
}

/// A declaration line: not an at-rule, no brace, not a comment, has a colon.
pub open spec fn css002_declaration(l: Seq<char>) -> bool {
    let t = trim(l);
    !(starts_with(t, seq!['@']) || contains(t, seq!['{']) || contains(t, seq!['}']) || starts_with(
        t,
        seq!['/', '*'],
    ) || !contains(t, seq![':']))
}

/// The colon at `k` is followed by neither a space nor another colon.
pub open spec fn css002_flag(l: Seq<char>, k: int) -> bool {
    !(k + 1 < l.len() && (l[k + 1] == ':' || l[k + 1] == ' '))
}

/// Findings for the colons `ks` of line `l` (1-based number `line`, byte
/// offset `off`): column after the colon's byte index, fix inserting a space.
pub open spec fn css002_line_errors(l: Seq<char>, ks: Seq<int>, line: int, off: int, t: Tmpl) -> Seq<ErrorView>
    decreases ks.len(),
{
    if ks.len() == 0 {
        seq![]
    } else {
        let k = ks.last();
        let b = utf8_len(l.take(k)) as int;
        css002_line_errors(l, ks.drop_last(), line, off, t) + if css002_flag(l, k) {
            seq![at(t, line, b + 1, Some(single_fix(t.rule_id, off + b + 1, off + b + 1, seq![' '])))]
        } else {
            seq![]
        }
    }
}

/// Findings on the first `n` lines.
pub open spec fn css002_errors(ls: Seq<Seq<char>>, offs: Seq<int>, n: int, t: Tmpl) -> Seq<ErrorView>
    decreases n,
{
    if n <= 0 || n > ls.len() {
        seq![]
    } else {
        let i = n - 1;
        css002_errors(ls, offs, i, t) + if css002_depth(ls, n) > 0 && css002_declaration(ls[i]) {
            css002_line_errors(ls[i], match_indices(ls[i], seq![':']), i + 1, offs[i], t)
        } else {
            seq![]
        }
    }
}

fn css002_declaration_exec(t: &[char]) -> (b: bool)
    ensures
        b == !(starts_with(t@, seq!['@']) || contains(t@, seq!['{']) || contains(t@, seq!['}'])
            || starts_with(t@, seq!['/', '*']) || !contains(t@, seq![':'])),
{
    proof {
        reveal_strlit("@");
        reveal_strlit("{");
        reveal_strlit("}");
        reveal_strlit("/*");
        reveal_strlit(":");
        assert("@"@ =~= seq!['@']);
        assert("{"@ =~= seq!['{']);
        assert("}"@ =~= seq!['}']);
        assert("/*"@ =~= seq!['/', '*']);
        assert(":"@ =~= seq![':']);
    }
    !(starts_with_lit(t, "@") || contains_lit(t, "{") || contains_lit(t, "}") || starts_with_lit(
        t,
        "/*",
    ) || !contains_lit(t, ":"))
}

/// Appends `css002_line_errors` for line `l`.
fn report_css002_line(
    report: &mut LintReport,
    file: Option<&str>,
    l: &[char],
    line: usize,
    off: usize,
)
    requires
        off + utf8_len(l@) < usize::MAX,
    ensures
        final(report)@ == old(report)@ + css002_line_errors(
            l@,
            match_indices(l@, seq![':']),
            line as int,
            off as int,
            tmpl(opt_str_view(file), Severity::Warning, "CSS002"@, "Missing space after ':'"@, "Add space after ':'"@),
        ),
{
    let ghost t = tmpl(opt_str_view(file), Severity::Warning, "CSS002"@, "Missing space after ':'"@, "Add space after ':'"@);
    let mut colon: Vec<char> = Vec::new();
    colon.push(':');
    let ks = match_positions(l, colon.as_slice());
    let ghost kv = ks@.map_values(|k: usize| k as int);
    assert(colon@ =~= seq![':']);
    let mut j: usize = 0;
    while j < ks.len()
        invariant
            j <= ks@.len(),
            off + utf8_len(l@) < usize::MAX,
            kv == ks@.map_values(|k: usize| k as int),
            kv == match_indices(l@, seq![':']),
            forall|m: int| 0 <= m < ks@.len() ==> #[trigger] ks@[m] + 1 <= l@.len(),
            t == tmpl(opt_str_view(file), Severity::Warning, "CSS002"@, "Missing space after ':'"@, "Add space after ':'"@),
            report@ == old(report)@ + css002_line_errors(l@, kv.take(j as int), line as int, off as int, t),
        decreases ks@.len() - j,
    {
        let k = ks[j];
        assert(kv.take(j + 1).drop_last() =~= kv.take(j as int));
        assert(kv.take(j + 1).last() == k as int);
        let n = l.len();
        assert(k + 1 <= n);
        let flag = !(k + 1 < n && (l[k + 1] == ':' || l[k + 1] == ' '));
        if flag {
            proof {
                lemma_utf8_len_take(l@, k as int);
                lemma_utf8_len_take(l@, k + 1);
                assert(l@.take(k + 1).drop_last() =~= l@.take(k as int));
                lemma_utf8_len_concat(l@.take(k as int), seq![l@[k as int]]);
                assert(l@.take(k as int) + seq![l@[k as int]] =~= l@.take(k + 1));
            }
            let b = prefix_bytes(l, k);
            let g = off + b + 1;
            let fix = Fix::single("CSS002", g, g, owned(" "));
            proof {
                reveal_strlit(" ");
                assert(" "@ =~= seq![' ']);
            }
            report.push(finding(file, line, b + 1, Severity::Warning, "CSS002", "Missing space after ':'", "Add space after ':'", Some(fix)));
        }
        assert(report@ =~= old(report)@ + css002_line_errors(l@, kv.take(j + 1), line as int, off as int, t));
        j += 1;
    }
    assert(kv.take(j as int) =~= kv);
}

/// CSS002: Missing space after ':'.
#[derive(Clone, Copy, Debug)]
pub struct MissingColonSpace;

impl Rule for MissingColonSpace {
    open spec fn spec_id(&self) -> Seq<char> {
        "CSS002"@
    }

    open spec fn spec_severity(&self) -> Severity {
        Severity::Warning
    }

    open spec fn is_pure(&self) -> bool {
        true
    }

    open spec fn accepts(&self, source: Seq<char>, disabled: Seq<Seq<char>>) -> bool {
        !enabled(disabled, "CSS002"@) || (css002_in_range(lines(source)))
    }

    open spec fn findings(&self, file: Option<Seq<char>>, source: Seq<char>, disabled: Seq<Seq<char>>) -> Seq<ErrorView> {
        if enabled(disabled, "CSS002"@) {
            css002_errors(
                lines(source),
                piece_offsets(source),
                lines(source).len() as int,
                tmpl(file, Severity::Warning, "CSS002"@, "Missing space after ':'"@, "Add space after ':'"@),
            )
        } else {
            seq![]
        }
    }

    fn id(&self) -> (r: &'static str) {
        "CSS002"
    }

    fn severity(&self) -> (s: Severity) {
        Severity::Warning
    }

    fn admits(&self, source: &str, config: &LintConfig) -> (b: bool) {
        if !config.is_enabled(self.id()) {
            return true;
        }
        let ls = lines_of_str(source);
        let ghost lv = views(ls@);
        let mut depth: i64 = 0;
        let mut i: usize = 0;
        while i < ls.len()
            invariant
                enabled(config@, "CSS002"@),
                i <= ls@.len(),
                lv == views(ls@),
                lv == lines(source@),
                depth == css002_depth(lv, i as int),
                i32::MIN <= depth <= i32::MAX,
                forall|n: int| 0 <= n < i ==> #[trigger] css002_step_ok(lv, n),
            decreases ls@.len() - i,
        {
            assert(lv[i as int] == ls@[i as int]@);
            let t = trimmed(ls[i].as_slice());
            let o = count_of(t.as_slice(), '{');
            let c = count_of(t.as_slice(), '}');
            assert(css002_depth(lv, i + 1) == css002_depth(lv, i as int) + o - c);
            if o > 0x7fff_ffff || c > 0x7fff_ffff {
                assert(!css002_step_ok(lv, i as int));
                return false;
            }
            let up = depth + (o as i64);
            if up > 0x7fff_ffff {
                assert(!css002_step_ok(lv, i as int));
                return false;
            }
            let down = up - (c as i64);
            if down < -0x8000_0000 {
                assert(!css002_step_ok(lv, i as int));
                return false;
            }
            assert(css002_step_ok(lv, i as int));
            depth = down;
            i += 1;
        }
        true
    }

    fn check(&self, file: Option<&str>, source: &str, report: &mut LintReport, config: &LintConfig) {
        if !config.is_enabled(self.id()) {
            return;
        }
        let sc = chars_of(source);
        let ls = lines_of(sc.as_slice());
        let offs = piece_offsets_exec(sc.as_slice());
        let ghost lv = views(ls@);
        let ghost t = tmpl(opt_str_view(file), Severity::Warning, "CSS002"@, "Missing space after ':'"@, "Add space after ':'"@);
        let ghost ov = offs@.map_values(|o: usize| o as int);
        let mut depth: i32 = 0;
        let mut i: usize = 0;
        while i < ls.len()
            invariant
                i <= ls@.len(),
                lv == views(ls@),
                lv == lines(source@),
                css002_in_range(lv),
                depth == css002_depth(lv, i as int),
                offs@.len() >= lv.len(),
                ov == offs@.map_values(|o: usize| o as int),
                ov == piece_offsets(source@),
                forall|m: int| 0 <= m < lv.len() ==> offs@[m] + utf8_len(#[trigger] lv[m]) < usize::MAX,
                t == tmpl(opt_str_view(file), Severity::Warning, "CSS002"@, "Missing space after ':'"@, "Add space after ':'"@),
                report@ == old(report)@ + css002_errors(lv, ov, i as int, t),
            decreases ls@.len() - i,
        {
            assert(lv[i as int] == ls@[i as int]@);
            let l = ls[i].as_slice();
            let tl = trimmed(l);
            let o = count_of(tl.as_slice(), '{');
            let c = count_of(tl.as_slice(), '}');
            assert(css002_step_ok(lv, i as int));
            assert(css002_depth(lv, i + 1) == css002_depth(lv, i as int) + o - c);
            depth = depth + (o as i32);
            depth = depth - (c as i32);
            if depth > 0 && css002_declaration_exec(tl.as_slice()) {
                assert(offs@[i as int] + utf8_len(lv[i as int]) < usize::MAX);
                report_css002_line(report, file, l, i + 1, offs[i]);
            }
            assert(report@ =~= old(report)@ + css002_errors(lv, ov, i + 1, t));
            i += 1;
        }
    }
}

/// The rules of this group, in order.
pub fn rules() -> (v: Vec<LintRule>)
    ensures
        v@ == seq![LintRule::CSS002(MissingColonSpace), LintRule::CSS005(ImportantUsage)],
{
    let mut v: Vec<LintRule> = Vec::new();
    v.push(LintRule::CSS002(MissingColonSpace));
    v.push(LintRule::CSS005(ImportantUsage));
    assert(v@ =~= seq![LintRule::CSS002(MissingColonSpace), LintRule::CSS005(ImportantUsage)]);
    v
}

} // verus!
