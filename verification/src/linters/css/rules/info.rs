//! CSS rules of informational severity
use vstd::prelude::*;
use crate::lint::config::{LintConfig, enabled};
use crate::lint::error::{ErrorView, Severity, opt_str_view};
use crate::lint::linter::{Linter, lemma_fresh};
use crate::lint::registry::LintRule;
use crate::lint::report::LintReport;
use crate::lint::rule::Rule;
use crate::lint::edit::{Fix, single_fix};
use crate::lint::support::{lemma_line_fits, sum_pieces, line_offset, Tmpl, at, col_errors, hit_cols, once, tmpl, finding, make_error, report_hits, report_once, report_cols, lemma_lines_bounds, lemma_lines_total, total_chars, lemma_total_chars_take};
use crate::linters::common::{count_matches, count_matches_exec, count_lit, find_col, find_col_exec, word_errors, report_words, comma_needs_space, comma_needs_space_exec, brace_needs_space, brace_needs_space_exec, brace_prev_ascii, brace_prev_ascii_exec, match_errors, report_matches, all_true, trues, trailing_ws_errors, acc_offsets, piece_offsets, report_trailing_ws, acc_offsets_exec, piece_offsets_exec, unreachable_errors, report_unreachable};
use crate::text::{lines, views, contains, starts_with, ends_with, trim, trim_start, trim_end, upper, lower, chars_of, lines_of_str, contains_lit, starts_with_lit, ends_with_lit, eq_lit, trimmed, trimmed_start, trimmed_end, upper_of, lower_of, owned, string_of, slice_of, find, find_char, find_lit, find_chars, lemma_find, matches_at, is_ws, is_whitespace, utf8_len, byte_len, prefix_bytes, any_upper, has_upper, lemma_utf8_len_take, lemma_utf8_len_subrange, split_char, fits, match_indices, match_positions_lit, char_width, split_on, contains_char, numeric_char, is_numeric};
use crate::text::{match_positions, lemma_utf8_len_concat, is_ascii_upper, is_blank, lines_of, rfind_char_exec, rfind_char, width_of};

verus! {

/// CSS001: Trailing whitespace.
#[derive(Clone, Copy, Debug)]
pub struct TrailingWhitespace;

impl Rule for TrailingWhitespace {
    open spec fn spec_id(&self) -> Seq<char> {
        "CSS001"@
    }

    open spec fn spec_severity(&self) -> Severity {
        Severity::Info
    }

    open spec fn is_pure(&self) -> bool {
        true
    }

    open spec fn accepts(&self, source: Seq<char>, disabled: Seq<Seq<char>>) -> bool {
        true
    }

    fn id(&self) -> (r: &'static str) {
        "CSS001"
    }

    fn severity(&self) -> (s: Severity) {
        Severity::Info
    }

    fn admits(&self, source: &str, config: &LintConfig) -> (b: bool) {
        true
    }

    open spec fn findings(&self, file: Option<Seq<char>>, source: Seq<char>, disabled: Seq<Seq<char>>) -> Seq<ErrorView> {
        if enabled(disabled, "CSS001"@) {
            trailing_ws_errors(lines(source), piece_offsets(source), tmpl(file, Severity::Info, "CSS001"@, "Trailing whitespace"@, "Remove trailing spaces"@))
        } else {
            seq![]
        }
    }

    fn check(&self, file: Option<&str>, source: &str, report: &mut LintReport, config: &LintConfig) {
        if !config.is_enabled(self.id()) {
            return;
        }
        let ls = lines_of_str(source);
        proof {
            lemma_lines_bounds(source@);
        }
        let src = chars_of(source);
        let offs = piece_offsets_exec(src.as_slice());
        assert forall|i: int| 0 <= i < ls@.len() implies offs@[i] + utf8_len(#[trigger] ls@[i]@) <= usize::MAX by {
            assert(views(ls@)[i] == ls@[i]@);
        }
        report_trailing_ws(report, file, &ls, &offs, Severity::Info, "CSS001", "Trailing whitespace", "Remove trailing spaces");
    }
}

/// CSS010: Avoid universal selector.
#[derive(Clone, Copy, Debug)]
pub struct UniversalSelector;

/// Whether a line is reported by CSS010.
pub open spec fn css010_hit(l: Seq<char>) -> bool {
    starts_with(trim_start(l), "*"@)
}

fn css010_test(l: &[char]) -> (b: bool)
    ensures
        b == css010_hit(l@),
{
    starts_with_lit(trimmed_start(l).as_slice(), "*")
}

impl Rule for UniversalSelector {
    open spec fn spec_id(&self) -> Seq<char> {
        "CSS010"@
    }

    open spec fn spec_severity(&self) -> Severity {
        Severity::Info
    }

    open spec fn is_pure(&self) -> bool {
        true
    }

    open spec fn accepts(&self, source: Seq<char>, disabled: Seq<Seq<char>>) -> bool {
        true
    }

    fn id(&self) -> (r: &'static str) {
        "CSS010"
    }

    fn severity(&self) -> (s: Severity) {
        Severity::Info
    }

    fn admits(&self, source: &str, config: &LintConfig) -> (b: bool) {
        true
    }

    open spec fn findings(&self, file: Option<Seq<char>>, source: Seq<char>, disabled: Seq<Seq<char>>) -> Seq<ErrorView> {
        if enabled(disabled, "CSS010"@) {
            col_errors(hit_cols(lines(source).map_values(|l: Seq<char>| css010_hit(l))), tmpl(file, Severity::Info, "CSS010"@, "Avoid universal selector"@, "Use more specific selector"@))
        } else {
            seq![]
        }
    }

    fn check(&self, file: Option<&str>, source: &str, report: &mut LintReport, config: &LintConfig) {
        if !config.is_enabled(self.id()) {
            return;
        }
        let ls = lines_of_str(source);
        proof {
            lemma_lines_bounds(source@);
        }
        let mut hits: Vec<bool> = Vec::new();
        let mut i: usize = 0;
        while i < ls.len()
            invariant
                i <= ls@.len(),
                hits@.len() == i,
                views(ls@) == lines(source@),
                forall|j: int| 0 <= j < i ==> hits@[j] == css010_hit(lines(source@)[j]),
            decreases ls@.len() - i,
        {
            assert(views(ls@)[i as int] == ls@[i as int]@);
            hits.push(css010_test(ls[i].as_slice()));
            i += 1;
        }
        assert(hits@ =~= lines(source@).map_values(|l: Seq<char>| css010_hit(l)));
        report_hits(report, file, &hits, Severity::Info, "CSS010", "Avoid universal selector", "Use more specific selector");
    }
}

/// The 7 bytes starting at the `#` at `k` end exactly before character `j`.
pub open spec fn css004_ends_at(s: Seq<char>, k: int, j: int) -> bool {
    k < j <= s.len() && utf8_len(s.subrange(k, j)) == 7
}

/// When at least 7 bytes follow the `#` at `k`, the 7th ends on a character
/// boundary (otherwise slicing would panic).
pub open spec fn css004_ok(s: Seq<char>, k: int) -> bool {
    utf8_len(s.skip(k)) < 7 || exists|j: int| css004_ends_at(s, k, j)
}

/// The six bytes after the `#` at `k`, as characters.
pub open spec fn css004_hex(s: Seq<char>, k: int) -> Seq<char> {
    s.subrange(k + 1, choose|j: int| css004_ends_at(s, k, j))
}

/// Some character of `h` is an ASCII capital letter.
pub open spec fn has_ascii_upper(h: Seq<char>) -> bool {
    exists|i: int| 0 <= i < h.len() && is_ascii_upper(#[trigger] h[i])
}

/// Findings at the `#`s at `ks`: line 0, column 0, with a fix replacing the
/// six bytes after the `#` by their lower-case form.
pub open spec fn css004_errors(s: Seq<char>, ks: Seq<int>, t: Tmpl) -> Seq<ErrorView>
    decreases ks.len(),
{
    if ks.len() == 0 {
        seq![]
    } else {
        let k = ks.last();
        let b = utf8_len(s.take(k)) as int;
        css004_errors(s, ks.drop_last(), t) + if utf8_len(s.skip(k)) >= 7 && has_ascii_upper(
            css004_hex(s, k),
        ) {
            seq![at(t, 0, 0, Some(single_fix(t.rule_id, b + 1, b + 7, lower(css004_hex(s, k)))))]
        } else {
            seq![]
        }
    }
}

proof fn lemma_css004_unique(s: Seq<char>, k: int, j1: int, j2: int)
    requires
        0 <= k,
        css004_ends_at(s, k, j1),
        css004_ends_at(s, k, j2),
    ensures
        j1 == j2,
{
    if j1 != j2 {
        let (a, b) = if j1 < j2 {
            (j1, j2)
        } else {
            (j2, j1)
        };
        crate::text::lemma_utf8_len_subrange(s, k, a);
        crate::text::lemma_utf8_len_subrange(s, k, b);
        crate::text::lemma_utf8_len_subrange(s, a, b);
        crate::text::lemma_utf8_len_bounds(s.subrange(a, b));
    }
}

/// Walks from the `#` at `k` over at least 7 bytes: the first `j` with
/// `utf8_len(s[k..j]) >= 7`, and whether it is exactly 7.
fn css004_walk(s: &[char], k: usize) -> (r: (usize, bool))
    requires
        k < s@.len(),
        utf8_len(s@.skip(k as int)) >= 7,
    ensures
        r.1 == exists|j: int| css004_ends_at(s@, k as int, j),
        r.1 ==> css004_ends_at(s@, k as int, r.0 as int),
{
    let mut j: usize = k;
    let mut acc: usize = 0;
    assert(s@.subrange(k as int, k as int) =~= Seq::<char>::empty());
    while acc < 7
        invariant
            k <= j <= s@.len(),
            acc == utf8_len(s@.subrange(k as int, j as int)),
            utf8_len(s@.skip(k as int)) >= 7,
            forall|m: int| k < m < j ==> utf8_len(#[trigger] s@.subrange(k as int, m)) < 7,
        decreases s@.len() - j,
    {
        if j == s.len() {
            assert(s@.subrange(k as int, j as int) =~= s@.skip(k as int));
            assert(false);
        }
        proof {
            assert(s@.subrange(k as int, j + 1).drop_last() =~= s@.subrange(k as int, j as int));
        }
        acc = acc + width_of(s[j]);
        j += 1;
    }
    if acc == 7 {
        if j == k {
            assert(s@.subrange(k as int, j as int) =~= Seq::<char>::empty());
        }
        assert(css004_ends_at(s@, k as int, j as int));
        (j, true)
    } else {
        assert forall|m: int| !css004_ends_at(s@, k as int, m) by {
            if css004_ends_at(s@, k as int, m) {
                if m > j {
                    crate::text::lemma_utf8_len_take(s@.subrange(k as int, m), j - k);
                    assert(s@.subrange(k as int, m).take(j - k) =~= s@.subrange(k as int, j as int));
                } else if m < j {
                    assert(k < m < j);
                    assert(utf8_len(s@.subrange(k as int, m)) < 7);
                }
            }
        }
        (j, false)
    }
}

/// Whether some character is an ASCII capital letter.
fn has_ascii_upper_exec(h: &[char]) -> (b: bool)
    ensures
        b == has_ascii_upper(h@),
{
    let mut i: usize = 0;
    while i < h.len()
        invariant
            i <= h@.len(),
            forall|m: int| 0 <= m < i ==> !is_ascii_upper(#[trigger] h@[m]),
        decreases h@.len() - i,
    {
        if 'A' <= h[i] && h[i] <= 'Z' {
            assert(is_ascii_upper(h@[i as int]));
            return true;
        }
        i += 1;
    }
    false
}

/// CSS004: Hex color should be lowercase.
#[derive(Clone, Copy, Debug)]
pub struct UppercaseHexColor;

impl Rule for UppercaseHexColor {
    open spec fn spec_id(&self) -> Seq<char> {
        "CSS004"@
    }

    open spec fn spec_severity(&self) -> Severity {
        Severity::Info
    }

    open spec fn is_pure(&self) -> bool {
        true
    }

    open spec fn accepts(&self, source: Seq<char>, disabled: Seq<Seq<char>>) -> bool {
        !enabled(disabled, "CSS004"@) || (fits(source) ==> forall|k: int| 0 <= k < source.len() && source[k] == '#' ==> #[trigger] css004_ok(source, k))
    }

    open spec fn findings(&self, file: Option<Seq<char>>, source: Seq<char>, disabled: Seq<Seq<char>>) -> Seq<ErrorView> {
        if enabled(disabled, "CSS004"@) {
            css004_errors(
                source,
                match_indices(source, seq!['#']),
                tmpl(file, Severity::Info, "CSS004"@, "Hex color should be lowercase"@, "Use lowercase hex"@),
            )
        } else {
            seq![]
        }
    }

    fn id(&self) -> (r: &'static str) {
        "CSS004"
    }

    fn severity(&self) -> (s: Severity) {
        Severity::Info
    }

    fn admits(&self, source: &str, config: &LintConfig) -> (b: bool) {
        if !config.is_enabled(self.id()) {
            return true;
        }
        let s = chars_of(source);
        if !crate::text::fits_exec(s.as_slice()) {
            return true;
        }
        let total = byte_len(s.as_slice());
        let mut k: usize = 0;
        while k < s.len()
            invariant
                enabled(config@, "CSS004"@),
                k <= s@.len(),
                s@ == source@,
                fits(s@),
                total == utf8_len(s@),
                forall|m: int| 0 <= m < k && s@[m] == '#' ==> #[trigger] css004_ok(s@, m),
            decreases s@.len() - k,
        {
            if s[k] == '#' {
                proof {
                    crate::text::lemma_utf8_len_take(s@, k as int);
                }
                let b = prefix_bytes(s.as_slice(), k);
                if total - b >= 7 {
                    let (_, ok) = css004_walk(s.as_slice(), k);
                    if !ok {
                        assert(!css004_ok(s@, k as int));
                        return false;
                    }
                }
            }
            k += 1;
        }
        true
    }

    fn check(&self, file: Option<&str>, source: &str, report: &mut LintReport, config: &LintConfig) {
        if !config.is_enabled(self.id()) {
            return;
        }
        let s = chars_of(source);
        let total = byte_len(s.as_slice());
        let mut hash: Vec<char> = Vec::new();
        hash.push('#');
        assert(hash@ =~= seq!['#']);
        let ks = match_positions(s.as_slice(), hash.as_slice());
        let ghost kv = ks@.map_values(|k: usize| k as int);
        let ghost t = tmpl(opt_str_view(file), Severity::Info, "CSS004"@, "Hex color should be lowercase"@, "Use lowercase hex"@);
        proof {
            crate::text::lemma_match_indices_at(s@, seq!['#']);
            assert forall|m: int| 0 <= m < kv.len() implies s@[#[trigger] kv[m]] == '#' by {
                assert(matches_at(s@, seq!['#'], kv[m]));
                assert(s@.subrange(kv[m], kv[m] + 1)[0] == s@[kv[m]]);
            }
        }
        let mut i: usize = 0;
        while i < ks.len()
            invariant
                i <= ks@.len(),
                s@ == source@,
                fits(s@),
                total == utf8_len(s@),
                forall|m: int| 0 <= m < s@.len() && s@[m] == '#' ==> #[trigger] css004_ok(s@, m),
                kv == ks@.map_values(|k: usize| k as int),
                kv == match_indices(s@, seq!['#']),
                forall|m: int| 0 <= m < ks@.len() ==> #[trigger] ks@[m] + 1 <= s@.len(),
                forall|m: int| 0 <= m < kv.len() ==> s@[#[trigger] kv[m]] == '#',
                t == tmpl(opt_str_view(file), Severity::Info, "CSS004"@, "Hex color should be lowercase"@, "Use lowercase hex"@),
                report@ == old(report)@ + css004_errors(s@, kv.take(i as int), t),
            decreases ks@.len() - i,
        {
            let k = ks[i];
            assert(kv.take(i + 1).drop_last() =~= kv.take(i as int));
            assert(kv.take(i + 1).last() == k as int);
            assert(s@[kv[i as int]] == '#');
            proof {
                crate::text::lemma_utf8_len_take(s@, k as int);
            }
            let b = prefix_bytes(s.as_slice(), k);
            if total - b >= 7 {
                assert(css004_ok(s@, k as int));
                let (j, ok) = css004_walk(s.as_slice(), k);
                proof {
                    let jj = choose|j: int| css004_ends_at(s@, k as int, j);
                    lemma_css004_unique(s@, k as int, j as int, jj);
                }
                let hex = slice_of(s.as_slice(), k + 1, j);
                if has_ascii_upper_exec(hex.as_slice()) {
                    let low = lower_of(hex.as_slice());
                    let fix = Fix::single("CSS004", b + 1, b + 7, string_of(low.as_slice()));
                    report.push(finding(file, 0, 0, Severity::Info, "CSS004", "Hex color should be lowercase", "Use lowercase hex", Some(fix)));
                }
            }
            assert(report@ =~= old(report)@ + css004_errors(s@, kv.take(i + 1), t));
            i += 1;
        }
        assert(kv.take(i as int) =~= kv);
    }
}

/// The multi-line replacement of a single-line block `sel { body }`, if the
/// line has a `{` before its last `}` and a non-blank body: the indentation,
/// the trimmed selector, ` {`, the body on its own line indented four more
/// spaces, and `}` on its own line.
pub open spec fn css006_fix(l: Seq<char>) -> Option<Seq<char>> {
    match find(l, seq!['{']) {
        Some(open) => match rfind_char(l, '}') {
            Some(close) => {
                let ind = l.take(l.len() - trim_start(l).len());
                let sel = trim_end(l.take(open));
                let body = trim(l.subrange(open + 1, close));
                if open < close && body.len() > 0 {
                    Some(
                        ind + sel + seq![' ', '{', '\n'] + ind + seq![' ', ' ', ' ', ' '] + body + seq![
                            '\n',
                        ] + ind + seq!['}'],
                    )
                } else {
                    None
                }
            },
            None => None,
        },
        None => None,
    }
}

/// Findings on the first `n` lines: at column 1, with a fix replacing the
/// whole line (bytes `offs[i] .. offs[i] + len`).
pub open spec fn css006_errors(ls: Seq<Seq<char>>, offs: Seq<int>, n: int, t: Tmpl) -> Seq<ErrorView>
    decreases n,
{
    if n <= 0 || n > ls.len() {
        seq![]
    } else {
        let i = n - 1;
        css006_errors(ls, offs, i, t) + match css006_fix(ls[i]) {
            Some(f) => seq![at(t, n, 1, Some(single_fix(t.rule_id, offs[i], offs[i] + utf8_len(ls[i]), f)))],
            None => seq![],
        }
    }
}

fn css006_fix_exec(l: &[char]) -> (r: Option<Vec<char>>)
    ensures
        match r {
            Some(v) => css006_fix(l@) == Some(v@),
            None => css006_fix(l@) is None,
        },
{
    let open = match find_char(l, '{') {
        Some(o) => o,
        None => return None,
    };
    let close = match rfind_char_exec(l, '}') {
        Some(c) => c,
        None => return None,
    };
    proof {
        lemma_find(l@, seq!['{']);
        crate::text::lemma_rfind_char(l@, '}');
    }
    if open >= close {
        return None;
    }
    let k = crate::text::trim_start_idx(l);
    let ind = slice_of(l, 0, k);
    let head = slice_of(l, 0, open);
    let sel = trimmed_end(head.as_slice());
    let inner = slice_of(l, open + 1, close);
    let body = trimmed(inner.as_slice());
    if body.len() == 0 {
        return None;
    }
    let mut r: Vec<char> = Vec::new();
    let mut parts: Vec<Vec<char>> = Vec::new();
    parts.push(ind.clone());
    parts.push(sel);
    parts.push(chars_of(" {\n"));
    parts.push(ind.clone());
    parts.push(chars_of("    "));
    parts.push(body);
    parts.push(chars_of("\n"));
    parts.push(ind);
    parts.push(chars_of("}"));
    let mut p: usize = 0;
    while p < parts.len()
        invariant
            p <= parts@.len(),
            r@ == crate::minify::scan::join_all(views(parts@).take(p as int)),
        decreases parts@.len() - p,
    {
        let ghost before = r@;
        let part = &parts[p];
        let mut q: usize = 0;
        while q < part.len()
            invariant
                q <= part@.len(),
                r@ == before + part@.take(q as int),
            decreases part@.len() - q,
        {
            r.push(part[q]);
            assert(part@.take(q + 1) =~= part@.take(q as int).push(part@[q as int]));
            q += 1;
        }
        assert(part@.take(q as int) =~= part@);
        assert(views(parts@).take(p + 1).drop_last() =~= views(parts@).take(p as int));
        assert(views(parts@)[p as int] == part@);
        p += 1;
    }
    proof {
        crate::text::lemma_trim_start_suffix(l@);
        reveal_with_fuel(crate::minify::scan::join_all, 10);
        assert(views(parts@).take(p as int) =~= views(parts@));
        reveal_strlit(" {\n");
        reveal_strlit("    ");
        reveal_strlit("\n");
        reveal_strlit("}");
        assert(" {\n"@ =~= seq![' ', '{', '\n']);
        assert("    "@ =~= seq![' ', ' ', ' ', ' ']);
        assert("\n"@ =~= seq!['\n']);
        assert("}"@ =~= seq!['}']);
    }
    Some(r)
}

/// CSS006: Avoid single-line block declarations.
#[derive(Clone, Copy, Debug)]
pub struct InlineBlockStyle;

impl Rule for InlineBlockStyle {
    open spec fn spec_id(&self) -> Seq<char> {
        "CSS006"@
    }

    open spec fn spec_severity(&self) -> Severity {
        Severity::Info
    }

    open spec fn is_pure(&self) -> bool {
        true
    }

    open spec fn accepts(&self, source: Seq<char>, disabled: Seq<Seq<char>>) -> bool {
        true
    }

    open spec fn findings(&self, file: Option<Seq<char>>, source: Seq<char>, disabled: Seq<Seq<char>>) -> Seq<ErrorView> {
        if enabled(disabled, "CSS006"@) {
            css006_errors(
                lines(source),
                acc_offsets(lines(source)),
                lines(source).len() as int,
                tmpl(file, Severity::Info, "CSS006"@, "Avoid single-line block declarations"@, "Use multi-line block"@),
            )
        } else {
            seq![]
        }
    }

    fn id(&self) -> (r: &'static str) {
        "CSS006"
    }

    fn severity(&self) -> (s: Severity) {
        Severity::Info
    }

    fn admits(&self, source: &str, config: &LintConfig) -> (b: bool) {
        true
    }

    fn check(&self, file: Option<&str>, source: &str, report: &mut LintReport, config: &LintConfig) {
        if !config.is_enabled(self.id()) {
            return;
        }
        let ls = lines_of_str(source);
        let ghost lv = views(ls@);
        let offs = acc_offsets_exec(&ls, Ghost(source@));
        let ghost ov = offs@.map_values(|o: usize| o as int);
        let ghost t = tmpl(opt_str_view(file), Severity::Info, "CSS006"@, "Avoid single-line block declarations"@, "Use multi-line block"@);
        let mut i: usize = 0;
        while i < ls.len()
            invariant
                i <= ls@.len(),
                lv == views(ls@),
                lv == lines(source@),
                offs@.len() == ls@.len(),
                ov == offs@.map_values(|o: usize| o as int),
                ov == acc_offsets(lv),
                forall|m: int| 0 <= m < ls@.len() ==> offs@[m] + utf8_len(#[trigger] ls@[m]@) < usize::MAX,
                t == tmpl(opt_str_view(file), Severity::Info, "CSS006"@, "Avoid single-line block declarations"@, "Use multi-line block"@),
                report@ == old(report)@ + css006_errors(lv, ov, i as int, t),
            decreases ls@.len() - i,
        {
            assert(lv[i as int] == ls@[i as int]@);
            let l = ls[i].as_slice();
            match css006_fix_exec(l) {
                Some(f) => {
                    assert(offs@[i as int] + utf8_len(ls@[i as int]@) < usize::MAX);
                    let len = byte_len(l);
                    let fix = Fix::single("CSS006", offs[i], offs[i] + len, string_of(f.as_slice()));
                    report.push(finding(file, i + 1, 1, Severity::Info, "CSS006", "Avoid single-line block declarations", "Use multi-line block", Some(fix)));
                },
                None => {},
            }
            assert(report@ =~= old(report)@ + css006_errors(lv, ov, i + 1, t));
            i += 1;
        }
    }
}

/// CSS007: Zero should not have unit.
#[derive(Clone, Copy, Debug)]
pub struct ZeroWithUnit;

impl Rule for ZeroWithUnit {
    open spec fn spec_id(&self) -> Seq<char> {
        "CSS007"@
    }

    open spec fn spec_severity(&self) -> Severity {
        Severity::Info
    }

    open spec fn is_pure(&self) -> bool {
        true
    }

    open spec fn accepts(&self, source: Seq<char>, disabled: Seq<Seq<char>>) -> bool {
        true
    }

    open spec fn findings(&self, file: Option<Seq<char>>, source: Seq<char>, disabled: Seq<Seq<char>>) -> Seq<ErrorView> {
        if enabled(disabled, "CSS007"@) {
            match_errors(source, match_indices(source, "0px"@), trues(match_indices(source, "0px"@).len() as int), tmpl(file, Severity::Info, "CSS007"@, "Zero should not have unit"@, "Use '0' instead of '0px'"@), Some((0, 3, "0"@)))
        } else {
            seq![]
        }
    }

    fn id(&self) -> (r: &'static str) {
        "CSS007"
    }

    fn severity(&self) -> (s: Severity) {
        Severity::Info
    }

    fn admits(&self, source: &str, config: &LintConfig) -> (b: bool) {
        true
    }

    fn check(&self, file: Option<&str>, source: &str, report: &mut LintReport, config: &LintConfig) {
        if !config.is_enabled(self.id()) {
            return;
        }
        let src = chars_of(source);
        let ghost before = report@;
        {
            proof {
                reveal_strlit("0px");
            }
            let ks = match_positions_lit(src.as_slice(), "0px");
            proof {
                assert(ks@.map_values(|k: usize| k as int) == match_indices(source@, "0px"@));
                assert forall|t: int| 0 <= t < ks@.len() implies #[trigger] ks@[t] <= src@.len() by {
                    assert(ks@[t] + "0px"@.len() <= src@.len());
                }
            }
        let conds = all_true(ks.len());
        assert(conds@ =~= trues(match_indices(source@, "0px"@).len() as int));
            report_matches(report, file, src.as_slice(), &ks, &conds, Severity::Info, "CSS007", "Zero should not have unit", "Use '0' instead of '0px'", Some((0, 3, "0")));
        }
    }
}



/// Line `i` of `ls` is blank and follows a blank line.
pub open spec fn css008_hit(ls: Seq<Seq<char>>, i: int) -> bool {
    0 < i && is_blank(ls[i]) && is_blank(ls[i - 1])
}

/// CSS008: Multiple consecutive blank lines.
#[derive(Clone, Copy, Debug)]
pub struct MultipleBlankLines;

impl Rule for MultipleBlankLines {
    open spec fn spec_id(&self) -> Seq<char> {
        "CSS008"@
    }

    open spec fn spec_severity(&self) -> Severity {
        Severity::Info
    }

    open spec fn is_pure(&self) -> bool {
        true
    }

    open spec fn accepts(&self, source: Seq<char>, disabled: Seq<Seq<char>>) -> bool {
        true
    }

    open spec fn findings(&self, file: Option<Seq<char>>, source: Seq<char>, disabled: Seq<Seq<char>>) -> Seq<ErrorView> {
        if enabled(disabled, "CSS008"@) {
            col_errors(
                hit_cols(Seq::new(lines(source).len(), |i: int| css008_hit(lines(source), i))),
                tmpl(file, Severity::Info, "CSS008"@, "Multiple consecutive blank lines"@, "Reduce to a single blank line"@),
            )
        } else {
            seq![]
        }
    }

    fn id(&self) -> (r: &'static str) {
        "CSS008"
    }

    fn severity(&self) -> (s: Severity) {
        Severity::Info
    }

    fn admits(&self, source: &str, config: &LintConfig) -> (b: bool) {
        true
    }

    fn check(&self, file: Option<&str>, source: &str, report: &mut LintReport, config: &LintConfig) {
        if !config.is_enabled(self.id()) {
            return;
        }
        let ls = lines_of_str(source);
        proof {
            lemma_lines_bounds(source@);
        }
        let ghost v = views(ls@);
        let mut hits: Vec<bool> = Vec::new();
        let mut previous_blank = false;
        let mut i: usize = 0;
        while i < ls.len()
            invariant
                v == views(ls@),
                v == lines(source@),
                i <= ls@.len(),
                hits@.len() == i,
                previous_blank == (i > 0 && is_blank(v[i - 1])),
                forall|j: int| 0 <= j < i ==> hits@[j] == css008_hit(v, j),
            decreases ls@.len() - i,
        {
            assert(v[i as int] == ls@[i as int]@);
            let blank = trimmed(ls[i].as_slice()).len() == 0;
            hits.push(blank && previous_blank);
            previous_blank = blank;
            i += 1;
        }
        assert(hits@ =~= Seq::new(lines(source@).len(), |i: int| css008_hit(lines(source@), i)));
        report_hits(report, file, &hits, Severity::Info, "CSS008", "Multiple consecutive blank lines", "Reduce to a single blank line");
    }
}

/// CSS009: Avoid leading zero in decimal.
#[derive(Clone, Copy, Debug)]
pub struct LeadingZeroDecimal;

impl Rule for LeadingZeroDecimal {
    open spec fn spec_id(&self) -> Seq<char> {
        "CSS009"@
    }

    open spec fn spec_severity(&self) -> Severity {
        Severity::Info
    }

    open spec fn is_pure(&self) -> bool {
        true
    }

    open spec fn accepts(&self, source: Seq<char>, disabled: Seq<Seq<char>>) -> bool {
        true
    }

    open spec fn findings(&self, file: Option<Seq<char>>, source: Seq<char>, disabled: Seq<Seq<char>>) -> Seq<ErrorView> {
        if enabled(disabled, "CSS009"@) {
            match_errors(source, match_indices(source, "0."@), trues(match_indices(source, "0."@).len() as int), tmpl(file, Severity::Info, "CSS009"@, "Avoid leading zero in decimal"@, "Use '.5' instead of '0.5'"@), None)
        } else {
            seq![]
        }
    }

    fn id(&self) -> (r: &'static str) {
        "CSS009"
    }

    fn severity(&self) -> (s: Severity) {
        Severity::Info
    }

    fn admits(&self, source: &str, config: &LintConfig) -> (b: bool) {
        true
    }

    fn check(&self, file: Option<&str>, source: &str, report: &mut LintReport, config: &LintConfig) {
        if !config.is_enabled(self.id()) {
            return;
        }
        let src = chars_of(source);
        let ghost before = report@;
        {
            proof {
                reveal_strlit("0.");
            }
            let ks = match_positions_lit(src.as_slice(), "0.");
            proof {
                assert(ks@.map_values(|k: usize| k as int) == match_indices(source@, "0."@));
                assert forall|t: int| 0 <= t < ks@.len() implies #[trigger] ks@[t] <= src@.len() by {
                    assert(ks@[t] + "0."@.len() <= src@.len());
                }
            }
        let conds = all_true(ks.len());
        assert(conds@ =~= trues(match_indices(source@, "0."@).len() as int));
            report_matches(report, file, src.as_slice(), &ks, &conds, Severity::Info, "CSS009", "Avoid leading zero in decimal", "Use '.5' instead of '0.5'", None);
        }
    }
}



/// The rules of this group, in order.
pub fn rules() -> (v: Vec<LintRule>)
    ensures
        v@ == seq![LintRule::CSS001(TrailingWhitespace), LintRule::CSS004(UppercaseHexColor), LintRule::CSS006(InlineBlockStyle), LintRule::CSS007(ZeroWithUnit), LintRule::CSS008(MultipleBlankLines), LintRule::CSS009(LeadingZeroDecimal), LintRule::CSS010(UniversalSelector)],
{
    let mut v: Vec<LintRule> = Vec::new();
    v.push(LintRule::CSS001(TrailingWhitespace));
    v.push(LintRule::CSS004(UppercaseHexColor));
    v.push(LintRule::CSS006(InlineBlockStyle));
    v.push(LintRule::CSS007(ZeroWithUnit));
    v.push(LintRule::CSS008(MultipleBlankLines));
    v.push(LintRule::CSS009(LeadingZeroDecimal));
    v.push(LintRule::CSS010(UniversalSelector));
    assert(v@ =~= seq![LintRule::CSS001(TrailingWhitespace), LintRule::CSS004(UppercaseHexColor), LintRule::CSS006(InlineBlockStyle), LintRule::CSS007(ZeroWithUnit), LintRule::CSS008(MultipleBlankLines), LintRule::CSS009(LeadingZeroDecimal), LintRule::CSS010(UniversalSelector)]);
    v
}

} // verus!
