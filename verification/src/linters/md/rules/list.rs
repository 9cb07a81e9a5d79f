//! Markdown rules on lists.
use vstd::prelude::*;
use crate::lint::config::{LintConfig, enabled};
use crate::lint::edit::{Fix, single_fix};
use crate::lint::error::{ErrorView, Severity, opt_str_view};
use crate::lint::registry::LintRule;
use crate::lint::report::LintReport;
use crate::lint::rule::Rule;
use crate::lint::support::{Tmpl, at, col_errors, hit_cols, tmpl, finding, make_error, report_hits, lemma_lines_bounds, lemma_line_fits};
use crate::linters::common::{piece_offsets, piece_offsets_exec};
use crate::text::{
    chars_of, decimal, decimal_chars, find, find_char, fits, is_blank, is_numeric, lemma_find,
    lemma_utf8_len_take, lines, lines_of_str, numeric_char, owned, parse_usize,
    parse_usize_exec, prefix_bytes, slice_of, starts_with, starts_with_lit, trim, trim_end,
    trim_end_len, trim_start, trimmed, trimmed_start, utf8_len, views, byte_len,
};

verus! {

// ------------------------------------------------------------------
// List items
// ------------------------------------------------------------------

/// A bulleted item: `- `, `* ` or `+ ` (after the indentation).
pub open spec fn bullet(t: Seq<char>) -> bool {
    starts_with(t, seq!['-', ' ']) || starts_with(t, seq!['*', ' ']) || starts_with(t, seq!['+', ' '])
}

/// Starts with a numeric character.
pub open spec fn numeric_start(t: Seq<char>) -> bool {
    t.len() > 0 && numeric_char(t[0])
}

/// A bulleted or numbered item.
pub open spec fn list_item(t: Seq<char>) -> bool {
    bullet(t) || numeric_start(t)
}

pub fn bullet_exec(t: &[char]) -> (b: bool)
    ensures
        b == bullet(t@),
{
    proof {
        reveal_strlit("- ");
        reveal_strlit("* ");
        reveal_strlit("+ ");
        assert("- "@ =~= seq!['-', ' ']);
        assert("* "@ =~= seq!['*', ' ']);
        assert("+ "@ =~= seq!['+', ' ']);
    }
    starts_with_lit(t, "- ") || starts_with_lit(t, "* ") || starts_with_lit(t, "+ ")
}

pub fn list_item_exec(t: &[char]) -> (b: bool)
    ensures
        b == list_item(t@),
{
    bullet_exec(t) || (t.len() > 0 && is_numeric(t[0]))
}

/// The hits of a per-line test, as a vector (`hits[i] == f(i)`).
pub open spec fn hits_of(n: int, f: spec_fn(int) -> bool) -> Seq<bool> {
    Seq::new(n as nat, |i: int| f(i))
}

/// Line `i` starts a list right after a non-blank line that is not a
/// bulleted item.
pub open spec fn md006_hit(ls: Seq<Seq<char>>, i: int) -> bool {
    0 < i < ls.len() && bullet(trim_start(ls[i])) && !bullet(trim_start(ls[i - 1])) && !is_blank(ls[i - 1])
}

/// The findings of MD006 on the first `n` lines: column 1, with a fix that
/// inserts a line break where the list line starts (byte offset `offs[i]`
/// of line `i`), leaving a blank line before the list.
pub open spec fn md006_errors(ls: Seq<Seq<char>>, offs: Seq<int>, n: int, t: Tmpl) -> Seq<ErrorView>
    decreases n,
{
    if n <= 0 || n > ls.len() {
        seq![]
    } else {
        md006_errors(ls, offs, n - 1, t) + if md006_hit(ls, n - 1) {
            seq![at(t, n, 1, Some(single_fix(t.rule_id, offs[n - 1], offs[n - 1], seq!['\n'])))]
        } else {
            seq![]
        }
    }
}

/// MD006: Missing blank line before list.
#[derive(Clone, Copy, Debug)]
pub struct ListFormatting;

impl Rule for ListFormatting {
    open spec fn spec_id(&self) -> Seq<char> {
        "MD006"@
    }

    open spec fn spec_severity(&self) -> Severity {
        Severity::Warning
    }

    open spec fn is_pure(&self) -> bool {
        true
    }

    open spec fn accepts(&self, source: Seq<char>, disabled: Seq<Seq<char>>) -> bool {
        true
    }

    open spec fn findings(&self, file: Option<Seq<char>>, source: Seq<char>, disabled: Seq<Seq<char>>) -> Seq<ErrorView> {
        if enabled(disabled, "MD006"@) {
            md006_errors(
                lines(source),
                piece_offsets(source),
                lines(source).len() as int,
                tmpl(file, Severity::Warning, "MD006"@, "Missing blank line before list"@, "Insert blank line before list"@),
            )
        } else {
            seq![]
        }
    }

    fn id(&self) -> (r: &'static str) {
        "MD006"
    }

    fn severity(&self) -> (s: Severity) {
        Severity::Warning
    }

    fn admits(&self, source: &str, config: &LintConfig) -> (b: bool) {
        true
    }

    fn check(&self, file: Option<&str>, source: &str, report: &mut LintReport, config: &LintConfig) {
        if !config.is_enabled(self.id()) {
            return;
        }
        let ls = lines_of_str(source);
        proof {
            lemma_lines_bounds(source@);
        }
        let ghost lv = views(ls@);
        let ghost t = tmpl(opt_str_view(file), Severity::Warning, "MD006"@, "Missing blank line before list"@, "Insert blank line before list"@);
        let src = chars_of(source);
        let offs = piece_offsets_exec(src.as_slice());
        let ghost po = piece_offsets(source@);
        let mut prev_was_list = false;
        let mut i: usize = 0;
        while i < ls.len()
            invariant
                i <= ls@.len(),
                lv == views(ls@),
                lv == lines(source@),
                lines(source@).len() <= source@.len(),
                prev_was_list == (i > 0 && bullet(trim_start(lv[i - 1]))),
                t == tmpl(opt_str_view(file), Severity::Warning, "MD006"@, "Missing blank line before list"@, "Insert blank line before list"@),
                offs@.len() >= lv.len(),
                offs@.map_values(|o: usize| o as int) == po,
                po == piece_offsets(source@),
                report@ == old(report)@ + md006_errors(lv, po, i as int, t),
            decreases ls@.len() - i,
        {
            assert(lv[i as int] == ls@[i as int]@);
            let ts = trimmed_start(ls[i].as_slice());
            let is_list = bullet_exec(ts.as_slice());
            if is_list && !prev_was_list && i > 0 {
                assert(lv[i - 1] == ls@[i - 1]@);
                let prev = trimmed(ls[i - 1].as_slice());
                if prev.len() != 0 {
                    let o = offs[i];
                    assert(po[i as int] == o as int);
                    let fix = Fix::single("MD006", o, o, owned("\n"));
                    proof {
                        reveal_strlit("\n");
                        assert("\n"@ =~= seq!['\n']);
                    }
                    report.push(finding(file, i + 1, 1, Severity::Warning, "MD006", "Missing blank line before list", "Insert blank line before list", Some(fix)));
                }
            }
            assert(report@ =~= old(report)@ + md006_errors(lv, po, i + 1, t));
            prev_was_list = is_list;
            i += 1;
        }
    }
}

/// The bullet that the current list uses after the first `n` lines: set
/// by a bulleted item, cleared by a blank line.
pub open spec fn md011_marker(ls: Seq<Seq<char>>, n: int) -> Option<char>
    decreases n,
{
    if n <= 0 || n > ls.len() {
        None
    } else {
        let t = trim_start(ls[n - 1]);
        if bullet(t) {
            Some(t[0])
        } else if t.len() == 0 {
            None
        } else {
            md011_marker(ls, n - 1)
        }
    }
}

/// Line `i` is a bulleted item whose bullet differs from the current one.
pub open spec fn md011_hit(ls: Seq<Seq<char>>, i: int) -> bool {
    0 <= i < ls.len() && bullet(trim_start(ls[i])) && (md011_marker(ls, i) matches Some(p) && p
        != trim_start(ls[i])[0])
}

/// MD011: Mixed list markers.
#[derive(Clone, Copy, Debug)]
pub struct MixedListMarkers;

impl Rule for MixedListMarkers {
    open spec fn spec_id(&self) -> Seq<char> {
        "MD011"@
    }

    open spec fn spec_severity(&self) -> Severity {
        Severity::Warning
    }

    open spec fn is_pure(&self) -> bool {
        true
    }

    open spec fn accepts(&self, source: Seq<char>, disabled: Seq<Seq<char>>) -> bool {
        true
    }

    open spec fn findings(&self, file: Option<Seq<char>>, source: Seq<char>, disabled: Seq<Seq<char>>) -> Seq<ErrorView> {
        if enabled(disabled, "MD011"@) {
            col_errors(
                hit_cols(hits_of(lines(source).len() as int, |i: int| md011_hit(lines(source), i))),
                tmpl(file, Severity::Warning, "MD011"@, "Mixed list markers"@, "Use consistent list marker"@),
            )
        } else {
            seq![]
        }
    }

    fn id(&self) -> (r: &'static str) {
        "MD011"
    }

    fn severity(&self) -> (s: Severity) {
        Severity::Warning
    }

    fn admits(&self, source: &str, config: &LintConfig) -> (b: bool) {
        true
    }

    fn check(&self, file: Option<&str>, source: &str, report: &mut LintReport, config: &LintConfig) {
        if !config.is_enabled(self.id()) {
            return;
        }
        let ls = lines_of_str(source);
        proof {
            lemma_lines_bounds(source@);
        }
        let ghost lv = views(ls@);
        let mut hits: Vec<bool> = Vec::new();
        let mut marker: Option<char> = None;
        let mut i: usize = 0;
        while i < ls.len()
            invariant
                i <= ls@.len(),
                lv == views(ls@),
                lv == lines(source@),
                lines(source@).len() <= source@.len(),
                hits@.len() == i,
                forall|j: int| 0 <= j < i ==> hits@[j] == md011_hit(lv, j),
                marker == md011_marker(lv, i as int),

            decreases ls@.len() - i,
        {
            assert(lv[i as int] == ls@[i as int]@);
            let ts = trimmed_start(ls[i].as_slice());
            if bullet_exec(ts.as_slice()) {
                let m = ts[0];
                let hit = match marker {
                    Some(p) => p != m,
                    None => false,
                };
                hits.push(hit);
                marker = Some(m);
            } else {
                hits.push(false);
                if ts.len() == 0 {
                    marker = None;
                }
            }
            i += 1;
        }
        assert(hits@ =~= hits_of(lv.len() as int, |i: int| md011_hit(lv, i)));
        report_hits(report, file, &hits, Severity::Warning, "MD011", "Mixed list markers", "Use consistent list marker");
    }
}

/// The column and fix of MD030 on line `l` (line `i`, starting at byte
/// `off` of the text), if any: a list item with trailing whitespace; the fix
/// deletes the trailing whitespace, bytes `off + k .. off + len` of the
/// text, where `k` is the length of the trimmed line.
pub open spec fn md030_line(l: Seq<char>, i: int, off: int, t: Tmpl) -> Seq<ErrorView> {
    let k = utf8_len(trim_end(l)) as int;
    if trim_end(l).len() < l.len() && list_item(trim_start(l)) {
        seq![at(t, i + 1, k + 1, Some(single_fix(t.rule_id, off + k, off + utf8_len(l), seq![])))]
    } else {
        seq![]
    }
}

/// The findings of MD030 on the first `n` lines.
pub open spec fn md030_errors(ls: Seq<Seq<char>>, offs: Seq<int>, n: int, t: Tmpl) -> Seq<ErrorView>
    decreases n,
{
    if n <= 0 || n > ls.len() {
        seq![]
    } else {
        md030_errors(ls, offs, n - 1, t) + md030_line(ls[n - 1], n - 1, offs[n - 1], t)
    }
}

/// MD030: List item has trailing whitespace.
#[derive(Clone, Copy, Debug)]
pub struct TrailingSpacesInList;

impl Rule for TrailingSpacesInList {
    open spec fn spec_id(&self) -> Seq<char> {
        "MD030"@
    }

    open spec fn spec_severity(&self) -> Severity {
        Severity::Info
    }

    open spec fn is_pure(&self) -> bool {
        true
    }

    open spec fn accepts(&self, source: Seq<char>, disabled: Seq<Seq<char>>) -> bool {
        true
    }

    open spec fn findings(&self, file: Option<Seq<char>>, source: Seq<char>, disabled: Seq<Seq<char>>) -> Seq<ErrorView> {
        if enabled(disabled, "MD030"@) {
            md030_errors(
                lines(source),
                piece_offsets(source),
                lines(source).len() as int,
                tmpl(file, Severity::Info, "MD030"@, "List item has trailing whitespace"@, "Remove trailing spaces"@),
            )
        } else {
            seq![]
        }
    }

    fn id(&self) -> (r: &'static str) {
        "MD030"
    }

    fn severity(&self) -> (s: Severity) {
        Severity::Info
    }

    fn admits(&self, source: &str, config: &LintConfig) -> (b: bool) {
        true
    }

    fn check(&self, file: Option<&str>, source: &str, report: &mut LintReport, config: &LintConfig) {
        if !config.is_enabled(self.id()) {
            return;
        }
        let ls = lines_of_str(source);
        proof {
            lemma_lines_bounds(source@);
        }
        let ghost lv = views(ls@);
        let ghost t = tmpl(opt_str_view(file), Severity::Info, "MD030"@, "List item has trailing whitespace"@, "Remove trailing spaces"@);
        let src = chars_of(source);
        let offs = piece_offsets_exec(src.as_slice());
        let ghost po = piece_offsets(source@);
        let mut i: usize = 0;
        while i < ls.len()
            invariant
                i <= ls@.len(),
                fits(source@),
                lv == views(ls@),
                lv == lines(source@),
                lines(source@).len() <= source@.len(),
                t == tmpl(opt_str_view(file), Severity::Info, "MD030"@, "List item has trailing whitespace"@, "Remove trailing spaces"@),
                offs@.len() >= lv.len(),
                offs@.map_values(|o: usize| o as int) == po,
                po == piece_offsets(source@),
                forall|j: int| 0 <= j < lv.len() ==> offs@[j] + utf8_len(#[trigger] lv[j]) < usize::MAX,
                report@ == old(report)@ + md030_errors(lv, po, i as int, t),
            decreases ls@.len() - i,
        {
            assert(lv[i as int] == ls@[i as int]@);
            proof {
                lemma_line_fits(source@, i as int);
            }
            let l = ls[i].as_slice();
            let k = trim_end_len(l);
            let ts = trimmed_start(l);
            if k < l.len() && list_item_exec(ts.as_slice()) {
                proof {
                    lemma_utf8_len_take(l@, k as int);
                }
                let kb = prefix_bytes(l, k);
                let lb = byte_len(l);
                let o = offs[i];
                assert(po[i as int] == o as int);
                assert(o + utf8_len(lv[i as int]) < usize::MAX);
                let fix = Fix::single("MD030", o + kb, o + lb, owned(""));
                proof {
                    reveal_strlit("");
                    assert(""@ =~= Seq::<char>::empty());
                }
                report.push(finding(file, i + 1, kb + 1, Severity::Info, "MD030", "List item has trailing whitespace", "Remove trailing spaces", Some(fix)));
            }
            assert(report@ =~= old(report)@ + md030_errors(lv, po, i + 1, t));
            i += 1;
        }
    }
}

/// Line `k` is a list item directly after a list item (the line numbers of
/// the findings are those of the second item).
pub open spec fn md031_hit(ls: Seq<Seq<char>>, k: int) -> bool {
    0 < k < ls.len() && list_item(trim_start(ls[k - 1])) && !is_blank(ls[k]) && (bullet(
        trim_start(ls[k]),
    ) || numeric_start(ls[k]))
}

/// MD031: Missing blank line after list item.
#[derive(Clone, Copy, Debug)]
pub struct BlankLineAfterListItem;

impl Rule for BlankLineAfterListItem {
    open spec fn spec_id(&self) -> Seq<char> {
        "MD031"@
    }

    open spec fn spec_severity(&self) -> Severity {
        Severity::Warning
    }

    open spec fn is_pure(&self) -> bool {
        true
    }

    open spec fn accepts(&self, source: Seq<char>, disabled: Seq<Seq<char>>) -> bool {
        !enabled(disabled, "MD031"@) || (lines(source).len() > 0)
    }

    open spec fn findings(&self, file: Option<Seq<char>>, source: Seq<char>, disabled: Seq<Seq<char>>) -> Seq<ErrorView> {
        if enabled(disabled, "MD031"@) {
            col_errors(
                hit_cols(hits_of(lines(source).len() as int, |i: int| md031_hit(lines(source), i))),
                tmpl(file, Severity::Warning, "MD031"@, "Missing blank line after list item"@, "Insert blank line after this list item"@),
            )
        } else {
            seq![]
        }
    }

    fn id(&self) -> (r: &'static str) {
        "MD031"
    }

    fn severity(&self) -> (s: Severity) {
        Severity::Warning
    }

    fn admits(&self, source: &str, config: &LintConfig) -> (b: bool) {
        if !config.is_enabled(self.id()) {
            return true;
        }
        let ls = lines_of_str(source);
        assert(views(ls@).len() == ls@.len());
        ls.len() > 0
    }

    fn check(&self, file: Option<&str>, source: &str, report: &mut LintReport, config: &LintConfig) {
        if !config.is_enabled(self.id()) {
            return;
        }
        let ls = lines_of_str(source);
        proof {
            lemma_lines_bounds(source@);
        }
        let ghost lv = views(ls@);
        let mut hits: Vec<bool> = Vec::new();
        let mut prev_item = false;
        let mut i: usize = 0;
        while i < ls.len()
            invariant
                i <= ls@.len(),
                lv == views(ls@),
                lv == lines(source@),
                lines(source@).len() <= source@.len(),
                hits@.len() == i,
                forall|j: int| 0 <= j < i ==> hits@[j] == md031_hit(lv, j),
                prev_item == (i > 0 && list_item(trim_start(lv[i - 1]))),

            decreases ls@.len() - i,
        {
            assert(lv[i as int] == ls@[i as int]@);
            let l = ls[i].as_slice();
            let ts = trimmed_start(l);
            let t = trimmed(l);
            let hit = prev_item && t.len() != 0 && (bullet_exec(ts.as_slice()) || (l.len() > 0 && is_numeric(l[0])));
            hits.push(hit);
            prev_item = list_item_exec(ts.as_slice());
            i += 1;
        }
        assert(hits@ =~= hits_of(lv.len() as int, |i: int| md031_hit(lv, i)));
        report_hits(report, file, &hits, Severity::Warning, "MD031", "Missing blank line after list item", "Insert blank line after this list item");
    }
}

/// Whether the text after the first `n` lines is inside a list: set by an
/// item, cleared by a non-blank line that is not an item.
pub open spec fn md032_prev(ls: Seq<Seq<char>>, n: int) -> bool
    decreases n,
{
    if n <= 0 || n > ls.len() {
        false
    } else {
        let t = trim_start(ls[n - 1]);
        if list_item(t) {
            true
        } else if t.len() > 0 {
            false
        } else {
            md032_prev(ls, n - 1)
        }
    }
}

/// Line `i` is a list item that continues a list without a blank line.
pub open spec fn md032_hit(ls: Seq<Seq<char>>, i: int) -> bool {
    0 < i < ls.len() && list_item(trim_start(ls[i])) && md032_prev(ls, i) && !is_blank(ls[i - 1])
}

/// MD032: Consecutive lists should be separated by a blank line.
#[derive(Clone, Copy, Debug)]
pub struct SeparateConsecutiveLists;

impl Rule for SeparateConsecutiveLists {
    open spec fn spec_id(&self) -> Seq<char> {
        "MD032"@
    }

    open spec fn spec_severity(&self) -> Severity {
        Severity::Warning
    }

    open spec fn is_pure(&self) -> bool {
        true
    }

    open spec fn accepts(&self, source: Seq<char>, disabled: Seq<Seq<char>>) -> bool {
        true
    }

    open spec fn findings(&self, file: Option<Seq<char>>, source: Seq<char>, disabled: Seq<Seq<char>>) -> Seq<ErrorView> {
        if enabled(disabled, "MD032"@) {
            col_errors(
                hit_cols(hits_of(lines(source).len() as int, |i: int| md032_hit(lines(source), i))),
                tmpl(file, Severity::Warning, "MD032"@, "Consecutive lists should be separated by a blank line"@, "Insert blank line between lists"@),
            )
        } else {
            seq![]
        }
    }

    fn id(&self) -> (r: &'static str) {
        "MD032"
    }

    fn severity(&self) -> (s: Severity) {
        Severity::Warning
    }

    fn admits(&self, source: &str, config: &LintConfig) -> (b: bool) {
        true
    }

    fn check(&self, file: Option<&str>, source: &str, report: &mut LintReport, config: &LintConfig) {
        if !config.is_enabled(self.id()) {
            return;
        }
        let ls = lines_of_str(source);
        proof {
            lemma_lines_bounds(source@);
        }
        let ghost lv = views(ls@);
        let mut hits: Vec<bool> = Vec::new();
        let mut prev = false;
        let mut i: usize = 0;
        while i < ls.len()
            invariant
                i <= ls@.len(),
                lv == views(ls@),
                lv == lines(source@),
                lines(source@).len() <= source@.len(),
                hits@.len() == i,
                forall|j: int| 0 <= j < i ==> hits@[j] == md032_hit(lv, j),
                prev == md032_prev(lv, i as int),

            decreases ls@.len() - i,
        {
            assert(lv[i as int] == ls@[i as int]@);
            let l = ls[i].as_slice();
            let ts = trimmed_start(l);
            if list_item_exec(ts.as_slice()) {
                let mut hit = false;
                if prev && i > 0 {
                    assert(lv[i - 1] == ls@[i - 1]@);
                    let p = trimmed(ls[i - 1].as_slice());
                    hit = p.len() != 0;
                }
                hits.push(hit);
                prev = true;
            } else {
                hits.push(false);
                if ts.len() != 0 {
                    prev = false;
                }
            }
            i += 1;
        }
        assert(hits@ =~= hits_of(lv.len() as int, |i: int| md032_hit(lv, i)));
        report_hits(report, file, &hits, Severity::Warning, "MD032", "Consecutive lists should be separated by a blank line", "Insert blank line between lists");
    }
}

/// The number of an ordered item: the text before the first `.` of the
/// indented line, when it parses as a `usize`.
pub open spec fn md033_num(l: Seq<char>) -> Option<nat> {
    let t = trim_start(l);
    match find(t, seq!['.']) {
        Some(p) => parse_usize(t.take(p)),
        None => None,
    }
}

/// The number expected after the first `n` lines: one more than the last
/// number seen, or 1.
pub open spec fn md033_expected(ls: Seq<Seq<char>>, n: int) -> nat
    decreases n,
{
    if n <= 0 || n > ls.len() {
        1
    } else {
        match md033_num(ls[n - 1]) {
            Some(k) => k + 1,
            None => md033_expected(ls, n - 1),
        }
    }
}

/// `Ordered list item number <k> out of sequence (expected <e>)`.
pub open spec fn md033_message(k: nat, e: nat) -> Seq<char> {
    "Ordered list item number "@ + decimal(k) + " out of sequence (expected "@ + decimal(e) + ")"@
}

/// The findings of MD033 on the first `n` lines.
pub open spec fn md033_errors(file: Option<Seq<char>>, ls: Seq<Seq<char>>, n: int) -> Seq<ErrorView>
    decreases n,
{
    if n <= 0 || n > ls.len() {
        seq![]
    } else {
        let e = md033_expected(ls, n - 1);
        md033_errors(file, ls, n - 1) + match md033_num(ls[n - 1]) {
            Some(k) => if k != e {
                seq![
                    ErrorView {
                        file,
                        line: n,
                        column: 1,
                        severity: Severity::Warning,
                        rule_id: "MD033"@,
                        message: md033_message(k, e),
                        suggestion: Some("Use number "@ + decimal(e)),
                        fix: None,
                    },
                ]
            } else {
                seq![]
            },
            None => seq![],
        }
    }
}

fn md033_num_exec(l: &[char]) -> (r: Option<usize>)
    ensures
        match r {
            Some(k) => md033_num(l@) == Some(k as nat),
            None => md033_num(l@) is None,
        },
{
    let t = trimmed_start(l);
    match find_char(t.as_slice(), '.') {
        Some(p) => {
            proof {
                lemma_find(t@, seq!['.']);
            }
            let head = slice_of(t.as_slice(), 0, p);
            assert(head@ =~= t@.take(p as int));
            parse_usize_exec(head.as_slice())
        },
        None => None,
    }
}

/// MD033: Ordered list item number out of sequence.
#[derive(Clone, Copy, Debug)]
pub struct OrderedListNumbering;

impl Rule for OrderedListNumbering {
    open spec fn spec_id(&self) -> Seq<char> {
        "MD033"@
    }

    open spec fn spec_severity(&self) -> Severity {
        Severity::Warning
    }

    open spec fn is_pure(&self) -> bool {
        true
    }

    open spec fn accepts(&self, source: Seq<char>, disabled: Seq<Seq<char>>) -> bool {
        !enabled(disabled, "MD033"@) || (forall|i: int| 0 <= i < lines(source).len() ==> #[trigger] md033_num(lines(source)[i]) != Some(usize::MAX as nat))
    }

    open spec fn findings(&self, file: Option<Seq<char>>, source: Seq<char>, disabled: Seq<Seq<char>>) -> Seq<ErrorView> {
        if enabled(disabled, "MD033"@) {
            md033_errors(file, lines(source), lines(source).len() as int)
        } else {
            seq![]
        }
    }

    fn id(&self) -> (r: &'static str) {
        "MD033"
    }

    fn severity(&self) -> (s: Severity) {
        Severity::Warning
    }

    fn admits(&self, source: &str, config: &LintConfig) -> (b: bool) {
        if !config.is_enabled(self.id()) {
            return true;
        }
        let ls = lines_of_str(source);
        let mut i: usize = 0;
        while i < ls.len()
            invariant
                enabled(config@, "MD033"@),
                i <= ls@.len(),
                views(ls@) == lines(source@),
                forall|j: int| 0 <= j < i ==> #[trigger] md033_num(lines(source@)[j]) != Some(usize::MAX as nat),
            decreases ls@.len() - i,
        {
            assert(views(ls@)[i as int] == ls@[i as int]@);
            match md033_num_exec(ls[i].as_slice()) {
                Some(k) => {
                    if k == usize::MAX {
                        return false;
                    }
                },
                None => {},
            }
            i += 1;
        }
        true
    }

    fn check(&self, file: Option<&str>, source: &str, report: &mut LintReport, config: &LintConfig) {
        if !config.is_enabled(self.id()) {
            return;
        }
        let ls = lines_of_str(source);
        let ghost lv = views(ls@);
        let ghost fv = opt_str_view(file);
        let mut expected: usize = 1;
        let mut i: usize = 0;
        while i < ls.len()
            invariant
                i <= ls@.len(),
                lv == views(ls@),
                lv == lines(source@),
                forall|j: int| 0 <= j < lv.len() ==> #[trigger] md033_num(lv[j]) != Some(usize::MAX as nat),
                expected == md033_expected(lv, i as int),
                fv == opt_str_view(file),
                report@ == old(report)@ + md033_errors(fv, lv, i as int),
            decreases ls@.len() - i,
        {
            assert(lv[i as int] == ls@[i as int]@);
            match md033_num_exec(ls[i].as_slice()) {
                Some(num) => {
                    if num != expected {
                        let mut msg = owned("Ordered list item number ");
                        crate::text::push_chars(&mut msg, decimal_chars(num).as_slice());
                        crate::text::push_str(&mut msg, " out of sequence (expected ");
                        crate::text::push_chars(&mut msg, decimal_chars(expected).as_slice());
                        crate::text::push_str(&mut msg, ")");
                        let mut sug = owned("Use number ");
                        crate::text::push_chars(&mut sug, decimal_chars(expected).as_slice());
                        let err = make_error(file, i + 1, 1, Severity::Warning, "MD033", msg, Some(sug), None);
                        report.push(err);
                    }
                    assert(md033_num(lv[i as int]) != Some(usize::MAX as nat));
                    expected = num + 1;
                },
                None => {},
            }
            assert(report@ =~= old(report)@ + md033_errors(fv, lv, i + 1));
            i += 1;
        }
    }
}

/// The rules of this group, in order.
pub fn rules() -> (v: Vec<LintRule>)
    ensures
        v@ == seq![LintRule::MD006(ListFormatting), LintRule::MD011(MixedListMarkers), LintRule::MD030(TrailingSpacesInList), LintRule::MD031(BlankLineAfterListItem), LintRule::MD032(SeparateConsecutiveLists), LintRule::MD033(OrderedListNumbering)],
{
    let mut v: Vec<LintRule> = Vec::new();
    v.push(LintRule::MD006(ListFormatting));
    v.push(LintRule::MD011(MixedListMarkers));
    v.push(LintRule::MD030(TrailingSpacesInList));
    v.push(LintRule::MD031(BlankLineAfterListItem));
    v.push(LintRule::MD032(SeparateConsecutiveLists));
    v.push(LintRule::MD033(OrderedListNumbering));
    assert(v@ =~= seq![LintRule::MD006(ListFormatting), LintRule::MD011(MixedListMarkers), LintRule::MD030(TrailingSpacesInList), LintRule::MD031(BlankLineAfterListItem), LintRule::MD032(SeparateConsecutiveLists), LintRule::MD033(OrderedListNumbering)]);
    v
}

} // verus!
