//! Checks that several languages share: trailing whitespace and code after
//! a terminating statement.
use vstd::prelude::*;
use crate::lint::edit::{Fix, single_fix};
use crate::lint::error::{ErrorView, Severity, opt_str_view, opt_fix_view};
use crate::lint::report::LintReport;
use crate::lint::support::{Tmpl, tmpl, at, finding, line_offset, sum_pieces, lemma_lines_bounds, line_starts};
use crate::text::{fits, char_width, chars_of, find, find_lit, lemma_find, match_indices, match_positions, lines, views, utf8_len, trim_end, trim_start, trim, is_blank, split_char, byte_len, prefix_bytes, trim_end_len, trimmed, lemma_utf8_len_take, owned};

verus! {

/// Findings of a trailing-whitespace check: for each line with trailing
/// whitespace, a finding at the column after the trimmed text, whose fix
/// deletes bytes `offs[i] + utf8_len(trim_end(line)) .. offs[i] + utf8_len(line)`.
pub open spec fn trailing_ws_errors(ls: Seq<Seq<char>>, offs: Seq<int>, t: Tmpl) -> Seq<ErrorView>
    decreases ls.len(),
{
    if ls.len() == 0 {
        seq![]
    } else {
        let i = ls.len() - 1;
        let l = ls.last();
        let k = utf8_len(trim_end(l)) as int;
        trailing_ws_errors(ls.drop_last(), offs, t) + if trim_end(l).len() < l.len() {
            seq![
                at(
                    t,
                    i + 1,
                    k + 1,
                    Some(single_fix(t.rule_id, offs[i] + k, offs[i] + utf8_len(l), Seq::empty())),
                ),
            ]
        } else {
            seq![]
        }
    }
}

/// Offsets obtained by adding `len + 1` bytes per line.
pub open spec fn acc_offsets(ls: Seq<Seq<char>>) -> Seq<int> {
    Seq::new(ls.len(), |i: int| line_offset(ls, i) as int)
}

/// Offsets of the `\n`-separated pieces of `s` (`line_starts`).
pub open spec fn piece_offsets(s: Seq<char>) -> Seq<int> {
    let p = split_char(s, '\n');
    Seq::new(p.len(), |i: int| sum_pieces(p.take(i)) as int)
}

/// Appends `trailing_ws_errors`.
pub fn report_trailing_ws(
    report: &mut LintReport,
    file: Option<&str>,
    ls: &Vec<Vec<char>>,
    offs: &Vec<usize>,
    severity: Severity,
    rule_id: &'static str,
    message: &str,
    suggestion: &str,
)
    requires
        offs@.len() >= ls@.len(),
        ls@.len() < usize::MAX,
        forall|i: int| 0 <= i < ls@.len() ==> offs@[i] + utf8_len(#[trigger] ls@[i]@) <= usize::MAX,
    ensures
        final(report)@ == old(report)@ + trailing_ws_errors(
            views(ls@),
            offs@.map_values(|o: usize| o as int),
            tmpl(opt_str_view(file), severity, rule_id@, message@, suggestion@),
        ),
{
    let ghost t = tmpl(opt_str_view(file), severity, rule_id@, message@, suggestion@);
    let ghost os = offs@.map_values(|o: usize| o as int);
    let mut i: usize = 0;
    while i < ls.len()
        invariant
            i <= ls@.len(),
            offs@.len() >= ls@.len(),
            ls@.len() < usize::MAX,
            forall|i: int| 0 <= i < ls@.len() ==> offs@[i] + utf8_len(#[trigger] ls@[i]@) <= usize::MAX,
            t == tmpl(opt_str_view(file), severity, rule_id@, message@, suggestion@),
            os == offs@.map_values(|o: usize| o as int),
            report@ == old(report)@ + trailing_ws_errors(views(ls@).take(i as int), os, t),
        decreases ls@.len() - i,
    {
        let line = ls[i].as_slice();
        assert(views(ls@).take(i + 1).drop_last() =~= views(ls@).take(i as int));
        assert(views(ls@)[i as int] == line@);
        let k = trim_end_len(line);
        proof {
            lemma_utf8_len_take(line@, k as int);
            assert(offs@[i as int] + utf8_len(ls@[i as int]@) <= usize::MAX);
        }
        if k < line.len() {
            let kb = prefix_bytes(line, k);
            let lb = byte_len(line);
            let start = offs[i] + kb;
            let end = offs[i] + lb;
            let fix = Fix::single(rule_id, start, end, String::new());
            report.push(finding(file, i + 1, kb + 1, severity, rule_id, message, suggestion, Some(fix)));
        }
        assert(report@ =~= old(report)@ + trailing_ws_errors(views(ls@).take(i + 1), os, t));
        i += 1;
    }
    assert(views(ls@).take(i as int) =~= views(ls@));
}

/// The offsets `acc_offsets` of the lines `ls`, as computed by
/// `offset += line.len() + 1`.
pub fn acc_offsets_exec(ls: &Vec<Vec<char>>, Ghost(s): Ghost<Seq<char>>) -> (r: Vec<usize>)
    requires
        views(ls@) == lines(s),
        utf8_len(s) < usize::MAX,
    ensures
        r@.len() == ls@.len(),
        r@.map_values(|o: usize| o as int) == acc_offsets(views(ls@)),
        forall|i: int| 0 <= i < ls@.len() ==> r@[i] + utf8_len(#[trigger] ls@[i]@) < usize::MAX,
{
    proof {
        lemma_lines_bounds(s);
    }
    let ghost v = views(ls@);
    let mut r: Vec<usize> = Vec::new();
    let mut off: usize = 0;
    let mut i: usize = 0;
    while i < ls.len()
        invariant
            v == views(ls@),
            v == lines(s),
            utf8_len(s) < usize::MAX,
            sum_pieces(v) <= utf8_len(s) + 1,
            forall|i: int| 0 <= i <= v.len() ==> #[trigger] line_offset(v, i) <= sum_pieces(v),
            i <= ls@.len(),
            off == line_offset(v, i as int),
            r@.len() == i,
            forall|j: int| 0 <= j < i ==> r@[j] == line_offset(v, j),
        decreases ls@.len() - i,
    {
        assert(v.take(i + 1).drop_last() =~= v.take(i as int));
        assert(line_offset(v, i + 1) <= sum_pieces(v));
        let lb = byte_len(ls[i].as_slice());
        r.push(off);
        off = off + lb + 1;
        i += 1;
    }
    assert forall|i: int| 0 <= i < ls@.len() implies r@[i] + utf8_len(#[trigger] ls@[i]@) < usize::MAX by {
        assert(v.take(i + 1).drop_last() =~= v.take(i));
        assert(v.take(i + 1).last() == v[i]);
        assert(v[i] == ls@[i]@);
        assert(line_offset(v, i + 1) <= sum_pieces(v));
        assert(line_offset(v, i + 1) == line_offset(v, i) + utf8_len(v[i]) + 1);
        assert(r@[i] == line_offset(v, i));
        assert(line_offset(v, i + 1) <= sum_pieces(v));
    }
    assert(r@.map_values(|o: usize| o as int) =~= acc_offsets(v));
    r
}

/// The offsets `piece_offsets` of `s`, as computed by `line_starts`.
pub fn piece_offsets_exec(s: &[char]) -> (r: Vec<usize>)
    requires
        utf8_len(s@) < usize::MAX,
    ensures
        r@.len() >= lines(s@).len(),
        r@.map_values(|o: usize| o as int) == piece_offsets(s@),
        forall|i: int| 0 <= i < lines(s@).len() ==> r@[i] + utf8_len(#[trigger] lines(s@)[i]) < usize::MAX,
{
    let r = line_starts(s);
    proof {
        lemma_lines_bounds(s@);
        lemma_piece_bounds(s@);
    }
    assert(r@.map_values(|o: usize| o as int) =~= piece_offsets(s@));
    r
}

proof fn lemma_piece_bounds(s: Seq<char>)
    requires
        utf8_len(s) < usize::MAX,
    ensures
        split_char(s, '\n').len() >= lines(s).len(),
        forall|i: int|
            0 <= i < lines(s).len() ==> sum_pieces(split_char(s, '\n').take(i)) + utf8_len(
                #[trigger] lines(s)[i],
            ) < usize::MAX,
{
    crate::text::lemma_split_nonempty(s, '\n');
    let p = split_char(s, '\n');
    let ls = lines(s);
    assert forall|i: int| 0 <= i < ls.len() implies sum_pieces(p.take(i)) + utf8_len(#[trigger] ls[i]) < usize::MAX by {
        lemma_split_total(s);
        assert(p.take(i + 1).drop_last() =~= p.take(i));
        lemma_take_le(p, i + 1);
        if i < p.len() - 1 {
            assert(ls[i] == crate::text::strip_cr(p[i]));
        } else {
            assert(ls[i] == p[i]);
        }
    }
}

proof fn lemma_take_le(p: Seq<Seq<char>>, i: int)
    requires
        0 <= i <= p.len(),
    ensures
        sum_pieces(p.take(i)) <= sum_pieces(p),
    decreases p.len() - i,
{
    if i < p.len() {
        lemma_take_le(p, i + 1);
        assert(p.take(i + 1).drop_last() =~= p.take(i));
    } else {
        assert(p.take(i) =~= p);
    }
}

proof fn lemma_split_total(s: Seq<char>)
    ensures
        sum_pieces(split_char(s, '\n')) == utf8_len(s) + 1,
{
    let ls = lines(s);
    lemma_lines_bounds(s);
    crate::lint::support::lemma_split_sum_pub(s);
}

// ------------------------------------------------------------------
// Findings at pattern matches
// ------------------------------------------------------------------

/// One finding (at 0:0) per match position `ks[j]` whose `conds[j]` holds;
/// `fix`, when present, replaces bytes `b + a .. b + e` by `r`, where `b`
/// is the byte offset of the match.
pub open spec fn match_errors(
    s: Seq<char>,
    ks: Seq<int>,
    conds: Seq<bool>,
    t: Tmpl,
    fix: Option<(int, int, Seq<char>)>,
) -> Seq<ErrorView>
    decreases ks.len(),
{
    if ks.len() == 0 {
        seq![]
    } else {
        let b = utf8_len(s.take(ks.last())) as int;
        match_errors(s, ks.drop_last(), conds, t, fix) + if conds[ks.len() - 1] {
            seq![
                at(
                    t,
                    0,
                    0,
                    match fix {
                        Some(f) => Some(single_fix(t.rule_id, b + f.0, b + f.1, f.2)),
                        None => None,
                    },
                ),
            ]
        } else {
            seq![]
        }
    }
}

/// Appends `match_errors`.
pub fn report_matches(
    report: &mut LintReport,
    file: Option<&str>,
    s: &[char],
    ks: &Vec<usize>,
    conds: &Vec<bool>,
    severity: Severity,
    rule_id: &'static str,
    message: &str,
    suggestion: &str,
    fix: Option<(usize, usize, &str)>,
)
    requires
        fits(s@),
        conds@.len() == ks@.len(),
        forall|j: int| 0 <= j < ks@.len() ==> #[trigger] ks@[j] <= s@.len(),
        fix matches Some(f) ==> f.0 <= 16 && f.1 <= 16,
    ensures
        final(report)@ == old(report)@ + match_errors(
            s@,
            ks@.map_values(|k: usize| k as int),
            conds@,
            tmpl(opt_str_view(file), severity, rule_id@, message@, suggestion@),
            match fix {
                Some(f) => Some((f.0 as int, f.1 as int, f.2@)),
                None => None,
            },
        ),
{
    let ghost t = tmpl(opt_str_view(file), severity, rule_id@, message@, suggestion@);
    let ghost fx = match fix {
        Some(f) => Some((f.0 as int, f.1 as int, f.2@)),
        None => None,
    };
    let ghost kv = ks@.map_values(|k: usize| k as int);
    let mut i: usize = 0;
    while i < ks.len()
        invariant
            fits(s@),
            conds@.len() == ks@.len(),
            forall|j: int| 0 <= j < ks@.len() ==> #[trigger] ks@[j] <= s@.len(),
            fix matches Some(f) ==> f.0 <= 16 && f.1 <= 16,
            i <= ks@.len(),
            t == tmpl(opt_str_view(file), severity, rule_id@, message@, suggestion@),
            fx == match fix {
                Some(f) => Some((f.0 as int, f.1 as int, f.2@)),
                None => None::<(int, int, Seq<char>)>,
            },
            kv == ks@.map_values(|k: usize| k as int),
            report@ == old(report)@ + match_errors(s@, kv.take(i as int), conds@, t, fx),
        decreases ks@.len() - i,
    {
        assert(kv.take(i + 1).drop_last() =~= kv.take(i as int));
        assert(kv.take(i + 1).last() == ks@[i as int] as int);
        if conds[i] {
            let k = ks[i];
            proof {
                lemma_utf8_len_take(s@, k as int);
            }
            let b = prefix_bytes(s, k);
            let f = match fix {
                Some(f) => Some(Fix::single(rule_id, b + f.0, b + f.1, owned(f.2))),
                None => None,
            };
            report.push(finding(file, 0, 0, severity, rule_id, message, suggestion, f));
        }
        assert(report@ =~= old(report)@ + match_errors(s@, kv.take(i + 1), conds@, t, fx));
        i += 1;
    }
    assert(kv.take(i as int) =~= kv);
}

/// A vector of `n` times `true`.
pub fn all_true(n: usize) -> (r: Vec<bool>)
    ensures
        r@.len() == n,
        forall|j: int| 0 <= j < n ==> #[trigger] r@[j],
{
    let mut r: Vec<bool> = Vec::new();
    let mut i: usize = 0;
    while i < n
        invariant
            i <= n,
            r@.len() == i,
            forall|j: int| 0 <= j < i ==> #[trigger] r@[j],
        decreases n - i,
    {
        r.push(true);
        i += 1;
    }
    r
}

/// The conditions that are all true.
pub open spec fn trues(n: int) -> Seq<bool> {
    Seq::new(n as nat, |j: int| true)
}

// ------------------------------------------------------------------
// Conditions on the neighbours of a match
// ------------------------------------------------------------------

/// A comma at character `k` of `s` lacks a following space or newline.
pub open spec fn comma_needs_space(s: Seq<char>, k: int) -> bool {
    !(k + 1 < s.len() && (s[k + 1] == ' ' || s[k + 1] == '\n'))
}

pub fn comma_needs_space_exec(s: &[char], k: usize) -> (b: bool)
    ensures
        b == comma_needs_space(s@, k as int),
{
    !(k < s.len() && k + 1 < s.len() && (s[k + 1] == ' ' || s[k + 1] == '\n'))
}

/// A `{` at character `k` of `s` is not preceded by a space.
pub open spec fn brace_needs_space(s: Seq<char>, k: int) -> bool {
    k > 0 && k - 1 < s.len() && s[k - 1] != ' '
}

pub fn brace_needs_space_exec(s: &[char], k: usize) -> (b: bool)
    ensures
        b == brace_needs_space(s@, k as int),
{
    k > 0 && k - 1 < s.len() && s[k - 1] != ' '
}

/// Every `{` of `s` that has a predecessor has a one-byte predecessor
/// (slicing the byte before a `{` then stays on a character boundary).
pub open spec fn brace_prev_ascii(s: Seq<char>) -> bool {
    forall|k: int| 0 < k < s.len() && s[k] == '{' ==> char_width(#[trigger] s[k - 1]) == 1
}

pub fn brace_prev_ascii_exec(source: &str) -> (b: bool)
    ensures
        b == brace_prev_ascii(source@),
{
    let s = chars_of(source);
    let mut k: usize = 1;
    while k < s.len()
        invariant
            s@ == source@,
            1 <= k,
            forall|j: int| 0 < j < k && j < s@.len() && s@[j] == '{' ==> char_width(#[trigger] s@[j - 1]) == 1,
        decreases s@.len() - k,
    {
        if s[k] == '{' && crate::text::width_of(s[k - 1]) != 1 {
            assert(char_width(s@[k - 1]) != 1);
            return false;
        }
        k += 1;
    }
    true
}

// ------------------------------------------------------------------
// Counting, columns and word lists
// ------------------------------------------------------------------

/// `str::matches(p).count()`; the empty pattern matches at every
/// character boundary.
pub open spec fn count_matches(s: Seq<char>, p: Seq<char>) -> nat {
    if p.len() == 0 {
        s.len() + 1
    } else {
        match_indices(s, p).len()
    }
}

/// Exec `count_matches`.
pub fn count_matches_exec(s: &[char], p: &[char]) -> (n: usize)
    requires
        fits(s@),
    ensures
        n == count_matches(s@, p@),
{
    if p.len() == 0 {
        proof {
            crate::text::lemma_utf8_len_bounds(s@);
        }
        return s.len() + 1;
    }
    let ks = match_positions(s, p);
    assert(ks@.map_values(|k: usize| k as int).len() == ks@.len());
    ks.len()
}

/// `count_matches` with a literal pattern.
pub fn count_lit(s: &[char], p: &str) -> (n: usize)
    requires
        fits(s@),
    ensures
        n == count_matches(s@, p@),
{
    let pc = chars_of(p);
    count_matches_exec(s, pc.as_slice())
}

/// The 1-based byte column of the first occurrence of `p` in `l`
/// (`l.find(p).unwrap_or(0) + 1`).
pub open spec fn find_col(l: Seq<char>, p: Seq<char>) -> int {
    match find(l, p) {
        Some(k) => utf8_len(l.take(k)) + 1int,
        None => 1,
    }
}

/// Exec `find_col`.
pub fn find_col_exec(l: &[char], p: &str) -> (c: usize)
    requires
        fits(l@),
    ensures
        c == find_col(l@, p@),
{
    match find_lit(l, p) {
        Some(k) => {
            proof {
                lemma_find(l@, p@);
                lemma_utf8_len_take(l@, k as int);
            }
            prefix_bytes(l, k) + 1
        },
        None => 1,
    }
}

/// A word of a list found on a line: by `contains` (`starts == false`) or
/// by the trimmed line starting with it (`starts == true`).
pub open spec fn word_hit(l: Seq<char>, w: Seq<char>, starts: bool) -> bool {
    if starts {
        crate::text::starts_with(trim_start(l), w)
    } else {
        crate::text::contains(l, w)
    }
}

/// The column of a word finding: 1 for `starts`, else the word's column.
pub open spec fn word_col(l: Seq<char>, w: Seq<char>, starts: bool) -> int {
    if starts {
        1
    } else {
        find_col(l, w)
    }
}

/// The findings of line `l` (0-based index `i`) for the words `ws`, whose
/// messages are `pre + word + post`.
pub open spec fn word_line_errors(
    l: Seq<char>,
    i: int,
    ws: Seq<Seq<char>>,
    starts: bool,
    t: Tmpl,
    pre: Seq<char>,
    post: Seq<char>,
) -> Seq<ErrorView>
    decreases ws.len(),
{
    if ws.len() == 0 {
        seq![]
    } else {
        word_line_errors(l, i, ws.drop_last(), starts, t, pre, post) + if word_hit(l, ws.last(), starts) {
            seq![
                ErrorView {
                    message: pre + ws.last() + post,
                    ..at(t, i + 1, word_col(l, ws.last(), starts), None)
                },
            ]
        } else {
            seq![]
        }
    }
}

/// `word_line_errors` over the lines `ls`.
pub open spec fn word_errors(
    ls: Seq<Seq<char>>,
    ws: Seq<Seq<char>>,
    starts: bool,
    t: Tmpl,
    pre: Seq<char>,
    post: Seq<char>,
) -> Seq<ErrorView>
    decreases ls.len(),
{
    if ls.len() == 0 {
        seq![]
    } else {
        word_errors(ls.drop_last(), ws, starts, t, pre, post) + word_line_errors(
            ls.last(),
            ls.len() - 1,
            ws,
            starts,
            t,
            pre,
            post,
        )
    }
}

/// Appends `word_errors`.
pub fn report_words(
    report: &mut LintReport,
    file: Option<&str>,
    ls: &Vec<Vec<char>>,
    ws: &[&str],
    starts: bool,
    severity: Severity,
    rule_id: &'static str,
    pre: &str,
    post: &str,
    suggestion: &str,
    Ghost(s): Ghost<Seq<char>>,
)
    requires
        views(ls@) == lines(s),
        fits(s),
    ensures
        final(report)@ == old(report)@ + word_errors(
            views(ls@),
            ws@.map_values(|w: &str| w@),
            starts,
            tmpl(opt_str_view(file), severity, rule_id@, Seq::empty(), suggestion@),
            pre@,
            post@,
        ),
{
    proof {
        lemma_lines_bounds(s);
    }
    let ghost t = tmpl(opt_str_view(file), severity, rule_id@, Seq::empty(), suggestion@);
    let ghost wv = ws@.map_values(|w: &str| w@);
    let ghost v = views(ls@);
    let mut i: usize = 0;
    while i < ls.len()
        invariant
            v == views(ls@),
            v == lines(s),
            fits(s),
            lines(s).len() <= utf8_len(s),
            i <= ls@.len(),
            t == tmpl(opt_str_view(file), severity, rule_id@, Seq::empty(), suggestion@),
            wv == ws@.map_values(|w: &str| w@),
            report@ == old(report)@ + word_errors(v.take(i as int), wv, starts, t, pre@, post@),
        decreases ls@.len() - i,
    {
        assert(v.take(i + 1).drop_last() =~= v.take(i as int));
        assert(v[i as int] == ls@[i as int]@);
        let line = ls[i].as_slice();
        proof {
            crate::lint::support::lemma_line_fits(s, i as int);
        }
        let ghost mid = report@;
        let mut j: usize = 0;
        while j < ws.len()
            invariant
                v == views(ls@),
                i < ls@.len(),
                v[i as int] == line@,
                fits(line@),
                i + 1 < usize::MAX,
                j <= ws@.len(),
                t == tmpl(opt_str_view(file), severity, rule_id@, Seq::empty(), suggestion@),
                wv == ws@.map_values(|w: &str| w@),
                report@ == mid + word_line_errors(line@, i as int, wv.take(j as int), starts, t, pre@, post@),
            decreases ws@.len() - j,
        {
            assert(wv.take(j + 1).drop_last() =~= wv.take(j as int));
            let w = ws[j];
            let hit = if starts {
                let tl = crate::text::trimmed_start(line);
                crate::text::starts_with_lit(tl.as_slice(), w)
            } else {
                crate::text::contains_lit(line, w)
            };
            if hit {
                let col = if starts { 1 } else { find_col_exec(line, w) };
                let mut msg = owned(pre);
                crate::text::push_str(&mut msg, w);
                crate::text::push_str(&mut msg, post);
                let e = crate::lint::support::make_error(file, i + 1, col, severity, rule_id, msg, Some(owned(suggestion)), None);
                report.push(e);
            }
            assert(report@ =~= mid + word_line_errors(line@, i as int, wv.take(j + 1), starts, t, pre@, post@));
            j += 1;
        }
        assert(wv.take(j as int) =~= wv);
        assert(report@ =~= old(report)@ + word_errors(v.take(i + 1), wv, starts, t, pre@, post@));
        i += 1;
    }
    assert(v.take(i as int) =~= v);
}

// ------------------------------------------------------------------
// Code after a terminating statement
// ------------------------------------------------------------------

/// Index of the first non-blank line that follows a terminating line, when
/// scanning from line `i` with `found` telling whether a terminator was
/// already seen.
pub open spec fn unreachable_from(ls: Seq<Seq<char>>, term: Seq<bool>, i: int, found: bool) -> Option<int>
    decreases ls.len() - i,
{
    if i < 0 || i >= ls.len() {
        None
    } else if found && !is_blank(ls[i]) {
        Some(i)
    } else {
        unreachable_from(ls, term, i + 1, found || term[i])
    }
}

/// Findings of an unreachable-code check: at most one, at the first
/// non-blank line after a terminating line.
pub open spec fn unreachable_errors(ls: Seq<Seq<char>>, term: Seq<bool>, t: Tmpl) -> Seq<ErrorView> {
    match unreachable_from(ls, term, 0, false) {
        Some(j) => seq![at(t, j + 1, 1, None)],
        None => seq![],
    }
}

/// Appends `unreachable_errors`.
pub fn report_unreachable(
    report: &mut LintReport,
    file: Option<&str>,
    ls: &Vec<Vec<char>>,
    term: &Vec<bool>,
    severity: Severity,
    rule_id: &'static str,
    message: &str,
    suggestion: &str,
)
    requires
        term@.len() == ls@.len(),
        ls@.len() < usize::MAX,
    ensures
        final(report)@ == old(report)@ + unreachable_errors(
            views(ls@),
            term@,
            tmpl(opt_str_view(file), severity, rule_id@, message@, suggestion@),
        ),
{
    let ghost v = views(ls@);
    let mut found = false;
    let mut i: usize = 0;
    while i < ls.len()
        invariant
            v == views(ls@),
            term@.len() == ls@.len() < usize::MAX,
            i <= ls@.len(),
            unreachable_from(v, term@, 0, false) == unreachable_from(v, term@, i as int, found),
            report@ == old(report)@,
        decreases ls@.len() - i,
    {
        let t = trimmed(ls[i].as_slice());
        assert(v[i as int] == ls@[i as int]@);
        if found && t.len() != 0 {
            assert(unreachable_from(v, term@, i as int, found) == Some(i as int));
            report.push(finding(file, i + 1, 1, severity, rule_id, message, suggestion, None));
            return;
        }
        if term[i] {
            found = true;
        }
        i += 1;
    }
}

} // verus!
