//! Building blocks shared by the rules: templates for findings, the
//! per-line accumulation of findings, and facts about `lines`.
use vstd::prelude::*;
use crate::lint::edit::{Fix, FixView};
use crate::lint::error::{ErrorView, LintError, Severity, opt_str_view, opt_fix_view};
use crate::lint::report::LintReport;
use crate::text::{fits, char_width, owned, utf8_len, split_char, lines, strip_cr, width_of, lemma_utf8_len_take, lemma_utf8_len_bounds, lemma_split_nonempty};

verus! {

/// The fixed parts of a rule's findings.
pub ghost struct Tmpl {
    pub file: Option<Seq<char>>,
    pub severity: Severity,
    pub rule_id: Seq<char>,
    pub message: Seq<char>,
    pub suggestion: Option<Seq<char>>,
}

pub open spec fn tmpl(
    file: Option<Seq<char>>,
    severity: Severity,
    rule_id: Seq<char>,
    message: Seq<char>,
    suggestion: Seq<char>,
) -> Tmpl {
    Tmpl { file, severity, rule_id, message, suggestion: Some(suggestion) }
}

/// The finding of template `t` at `line`:`column` with `fix`.
pub open spec fn at(t: Tmpl, line: int, column: int, fix: Option<FixView>) -> ErrorView {
    ErrorView {
        file: t.file,
        line,
        column,
        severity: t.severity,
        rule_id: t.rule_id,
        message: t.message,
        suggestion: t.suggestion,
        fix,
    }
}

/// At most one finding, at 1:1.
pub open spec fn once(hit: bool, t: Tmpl) -> Seq<ErrorView> {
    if hit {
        seq![at(t, 1, 1, None)]
    } else {
        seq![]
    }
}

/// One finding per line `i` with `cols[i] == Some(c)`, at line `i + 1`,
/// column `c`.
pub open spec fn col_errors(cols: Seq<Option<usize>>, t: Tmpl) -> Seq<ErrorView>
    decreases cols.len(),
{
    if cols.len() == 0 {
        seq![]
    } else {
        col_errors(cols.drop_last(), t) + match cols.last() {
            Some(c) => seq![at(t, cols.len() as int, c as int, None)],
            None => seq![],
        }
    }
}

proof fn lemma_col_errors_split(cols: Seq<Option<usize>>, t: Tmpl)
    requires
        cols.len() > 0,
    ensures
        col_errors(cols, t) == col_errors(cols.drop_last(), t) + match cols.last() {
            Some(c) => seq![at(t, cols.len() as int, c as int, None)],
            None => Seq::<ErrorView>::empty(),
        },
{
}

proof fn lemma_col_errors_cover(cols: Seq<Option<usize>>, t: Tmpl, j: int)
    requires
        0 <= j < cols.len(),
        cols[j] is Some,
    ensures
        exists|k: int| 0 <= k < col_errors(cols, t).len() && col_errors(cols, t)[k] == at(t, j + 1, cols[j]->0 as int, None),
    decreases cols.len(),
{
    let d = cols.drop_last();
    let p = col_errors(d, t);
    let r = col_errors(cols, t);
    lemma_col_errors_split(cols, t);
    if j < cols.len() - 1 {
        assert(d[j] == cols[j]);
        lemma_col_errors_cover(d, t, j);
        let k = choose|k: int| 0 <= k < p.len() && p[k] == at(t, j + 1, d[j]->0 as int, None);
        assert(r[k] == p[k]);
    } else {
        assert(r[p.len() as int] == at(t, j + 1, cols[j]->0 as int, None));
    }
}

proof fn lemma_col_errors_source(cols: Seq<Option<usize>>, t: Tmpl, k: int)
    requires
        0 <= k < col_errors(cols, t).len(),
    ensures
        exists|j: int| 0 <= j < cols.len() && cols[j] is Some && col_errors(cols, t)[k] == at(t, j + 1, cols[j]->0 as int, None),
    decreases cols.len(),
{
    let d = cols.drop_last();
    let p = col_errors(d, t);
    let r = col_errors(cols, t);
    let n = cols.len() - 1;
    if cols.len() > 0 {
        lemma_col_errors_split(cols, t);
        if k < p.len() {
            assert(r[k] == p[k]);
            lemma_col_errors_source(d, t, k);
            let j = choose|j: int| 0 <= j < d.len() && d[j] is Some && p[k] == at(t, j + 1, d[j]->0 as int, None);
            assert(d[j] == cols[j]);
        } else {
            assert(cols[n] is Some);
            assert(r[k] == at(t, n + 1, cols[n]->0 as int, None));
        }
    }
}

/// The findings of `col_errors` are exactly one per line that has a column,
/// each at that line (counted from 1) and column.
pub proof fn lemma_col_errors(cols: Seq<Option<usize>>, t: Tmpl)
    ensures
        forall|j: int| 0 <= j < cols.len() && (#[trigger] cols[j]) is Some ==> exists|k: int|
            0 <= k < col_errors(cols, t).len() && col_errors(cols, t)[k] == at(
                t,
                j + 1,
                cols[j]->0 as int,
                None,
            ),
        forall|k: int| 0 <= k < col_errors(cols, t).len() ==> exists|j: int|
            0 <= j < cols.len() && cols[j] is Some && #[trigger] col_errors(cols, t)[k]
                == at(t, j + 1, cols[j]->0 as int, None),
{
    assert forall|j: int| 0 <= j < cols.len() && (#[trigger] cols[j]) is Some implies exists|k: int|
        0 <= k < col_errors(cols, t).len() && col_errors(cols, t)[k] == at(t, j + 1, cols[j]->0 as int, None) by {
        lemma_col_errors_cover(cols, t, j);
    }
    assert forall|k: int| 0 <= k < col_errors(cols, t).len() implies exists|j: int|
        0 <= j < cols.len() && cols[j] is Some && #[trigger] col_errors(cols, t)[k] == at(t, j + 1, cols[j]->0 as int, None) by {
        lemma_col_errors_source(cols, t, k);
    }
}

/// Column 1 on the lines where `hits` holds.
pub open spec fn hit_cols(hits: Seq<bool>) -> Seq<Option<usize>> {
    hits.map_values(|h: bool| if h { Some(1usize) } else { None })
}

/// A copy of an optional file name.
pub fn copy_file(file: Option<&str>) -> (r: Option<String>)
    ensures
        crate::lint::error::opt_view(r) == opt_str_view(file),
{
    match file {
        Some(f) => Some(owned(f)),
        None => None,
    }
}

/// A finding built from its parts.
pub fn make_error(
    file: Option<&str>,
    line: usize,
    column: usize,
    severity: Severity,
    rule_id: &'static str,
    message: String,
    suggestion: Option<String>,
    fix: Option<Fix>,
) -> (e: LintError)
    ensures
        e@ == (ErrorView {
            file: opt_str_view(file),
            line: line as int,
            column: column as int,
            severity,
            rule_id: rule_id@,
            message: message@,
            suggestion: crate::lint::error::opt_view(suggestion),
            fix: opt_fix_view(fix),
        }),
{
    LintError {
        file: copy_file(file),
        line,
        column,
        severity,
        rule_id,
        message,
        suggestion,
        fix,
    }
}

/// The finding of template `tmpl(file, severity, rule_id, message, suggestion)`.
pub fn finding(
    file: Option<&str>,
    line: usize,
    column: usize,
    severity: Severity,
    rule_id: &'static str,
    message: &str,
    suggestion: &str,
    fix: Option<Fix>,
) -> (e: LintError)
    ensures
        e@ == at(
            tmpl(opt_str_view(file), severity, rule_id@, message@, suggestion@),
            line as int,
            column as int,
            opt_fix_view(fix),
        ),
{
    make_error(file, line, column, severity, rule_id, owned(message), Some(owned(suggestion)), fix)
}

/// Appends `once(hit, ..)`.
pub fn report_once(
    report: &mut LintReport,
    file: Option<&str>,
    hit: bool,
    severity: Severity,
    rule_id: &'static str,
    message: &str,
    suggestion: &str,
)
    ensures
        final(report)@ == old(report)@ + once(
            hit,
            tmpl(opt_str_view(file), severity, rule_id@, message@, suggestion@),
        ),
{
    if hit {
        report.push(finding(file, 1, 1, severity, rule_id, message, suggestion, None));
    }
    assert(final(report)@ =~= old(report)@ + once(
        hit,
        tmpl(opt_str_view(file), severity, rule_id@, message@, suggestion@),
    ));
}

/// Appends `col_errors(cols, ..)`.
pub fn report_cols(
    report: &mut LintReport,
    file: Option<&str>,
    cols: &Vec<Option<usize>>,
    severity: Severity,
    rule_id: &'static str,
    message: &str,
    suggestion: &str,
)
    requires
        cols@.len() < usize::MAX,
    ensures
        final(report)@ == old(report)@ + col_errors(
            cols@,
            tmpl(opt_str_view(file), severity, rule_id@, message@, suggestion@),
        ),
{
    let ghost t = tmpl(opt_str_view(file), severity, rule_id@, message@, suggestion@);
    let mut i: usize = 0;
    while i < cols.len()
        invariant
            i <= cols@.len() < usize::MAX,
            t == tmpl(opt_str_view(file), severity, rule_id@, message@, suggestion@),
            report@ == old(report)@ + col_errors(cols@.take(i as int), t),
        decreases cols@.len() - i,
    {
        assert(cols@.take(i + 1).drop_last() =~= cols@.take(i as int));
        let ghost before = report@;
        match cols[i] {
            Some(c) => {
                report.push(finding(file, i + 1, c, severity, rule_id, message, suggestion, None));
            },
            None => {},
        }
        assert(report@ =~= old(report)@ + col_errors(cols@.take(i + 1), t));
        i += 1;
    }
    assert(cols@.take(i as int) =~= cols@);
}

/// Appends `col_errors(hit_cols(hits), ..)`.
pub fn report_hits(
    report: &mut LintReport,
    file: Option<&str>,
    hits: &Vec<bool>,
    severity: Severity,
    rule_id: &'static str,
    message: &str,
    suggestion: &str,
)
    requires
        hits@.len() < usize::MAX,
    ensures
        final(report)@ == old(report)@ + col_errors(
            hit_cols(hits@),
            tmpl(opt_str_view(file), severity, rule_id@, message@, suggestion@),
        ),
{
    let mut cols: Vec<Option<usize>> = Vec::new();
    let mut i: usize = 0;
    while i < hits.len()
        invariant
            i <= hits@.len(),
            cols@ == hit_cols(hits@.take(i as int)),
        decreases hits@.len() - i,
    {
        cols.push(if hits[i] { Some(1) } else { None });
        assert(hit_cols(hits@.take(i + 1)) =~= hit_cols(hits@.take(i as int)).push(
            if hits@[i as int] { Some(1usize) } else { None },
        ));
        i += 1;
    }
    assert(hits@.take(i as int) =~= hits@);
    report_cols(report, file, &cols, severity, rule_id, message, suggestion);
}

// ------------------------------------------------------------------
// Facts about `lines`
// ------------------------------------------------------------------

/// Sum of `utf8_len(p) + 1` over the pieces `ps`.
pub open spec fn sum_pieces(ps: Seq<Seq<char>>) -> nat
    decreases ps.len(),
{
    if ps.len() == 0 {
        0
    } else {
        sum_pieces(ps.drop_last()) + utf8_len(ps.last()) + 1
    }
}

proof fn lemma_split_sum(s: Seq<char>)
    ensures
        sum_pieces(split_char(s, '\n')) == utf8_len(s) + 1,
        split_char(s, '\n').len() + split_char(s, '\n').last().len() <= s.len() + 1,
        split_char(s, '\n').len() >= 1,
    decreases s.len(),
{
    if s.len() > 0 {
        let r = split_char(s.drop_last(), '\n');
        lemma_split_sum(s.drop_last());
        lemma_split_nonempty(s.drop_last(), '\n');
        assert(utf8_len(s) == utf8_len(s.drop_last()) + char_width(s.last()));
        if s.last() == '\n' {
            assert(char_width('\n') == 1);
            assert(r.push(Seq::<char>::empty()).drop_last() =~= r);
            assert(sum_pieces(r.push(Seq::<char>::empty())) == sum_pieces(r) + 1);
        } else {
            let u = r.update(r.len() - 1, r.last().push(s.last()));
            assert(u.drop_last() =~= r.drop_last());
            assert(r.last().push(s.last()).drop_last() =~= r.last());
            assert(utf8_len(u.last()) == utf8_len(r.last()) + char_width(s.last()));
            assert(sum_pieces(u) == sum_pieces(r) + char_width(s.last()));
        }
    } else {
        let e = seq![Seq::<char>::empty()];
        assert(e.drop_last() =~= Seq::<Seq<char>>::empty());
        assert(utf8_len(e.last()) == 0);
        assert(sum_pieces(e.drop_last()) == 0);
        assert(sum_pieces(e) == 1);
    }
}

/// Each byte of `s` is in a piece, and each piece is followed by one byte.
pub proof fn lemma_split_sum_pub(s: Seq<char>)
    ensures
        sum_pieces(split_char(s, '\n')) == utf8_len(s) + 1,
{
    lemma_split_sum(s);
}

proof fn lemma_sum_pieces_take(ps: Seq<Seq<char>>, i: int)
    requires
        0 <= i <= ps.len(),
    ensures
        sum_pieces(ps.take(i)) <= sum_pieces(ps),
    decreases ps.len() - i,
{
    if i < ps.len() {
        lemma_sum_pieces_take(ps, i + 1);
        assert(ps.take(i + 1).drop_last() =~= ps.take(i));
    } else {
        assert(ps.take(i) =~= ps);
    }
}

/// Byte offset at which line `i` starts when every line is assumed to be
/// followed by exactly one byte of line terminator.
pub open spec fn line_offset(ls: Seq<Seq<char>>, i: int) -> nat {
    sum_pieces(ls.take(i))
}

/// The lines of `s` are no more numerous than its characters, and the
/// offsets computed by adding `len + 1` per line stay within `utf8_len(s) + 1`.
pub proof fn lemma_lines_bounds(s: Seq<char>)
    ensures
        lines(s).len() <= s.len(),
        lines(s).len() <= utf8_len(s),
        sum_pieces(lines(s)) <= utf8_len(s) + 1,
        forall|i: int|
            0 <= i <= lines(s).len() ==> #[trigger] line_offset(lines(s), i) <= sum_pieces(lines(s)),
{
    lemma_split_sum(s);
    lemma_utf8_len_bounds(s);
    let p = split_char(s, '\n');
    let n = p.len();
    let ls = lines(s);
    assert forall|i: int| 0 <= i <= ls.len() implies sum_pieces(ls.take(i)) <= sum_pieces(p.take(i)) by {
        lemma_lines_prefix_le(s, i);
    }
    lemma_sum_pieces_take(p, ls.len() as int);
    assert forall|i: int| 0 <= i <= ls.len() implies #[trigger] line_offset(ls, i) <= sum_pieces(ls) by {
        lemma_sum_pieces_take(ls, i);
    }
    assert(ls.take(ls.len() as int) =~= ls);
}

proof fn lemma_strip_cr_le(l: Seq<char>)
    ensures
        utf8_len(strip_cr(l)) <= utf8_len(l),
{
}

proof fn lemma_lines_prefix_le(s: Seq<char>, i: int)
    requires
        0 <= i <= lines(s).len(),
    ensures
        sum_pieces(lines(s).take(i)) <= sum_pieces(split_char(s, '\n').take(i)),
    decreases i,
{
    lemma_split_nonempty(s, '\n');
    let p = split_char(s, '\n');
    let ls = lines(s);
    if i > 0 {
        lemma_lines_prefix_le(s, i - 1);
        assert(ls.take(i).drop_last() =~= ls.take(i - 1));
        assert(p.take(i).drop_last() =~= p.take(i - 1));
        if i - 1 < p.len() - 1 {
            assert(ls[i - 1] == strip_cr(p[i - 1]));
            lemma_strip_cr_le(p[i - 1]);
        } else {
            assert(ls[i - 1] == p[i - 1]);
        }
    }
}

/// Each line of a text that fits also fits.
pub proof fn lemma_line_fits(s: Seq<char>, i: int)
    requires
        fits(s),
        0 <= i < lines(s).len(),
    ensures
        fits(lines(s)[i]),
        utf8_len(lines(s)[i]) <= utf8_len(s) + 1,
{
    lemma_lines_bounds(s);
    let ls = lines(s);
    assert(ls.take(i + 1).drop_last() =~= ls.take(i));
    assert(ls.take(i + 1).last() == ls[i]);
    assert(line_offset(ls, i + 1) <= sum_pieces(ls));
    assert(utf8_len(ls[i]) + 1 <= line_offset(ls, i + 1));
}

/// Total number of characters of the lines `ls`.
pub open spec fn total_chars(ls: Seq<Seq<char>>) -> nat
    decreases ls.len(),
{
    if ls.len() == 0 {
        0
    } else {
        total_chars(ls.drop_last()) + ls.last().len()
    }
}

proof fn lemma_total_chars_le(ls: Seq<Seq<char>>)
    ensures
        total_chars(ls) <= sum_pieces(ls),
    decreases ls.len(),
{
    if ls.len() > 0 {
        lemma_total_chars_le(ls.drop_last());
        lemma_utf8_len_bounds(ls.last());
    }
}

pub proof fn lemma_total_chars_take(ls: Seq<Seq<char>>, i: int)
    requires
        0 <= i <= ls.len(),
    ensures
        total_chars(ls.take(i)) <= total_chars(ls),
    decreases ls.len() - i,
{
    if i < ls.len() {
        lemma_total_chars_take(ls, i + 1);
        assert(ls.take(i + 1).drop_last() =~= ls.take(i));
    } else {
        assert(ls.take(i) =~= ls);
    }
}

/// The lines of `s` hold at most `utf8_len(s) + 1` characters in all.
pub proof fn lemma_lines_total(s: Seq<char>)
    ensures
        total_chars(lines(s)) <= utf8_len(s) + 1,
{
    lemma_lines_bounds(s);
    lemma_total_chars_le(lines(s));
}

/// Exec `line_starts`: the byte offset of the start of each `\n`-separated
/// piece of `s`.
pub fn line_starts(s: &[char]) -> (r: Vec<usize>)
    requires
        utf8_len(s@) < usize::MAX,
    ensures
        r@.len() == split_char(s@, '\n').len(),
        forall|i: int| 0 <= i < r@.len() ==> r@[i] == sum_pieces(split_char(s@, '\n').take(i)),
{
    let mut r: Vec<usize> = Vec::new();
    r.push(0);
    let mut off: usize = 0;
    let mut i: usize = 0;
    proof {
        assert(split_char(s@.take(0), '\n') =~= seq![Seq::<char>::empty()]);
    }
    while i < s.len()
        invariant
            i <= s@.len(),
            utf8_len(s@) < usize::MAX,
            off == utf8_len(s@.take(i as int)),
            r@.len() == split_char(s@.take(i as int), '\n').len(),
            forall|j: int|
                0 <= j < r@.len() ==> r@[j] == sum_pieces(
                    split_char(s@.take(i as int), '\n').take(j),
                ),
        decreases s@.len() - i,
    {
        let ghost pre = split_char(s@.take(i as int), '\n');
        let ghost post = split_char(s@.take(i + 1), '\n');
        proof {
            assert(s@.take(i + 1).drop_last() =~= s@.take(i as int));
            lemma_utf8_len_take(s@, i + 1);
            lemma_split_sum(s@.take(i as int));
            lemma_split_nonempty(s@.take(i as int), '\n');
        }
        let w = width_of(s[i]);
        off = off + w;
        if s[i] == '\n' {
            r.push(off);
            assert forall|j: int| 0 <= j < r@.len() implies r@[j] == sum_pieces(post.take(j)) by {
                if j < r@.len() - 1 {
                    assert(post.take(j) =~= pre.take(j));
                } else {
                    assert(post.take(j) =~= pre);
                }
            }
        } else {
            assert forall|j: int| 0 <= j < r@.len() implies r@[j] == sum_pieces(post.take(j)) by {
                assert(post.take(j) =~= pre.take(j));
            }
        }
        i += 1;
    }
    assert(s@.take(i as int) =~= s@);
    r
}

} // verus!
