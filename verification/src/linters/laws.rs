//! What applying the fixes of the trailing-whitespace rules does.
use vstd::prelude::*;
use crate::lint::edit::EditView;
use crate::lint::fix::{applies, apply_edits, char_index, edit_fits, edit_le, fix_edits, insert_edit, is_boundary, keep_from, plan_of, replace_edit, sort_edits, lemma_char_index_unique, law_plan_applies};
use crate::lint::error::ErrorView;
use crate::lint::support::Tmpl;
use crate::linters::common::{piece_offsets, trailing_ws_errors};
use crate::text::{lines, split_char, strip_cr};
use crate::lint::support::sum_pieces;
use crate::text::{char_width, trim_end, utf8_len, lemma_utf8_len_concat, lemma_trim_end_prefix, lemma_utf8_len_take};

verus! {

/// Pieces joined with line breaks.
pub open spec fn join_lines(ps: Seq<Seq<char>>) -> Seq<char>
    decreases ps.len(),
{
    if ps.len() == 0 {
        seq![]
    } else if ps.len() == 1 {
        ps[0]
    } else {
        join_lines(ps.drop_last()) + seq!['\n'] + ps.last()
    }
}

/// The text before the last piece: the others joined, and a line break.
pub open spec fn before_last(ps: Seq<Seq<char>>) -> Seq<char> {
    if ps.len() <= 1 {
        seq![]
    } else {
        join_lines(ps.drop_last()) + seq!['\n']
    }
}

/// The edit that deletes the trailing whitespace of piece `i`, which starts
/// at byte `sum_pieces(ps.take(i))`, if it has any.
pub open spec fn ws_edit_at(ps: Seq<Seq<char>>, i: int) -> Seq<EditView> {
    let l = ps[i];
    let off = sum_pieces(ps.take(i)) as int;
    if trim_end(l).len() < l.len() {
        seq![EditView { start: off + utf8_len(trim_end(l)), end: off + utf8_len(l), replacement: seq![] }]
    } else {
        seq![]
    }
}

/// The trailing-whitespace edits of all pieces, in order.
pub open spec fn ws_edits(ps: Seq<Seq<char>>) -> Seq<EditView>
    decreases ps.len(),
{
    if ps.len() == 0 {
        seq![]
    } else {
        ws_edits(ps.drop_last()) + ws_edit_at(ps, ps.len() - 1)
    }
}

proof fn lemma_newline_len()
    ensures
        utf8_len(seq!['\n']) == 1,
{
    let n = seq!['\n'];
    assert(n.drop_last() =~= Seq::<char>::empty());
    assert(utf8_len(n.drop_last()) == 0);
    assert(n.last() == '\n');
    assert(char_width('\n') == 1);
}

proof fn lemma_join_split(ps: Seq<Seq<char>>)
    requires
        ps.len() >= 1,
    ensures
        join_lines(ps) == before_last(ps) + ps.last(),
        sum_pieces(ps.drop_last()) == utf8_len(before_last(ps)),
    decreases ps.len(),
{
    if ps.len() == 1 {
        assert(before_last(ps) + ps.last() =~= ps[0]);
        assert(ps.drop_last().len() == 0);
    } else {
        let init = ps.drop_last();
        lemma_join_split(init);
        lemma_utf8_len_concat(join_lines(init), seq!['\n']);
        lemma_utf8_len_concat(before_last(init), init.last());
        lemma_newline_len();
        assert(init.drop_last().push(init.last()) =~= init);
    }
}

/// Extending a text keeps its boundaries and their character indices.
proof fn lemma_extend_boundary(x: Seq<char>, y: Seq<char>, b: int)
    requires
        is_boundary(x, b),
    ensures
        is_boundary(x + y, b),
        char_index(x + y, b) == char_index(x, b),
        char_index(x, b) <= x.len(),
{
    let j = char_index(x, b);
    assert((x + y).take(j) =~= x.take(j));
    let j2 = char_index(x + y, b);
    lemma_char_index_unique(x + y, j, j2);
}

/// Edits that lie in `x` apply to `x + y` as they do to `x`, with `y` kept.
proof fn lemma_apply_prefix(x: Seq<char>, y: Seq<char>, es: Seq<EditView>)
    requires
        forall|k: int| 0 <= k < es.len() ==> edit_fits(x, #[trigger] es[k]),
        forall|k: int| 0 < k < es.len() ==> (#[trigger] es[k]).start >= es[k - 1].end,
    ensures
        apply_edits(x + y, es) == apply_edits(x, es) + y,
    decreases es.len(),
{
    if es.len() > 0 {
        let e = es.last();
        let init = es.drop_last();
        assert(edit_fits(x, es[es.len() - 1]));
        lemma_extend_boundary(x, y, e.start);
        lemma_extend_boundary(x, y, e.end);
        let a = char_index(x, e.start);
        let c = char_index(x, e.end);
        lemma_crate_order(x, e);
        assert(replace_edit(x + y, e) =~= replace_edit(x, e) + y);
        let x2 = replace_edit(x, e);
        crate::lint::fix::lemma_ordered_pairs(es);
        assert forall|k: int| 0 <= k < init.len() implies edit_fits(x2, #[trigger] init[k]) by {
            assert(init[k] == es[k]);
            assert(edit_fits(x, es[k]));
            assert(es[k].end <= es[es.len() - 1].start);
            crate::lint::fix::lemma_boundary_kept(x, e, es[k].start);
            crate::lint::fix::lemma_boundary_kept(x, e, es[k].end);
        }
        assert forall|k: int| 0 < k < init.len() implies (#[trigger] init[k]).start >= init[k - 1].end by {
            assert(init[k] == es[k]);
            assert(init[k - 1] == es[k - 1]);
        }
        lemma_apply_prefix(x2, y, init);
    }
}

/// The character indices of the ends of a fitting edit are ordered.
proof fn lemma_crate_order(x: Seq<char>, e: EditView)
    requires
        edit_fits(x, e),
    ensures
        char_index(x, e.start) <= char_index(x, e.end),
        0 <= char_index(x, e.start),
        char_index(x, e.end) <= x.len(),
{
    let a = char_index(x, e.start);
    let c = char_index(x, e.end);
    crate::lint::fix::lemma_prefix_boundary(x, c, a);
}


/// The pieces with their trailing whitespace removed.
pub open spec fn trimmed_pieces(ps: Seq<Seq<char>>) -> Seq<Seq<char>> {
    ps.map_values(|l: Seq<char>| trim_end(l))
}

/// The boundaries at `pre.len() + k` (for `k <= l.len()`) of `pre + l`.
proof fn lemma_piece_boundary(pre: Seq<char>, l: Seq<char>, k: int)
    requires
        0 <= k <= l.len(),
    ensures
        is_boundary(pre + l, (utf8_len(pre) + utf8_len(l.take(k))) as int),
        char_index(pre + l, (utf8_len(pre) + utf8_len(l.take(k))) as int) == pre.len() + k,
{
    let j = pre.len() + k;
    assert((pre + l).take(j) =~= pre + l.take(k));
    lemma_utf8_len_concat(pre, l.take(k));
    let b = (utf8_len(pre) + utf8_len(l.take(k))) as int;
    let c = char_index(pre + l, b);
    lemma_char_index_unique(pre + l, j, c);
}

/// The edit that trims the last piece `l` of `pre + l`.
proof fn lemma_last_edit(pre: Seq<char>, l: Seq<char>)
    requires
        trim_end(l).len() < l.len(),
    ensures
        ({
            let e = EditView {
                start: (utf8_len(pre) + utf8_len(trim_end(l))) as int,
                end: (utf8_len(pre) + utf8_len(l)) as int,
                replacement: seq![],
            };
            &&& edit_fits(pre + l, e)
            &&& replace_edit(pre + l, e) == pre + trim_end(l)
            &&& e.start >= utf8_len(pre)
            &&& e.end == utf8_len(pre + l)
        }),
{
    let te = trim_end(l);
    lemma_trim_end_prefix(l);
    lemma_piece_boundary(pre, l, te.len() as int);
    lemma_piece_boundary(pre, l, l.len() as int);
    assert(l.take(l.len() as int) =~= l);
    lemma_utf8_len_concat(pre, l);
    lemma_utf8_len_concat(te, l.skip(te.len() as int));
    assert(te + l.skip(te.len() as int) =~= l);
    let e = EditView {
        start: (utf8_len(pre) + utf8_len(te)) as int,
        end: (utf8_len(pre) + utf8_len(l)) as int,
        replacement: seq![],
    };
    assert(replace_edit(pre + l, e) =~= pre + te);
}

/// Edits that fit `j0` fit `j0 + "\n"` and `j0 + "\n" + l`.
proof fn lemma_others_fit(j0: Seq<char>, l: Seq<char>, w: Seq<EditView>)
    requires
        forall|k: int| 0 <= k < w.len() ==> edit_fits(j0, #[trigger] w[k]),
    ensures
        forall|k: int| 0 <= k < w.len() ==> edit_fits(j0 + seq!['\n'], #[trigger] w[k]),
        forall|k: int| 0 <= k < w.len() ==> edit_fits(j0 + seq!['\n'] + l, #[trigger] w[k]),
{
    assert forall|k: int| 0 <= k < w.len() implies edit_fits(j0 + seq!['\n'], #[trigger] w[k]) && edit_fits(j0 + seq!['\n'] + l, w[k]) by {
        assert(edit_fits(j0, w[k]));
        lemma_extend_boundary(j0, seq!['\n'], w[k].start);
        lemma_extend_boundary(j0, seq!['\n'], w[k].end);
        lemma_extend_boundary(j0 + seq!['\n'], l, w[k].start);
        lemma_extend_boundary(j0 + seq!['\n'], l, w[k].end);
    }
}

/// Every edit of `w` ends at or before the end of `j0`, before `e` starts.
proof fn lemma_order_push(w: Seq<EditView>, e: EditView)
    requires
        forall|k: int| 0 < k < w.len() ==> (#[trigger] w[k]).start >= w[k - 1].end,
        w.len() > 0 ==> w.last().end <= e.start,
    ensures
        forall|k: int| 0 < k < (w + seq![e]).len() ==> (#[trigger] (w + seq![e])[k]).start >= (w + seq![e])[k - 1].end,
{
    let es = w + seq![e];
    assert forall|k: int| 0 < k < es.len() implies (#[trigger] es[k]).start >= es[k - 1].end by {
        if k < w.len() {
            assert(es[k] == w[k] && es[k - 1] == w[k - 1]);
        } else {
            assert(es[k - 1] == w[w.len() - 1]);
        }
    }
}

/// The trailing-whitespace edits of the pieces fit their joined text and
/// are ordered.
proof fn lemma_ws_fit(ps: Seq<Seq<char>>)
    ensures
        forall|k: int| 0 <= k < ws_edits(ps).len() ==> edit_fits(join_lines(ps), #[trigger] ws_edits(ps)[k]),
        forall|k: int| 0 < k < ws_edits(ps).len() ==> (#[trigger] ws_edits(ps)[k]).start >= ws_edits(ps)[k - 1].end,
        ws_edits(ps).len() > 0 ==> ws_edits(ps).last().end <= utf8_len(join_lines(ps)),
    decreases ps.len(),
{
    if ps.len() > 0 {
        let init = ps.drop_last();
        let l = ps.last();
        let pre = before_last(ps);
        lemma_ws_fit(init);
        lemma_join_split(ps);
        assert(ps.take(ps.len() - 1) =~= init);
        let w = ws_edits(init);
        let j0 = join_lines(init);
        if init.len() > 0 {
            lemma_others_fit(j0, l, w);
            lemma_utf8_len_concat(j0, seq!['\n']);
            lemma_newline_len();
        } else {
            assert(w.len() == 0);
        }
        lemma_utf8_len_concat(pre, l);
        if trim_end(l).len() < l.len() {
            lemma_last_edit(pre, l);
            let e = ws_edit_at(ps, ps.len() - 1)[0];
            assert(ws_edit_at(ps, ps.len() - 1) == seq![e]);
            let es = w + seq![e];
            lemma_order_push(w, e);
            assert forall|k: int| 0 <= k < es.len() implies edit_fits(join_lines(ps), #[trigger] es[k]) by {
                if k < w.len() {
                    assert(es[k] == w[k]);
                }
            }
            assert(es.last() == e);
        } else {
            assert(ws_edits(ps) =~= w);
        }
    }
}

/// Applying the trailing-whitespace edits of the pieces trims every piece.
proof fn lemma_ws_apply(ps: Seq<Seq<char>>)
    ensures
        apply_edits(join_lines(ps), ws_edits(ps)) == join_lines(trimmed_pieces(ps)),
    decreases ps.len(),
{
    if ps.len() == 0 {
        assert(trimmed_pieces(ps) =~= Seq::<Seq<char>>::empty());
    } else {
        let init = ps.drop_last();
        let l = ps.last();
        let pre = before_last(ps);
        let te = trim_end(l);
        lemma_ws_apply(init);
        lemma_ws_fit(init);
        lemma_join_split(ps);
        lemma_trim_end_prefix(l);
        assert(ps.take(ps.len() - 1) =~= init);
        let w = ws_edits(init);
        let j0 = join_lines(init);
        let tp = trimmed_pieces(ps);
        assert(tp.drop_last() =~= trimmed_pieces(init));
        assert(tp.last() == te);
        lemma_join_split(tp);
        if init.len() > 0 {
            lemma_others_fit(j0, l, w);
            lemma_apply_prefix(j0, seq!['\n'], w);
        } else {
            assert(w.len() == 0);
        }
        assert(apply_edits(pre, w) == before_last(tp));
        if te.len() < l.len() {
            lemma_last_edit(pre, l);
            let e = ws_edit_at(ps, ps.len() - 1)[0];
            assert(ws_edit_at(ps, ps.len() - 1) == seq![e]);
            let es = w + seq![e];
            assert(es.last() == e);
            assert(es.drop_last() =~= w);
            lemma_apply_prefix(pre, te, w);
        } else {
            assert(te =~= l);
            assert(ws_edits(ps) =~= w);
            lemma_apply_prefix(pre, l, w);
        }
    }
}

/// The edits of the findings of a trailing-whitespace check, whose offsets
/// are those of the lines, are the trailing-whitespace edits.
proof fn lemma_ws_fix_edits(ls: Seq<Seq<char>>, offs: Seq<int>, t: Tmpl)
    requires
        forall|i: int| 0 <= i < ls.len() ==> #[trigger] offs[i] == sum_pieces(ls.take(i)),
    ensures
        fix_edits(trailing_ws_errors(ls, offs, t)) == ws_edits(ls),
    decreases ls.len(),
{
    if ls.len() > 0 {
        let init = ls.drop_last();
        assert forall|i: int| 0 <= i < init.len() implies #[trigger] offs[i] == sum_pieces(init.take(i)) by {
            assert(init.take(i) =~= ls.take(i));
        }
        lemma_ws_fix_edits(init, offs, t);
        assert(ls.take(ls.len() - 1) =~= init);
        assert(offs[ls.len() - 1] == sum_pieces(ls.take(ls.len() - 1)));
        let a = trailing_ws_errors(init, offs, t);
        let b = trailing_ws_errors(ls, offs, t);
        if b.len() > a.len() {
            assert(b.drop_last() =~= a);
        } else {
            assert(b =~= a);
        }
    }
}

/// Edits listed in order are left as they are by the sort.
proof fn lemma_sort_sorted_id(es: Seq<EditView>)
    requires
        forall|k: int| 0 < k < es.len() ==> edit_le(es[k - 1], #[trigger] es[k]),
    ensures
        sort_edits(es) == es,
    decreases es.len(),
{
    if es.len() > 0 {
        let init = es.drop_last();
        assert forall|k: int| 0 < k < init.len() implies edit_le(init[k - 1], #[trigger] init[k]) by {
            assert(init[k] == es[k] && init[k - 1] == es[k - 1]);
        }
        lemma_sort_sorted_id(init);
        if init.len() > 0 {
            assert(edit_le(es[es.len() - 2], es[es.len() - 1]));
            assert(init.last() == es[es.len() - 2]);
        }
        assert(init.push(es.last()) =~= es);
    }
}

/// Edits each starting at or after the end of the one before (the first at
/// or after `last_end`) are all kept.
proof fn lemma_keep_all(es: Seq<EditView>, i: int, last_end: int)
    requires
        0 <= i <= es.len(),
        i < es.len() ==> es[i].start >= last_end,
        forall|k: int| 0 < k < es.len() ==> (#[trigger] es[k]).start >= es[k - 1].end,
    ensures
        keep_from(es, i, last_end) == es.skip(i),
    decreases es.len() - i,
{
    if i < es.len() {
        if i + 1 < es.len() {
            assert(es[i + 1].start >= es[i].end);
        }
        lemma_keep_all(es, i + 1, es[i].end);
        assert(seq![es[i]] + es.skip(i + 1) =~= es.skip(i));
    } else {
        assert(es.skip(i) =~= Seq::<EditView>::empty());
    }
}

/// The plan of the trailing-whitespace edits is those edits.
proof fn lemma_ws_plan(ps: Seq<Seq<char>>)
    ensures
        keep_from(sort_edits(ws_edits(ps)), 0, 0) == ws_edits(ps),
{
    let es = ws_edits(ps);
    lemma_ws_fit(ps);
    assert forall|k: int| 0 < k < es.len() implies edit_le(es[k - 1], #[trigger] es[k]) by {
        assert(edit_fits(join_lines(ps), es[k]));
        assert(edit_fits(join_lines(ps), es[k - 1]));
    }
    lemma_sort_sorted_id(es);
    if es.len() > 0 {
        assert(edit_fits(join_lines(ps), es[0]));
    }
    lemma_keep_all(es, 0, 0);
    assert(es.skip(0) =~= es);
}

/// Splitting at line breaks and joining again gives the text back.
proof fn lemma_join_split_char(s: Seq<char>)
    ensures
        join_lines(split_char(s, '\n')) == s,
    decreases s.len(),
{
    crate::text::lemma_split_nonempty(s, '\n');
    if s.len() > 0 {
        let r = split_char(s.drop_last(), '\n');
        lemma_join_split_char(s.drop_last());
        crate::text::lemma_split_nonempty(s.drop_last(), '\n');
        let p = split_char(s, '\n');
        if s.last() == '\n' {
            assert(p.drop_last() =~= r);
            assert(s =~= s.drop_last() + seq!['\n'] + p.last());
        } else {
            assert(p.drop_last() =~= r.drop_last());
            if r.len() == 1 {
                assert(p[0] =~= r[0].push(s.last()));
                assert(s =~= s.drop_last().push(s.last()));
            } else {
                let x = join_lines(r.drop_last()) + seq!['\n'];
                assert(join_lines(r) == x + r.last());
                assert(s =~= s.drop_last().push(s.last()));
                assert((x + r.last()).push(s.last()) =~= x + r.last().push(s.last()));
                assert(p.last() == r.last().push(s.last()));
                assert(join_lines(p) == x + p.last());
            }
        }
    } else {
        assert(split_char(s, '\n') =~= seq![Seq::<char>::empty()]);
    }
}

/// Without `\r` in the text, no piece ends with one.
proof fn lemma_pieces_no_cr(s: Seq<char>)
    requires
        forall|k: int| 0 <= k < s.len() ==> s[k] != '\r',
    ensures
        forall|i: int| 0 <= i < split_char(s, '\n').len() ==> strip_cr(#[trigger] split_char(s, '\n')[i]) == split_char(s, '\n')[i],
    decreases s.len(),
{
    if s.len() > 0 {
        let d = s.drop_last();
        assert forall|k: int| 0 <= k < d.len() implies d[k] != '\r' by {
            assert(d[k] == s[k]);
        }
        lemma_pieces_no_cr(d);
        crate::text::lemma_split_nonempty(d, '\n');
        let r = split_char(d, '\n');
        let p = split_char(s, '\n');
        assert(s[s.len() - 1] != '\r');
        assert forall|i: int| 0 <= i < p.len() implies strip_cr(#[trigger] p[i]) == p[i] by {
            if s.last() == '\n' {
                if i < r.len() {
                    assert(p[i] == r[i]);
                }
            } else {
                if i < r.len() - 1 {
                    assert(p[i] == r[i]);
                } else {
                    assert(p[i] == r.last().push(s.last()));
                }
            }
        }
    }
}

/// Applying the fixes of a trailing-whitespace check (CSS001, and the like
/// rules that locate lines by their byte offsets) to a text without `\r`
/// succeeds and removes the trailing whitespace of every line, keeping every
/// line break.
pub proof fn law_trailing_ws_fixes(s: Seq<char>, t: Tmpl)
    requires
        forall|k: int| 0 <= k < s.len() ==> s[k] != '\r',
    ensures
        applies(s, plan_of(trailing_ws_errors(lines(s), piece_offsets(s), t))),
        apply_edits(s, plan_of(trailing_ws_errors(lines(s), piece_offsets(s), t)))
            == join_lines(trimmed_pieces(split_char(s, '\n'))),
{
    let p = split_char(s, '\n');
    let ls = lines(s);
    crate::text::lemma_split_nonempty(s, '\n');
    lemma_pieces_no_cr(s);
    lemma_join_split_char(s);
    let n = p.len();
    assert(p.take(n - 1).map_values(|l: Seq<char>| strip_cr(l)) =~= p.take(n - 1));
    // the lines are the pieces, but for an empty last one
    if p[n - 1].len() == 0 {
        assert(ls =~= p.drop_last());
        assert(ws_edit_at(p, n - 1) =~= Seq::<EditView>::empty());
        assert(ws_edits(p) =~= ws_edits(ls));
    } else {
        assert(ls =~= p);
    }
    assert forall|i: int| 0 <= i < ls.len() implies #[trigger] piece_offsets(s)[i] == sum_pieces(ls.take(i)) by {
        assert(ls.take(i) =~= p.take(i));
    }
    lemma_ws_fix_edits(ls, piece_offsets(s), t);
    lemma_ws_plan(p);
    lemma_ws_fit(p);
    lemma_ws_apply(p);
    law_plan_applies(s, ws_edits(p));
}

} // verus!
