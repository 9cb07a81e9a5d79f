//! Block-level Markdown: code blocks, raw HTML, tables, headings, quotes,
//! lists and paragraphs, line by line.
use vstd::prelude::*;
use ultihighlighter::HighlightCss;
use crate::text::{
    alnum_char, chars_of, contains, contains_char, ends_with, ends_with_lit, find, find_char,
    is_alphanumeric, lemma_find, lines, lines_of_str, lower, lower_of, slice_of, split_char,
    split_on, starts_with, starts_with_lit, string_of, trim, trimmed, views,
};
use crate::minify::scan::push_lit;
use crate::markdown::helpers::{
    alignment_of, alignment_row, append, inline_html, is_alignment_row, nonempty_trimmed,
    ordered_item, is_ordered_list, parse_inline, split_table_row,
};
use crate::markdown::highlight::{base_rules, dark_rules, highlight_code, highlighted, lang_rules, light_rules};

verus! {

// ------------------------------------------------------------------
// Pieces of blocks
// ------------------------------------------------------------------

/// The open block structures.
#[derive(Clone, Copy, PartialEq, Eq, Structural)]
pub struct Blocks {
    pub in_code: bool,
    pub in_ul: bool,
    pub in_ol: bool,
    pub in_quote: bool,
}

/// `t` without its leading run of ```` ``` ```` (`trim_start_matches`).
pub open spec fn strip_fences(t: Seq<char>) -> Seq<char>
    decreases t.len(),
{
    if t.len() >= 3 && t.take(3) == seq!['`', '`', '`'] {
        strip_fences(t.skip(3))
    } else {
        t
    }
}

/// The anchor of a heading: lower-cased, spaces turned into `-`, and every
/// character other than letters, digits and `-` dropped.
pub open spec fn anchor_of(lowered: Seq<char>) -> Seq<char>
    decreases lowered.len(),
{
    if lowered.len() == 0 {
        seq![]
    } else {
        let c = if lowered.last() == ' ' {
            '-'
        } else {
            lowered.last()
        };
        anchor_of(lowered.drop_last()) + if alnum_char(c) || c == '-' {
            seq![c]
        } else {
            seq![]
        }
    }
}

/// `<hN id="anchor">inline</hN>` for the heading text `h`.
pub open spec fn heading(n: char, h: Seq<char>) -> Seq<char> {
    seq!['<', 'h', n] + " id=\""@ + anchor_of(lower(h)) + "\">"@ + inline_html(h) + seq!['<', '/', 'h', n, '>']
}

/// The alignment of column `idx`, `left` when the alignment row is short.
pub open spec fn align_at(aligns: Seq<Seq<char>>, idx: int) -> Seq<char> {
    if idx < aligns.len() {
        aligns[idx]
    } else {
        "left"@
    }
}

/// `th` for a header cell, `td` otherwise.
pub open spec fn cell_tag(head: bool) -> Seq<char> {
    if head {
        seq!['t', 'h']
    } else {
        seq!['t', 'd']
    }
}

/// One cell with alignment `a` and text `c`.
pub open spec fn cell_html(a: Seq<char>, c: Seq<char>, head: bool) -> Seq<char> {
    seq!['<'] + cell_tag(head) + " style=\"text-align:"@ + a + "\">"@ + inline_html(c) + seq!['<', '/']
        + cell_tag(head) + seq!['>']
}

/// One table cell per entry of `cells`, with tag `th` or `td`.
pub open spec fn table_cells(cells: Seq<Seq<char>>, aligns: Seq<Seq<char>>, head: bool) -> Seq<char>
    decreases cells.len(),
{
    if cells.len() == 0 {
        seq![]
    } else {
        table_cells(cells.drop_last(), aligns, head) + cell_html(
            align_at(aligns, cells.len() - 1),
            cells.last(),
            head,
        )
    }
}

/// The body rows of a table from line `i` on, while lines contain `|`:
/// the index after them and their HTML.
pub open spec fn table_rows(ls: Seq<Seq<char>>, i: int, aligns: Seq<Seq<char>>) -> (int, Seq<char>)
    decreases ls.len() - i,
{
    if 0 <= i < ls.len() && contains(ls[i], seq!['|']) {
        let (j, rest) = table_rows(ls, i + 1, aligns);
        (j, "<tr>"@ + table_cells(nonempty_trimmed(split_char(ls[i], '|')), aligns, false) + "</tr>\n"@ + rest)
    } else {
        (i, seq![])
    }
}

/// The alignments named by an alignment row.
pub open spec fn row_alignments(l: Seq<char>) -> Seq<Seq<char>> {
    split_char(l, '|').map_values(|c: Seq<char>| alignment_of(c))
}

/// Closes the open lists and quote.
pub open spec fn close_blocks(st: Blocks, out: Seq<char>) -> (Blocks, Seq<char>) {
    (
        Blocks { in_ul: false, in_ol: false, in_quote: false, ..st },
        out + (if st.in_ul {
            "</ul>\n"@
        } else {
            seq![]
        }) + (if st.in_ol {
            "</ol>\n"@
        } else {
            seq![]
        }) + (if st.in_quote {
            "</blockquote>\n"@
        } else {
            seq![]
        }),
    )
}

/// A trimmed line that is none of a fence, raw HTML or a table.
pub open spec fn block_line(t: Seq<char>, st: Blocks, out: Seq<char>) -> (Blocks, Seq<char>) {
    if starts_with(t, "# "@) {
        (st, out + heading('1', t.skip(2)))
    } else if starts_with(t, "## "@) {
        (st, out + heading('2', t.skip(3)))
    } else if starts_with(t, seq!['>']) {
        let o = if st.in_quote {
            out
        } else {
            out + "<blockquote>\n"@
        };
        (Blocks { in_quote: true, ..st }, o + "<p>"@ + inline_html(t.skip(1)) + "</p>\n"@)
    } else if ordered_item(t) {
        let o = if st.in_ol {
            out
        } else {
            out + "<ol>\n"@
        };
        let p = match find(t, seq!['.']) {
            Some(p) => p,
            None => 0,
        };
        (Blocks { in_ol: true, ..st }, o + "<li>"@ + inline_html(trim(t.skip(p + 1))) + "</li>\n"@)
    } else if starts_with(t, "- "@) {
        let o = if st.in_ul {
            out
        } else {
            out + "<ul>\n"@
        };
        (Blocks { in_ul: true, ..st }, o + "<li>"@ + inline_html(t.skip(2)) + "</li>\n"@)
    } else if t.len() > 0 {
        (st, out + "<p>"@ + inline_html(t) + "</p>\n"@)
    } else {
        close_blocks(st, out)
    }
}

/// One step of the renderer at line `i`: the next line, the blocks, the
/// language and text of the code block being read, and the output.
pub open spec fn md_step(
    ls: Seq<Seq<char>>,
    i: int,
    st: Blocks,
    lang: Seq<char>,
    buf: Seq<char>,
    out: Seq<char>,
) -> (int, Blocks, Seq<char>, Seq<char>, Seq<char>) {
    let l = ls[i];
    let t = trim(l);
    if starts_with(t, "```"@) {
        if st.in_code {
            (i + 1, Blocks { in_code: false, ..st }, lang, seq![], out + highlighted(buf, lang))
        } else {
            (i + 1, Blocks { in_code: true, ..st }, strip_fences(t), buf, out)
        }
    } else if st.in_code {
        (i + 1, st, lang, buf + l + seq!['\n'], out)
    } else if starts_with(t, seq!['<']) && ends_with(t, seq!['>']) {
        (i + 1, st, lang, buf, out + l + seq!['\n'])
    } else if contains(t, seq!['|']) && i + 1 < ls.len() && alignment_row(ls[i + 1]) {
        let aligns = row_alignments(ls[i + 1]);
        let (j, rows) = table_rows(ls, i + 2, aligns);
        (
            j,
            st,
            lang,
            buf,
            out + "<table>\n<thead>\n<tr>"@ + table_cells(nonempty_trimmed(split_char(t, '|')), aligns, true)
                + "</tr>\n</thead>\n<tbody>\n"@ + rows + "</tbody>\n</table>\n"@,
        )
    } else {
        let (st2, o2) = block_line(t, st, out);
        (i + 1, st2, lang, buf, o2)
    }
}

/// Runs the renderer from line `i` to the end: the blocks left open and the
/// output.
pub open spec fn md_from(
    ls: Seq<Seq<char>>,
    i: int,
    st: Blocks,
    lang: Seq<char>,
    buf: Seq<char>,
    out: Seq<char>,
) -> (Blocks, Seq<char>)
    decreases ls.len() - i,
{
    if 0 <= i < ls.len() {
        let (j, st2, lang2, buf2, o2) = md_step(ls, i, st, lang, buf, out);
        if i < j <= ls.len() {
            md_from(ls, j, st2, lang2, buf2, o2)
        } else {
            (st, out)
        }
    } else {
        (st, out)
    }
}

/// The HTML of a Markdown text: the blocks of its lines, then the lists and
/// quote left open closed (a code block left open is dropped).
pub open spec fn markdown_html(input: Seq<char>) -> Seq<char> {
    let (st, out) = md_from(
        lines(input),
        0,
        Blocks { in_code: false, in_ul: false, in_ol: false, in_quote: false },
        seq![],
        seq![],
        seq![],
    );
    close_blocks(st, out).1
}

/// Line `i` closes a code block, which is then highlighted.
pub open spec fn closes_code(ls: Seq<Seq<char>>, i: int, st: Blocks) -> bool {
    starts_with(trim(ls[i]), "```"@) && st.in_code
}

/// The languages of the code blocks highlighted from line `i` on, in order.
pub open spec fn highlights_from(
    ls: Seq<Seq<char>>,
    i: int,
    st: Blocks,
    lang: Seq<char>,
    buf: Seq<char>,
    out: Seq<char>,
) -> Seq<Seq<char>>
    decreases ls.len() - i,
{
    if 0 <= i < ls.len() {
        let (j, st2, lang2, buf2, o2) = md_step(ls, i, st, lang, buf, out);
        if i < j <= ls.len() {
            (if closes_code(ls, i, st) {
                seq![lang]
            } else {
                seq![]
            }) + highlights_from(ls, j, st2, lang2, buf2, o2)
        } else {
            seq![]
        }
    } else {
        seq![]
    }
}

proof fn lemma_union_push(a: Set<Seq<char>>, s: Seq<Seq<char>>, x: Seq<char>)
    ensures
        a + s.push(x).to_set() == (a + s.to_set()).insert(x),
{
    s.lemma_push_to_set_commute(x);
    assert(a + s.push(x).to_set() =~= (a + s.to_set()).insert(x));
}

/// The light-theme rules of the languages `langs`.
pub open spec fn light_of(langs: Seq<Seq<char>>) -> Seq<Seq<char>> {
    langs.map_values(|l: Seq<char>| lang_rules(l).0)
}

/// The dark-theme rules of the languages `langs`.
pub open spec fn dark_of(langs: Seq<Seq<char>>) -> Seq<Seq<char>> {
    langs.map_values(|l: Seq<char>| lang_rules(l).1)
}

proof fn lemma_langs_push(a: Set<Seq<char>>, b: Set<Seq<char>>, done: Seq<Seq<char>>, l: Seq<char>)
    ensures
        a + light_of(done.push(l)).to_set() == (a + light_of(done).to_set()).insert(lang_rules(l).0),
        b + dark_of(done.push(l)).to_set() == (b + dark_of(done).to_set()).insert(lang_rules(l).1),
{
    assert(light_of(done.push(l)) =~= light_of(done).push(lang_rules(l).0));
    assert(dark_of(done.push(l)) =~= dark_of(done).push(lang_rules(l).1));
    lemma_union_push(a, light_of(done), lang_rules(l).0);
    lemma_union_push(b, dark_of(done), lang_rules(l).1);
}

/// One step of the renderer adds the language of the block it closes, if
/// it closes one.
proof fn lemma_highlights_step(ls: Seq<Seq<char>>, i: int, st: Blocks, lang: Seq<char>, buf: Seq<char>, out: Seq<char>)
    requires
        0 <= i < ls.len(),
        i < md_step(ls, i, st, lang, buf, out).0 <= ls.len(),
    ensures
        ({
            let (j, st2, lang2, buf2, o2) = md_step(ls, i, st, lang, buf, out);
            highlights_from(ls, i, st, lang, buf, out) == (if closes_code(ls, i, st) {
                seq![lang]
            } else {
                seq![]
            }) + highlights_from(ls, j, st2, lang2, buf2, o2)
        }),
{
}

/// The languages of the code blocks that a Markdown text highlights.
pub open spec fn code_langs(input: Seq<char>) -> Seq<Seq<char>> {
    highlights_from(
        lines(input),
        0,
        Blocks { in_code: false, in_ul: false, in_ol: false, in_quote: false },
        seq![],
        seq![],
        seq![],
    )
}

// ------------------------------------------------------------------
// Rendering
// ------------------------------------------------------------------

fn strip_fences_exec(t: &[char]) -> (r: Vec<char>)
    ensures
        r@ == strip_fences(t@),
{
    let mut k: usize = 0;
    assert(t@.skip(0) =~= t@);
    while k < t.len() && t.len() - k >= 3 && t[k] == '`' && t[k + 1] == '`' && t[k + 2] == '`'
        invariant
            k <= t@.len(),
            strip_fences(t@) == strip_fences(t@.skip(k as int)),
        decreases t@.len() - k,
    {
        assert(t@.skip(k as int).take(3) =~= seq!['`', '`', '`']);
        assert(t@.skip(k as int).skip(3) =~= t@.skip(k + 3));
        k += 3;
    }
    if k < t.len() && t.len() - k >= 3 {
        assert(t@.skip(k as int).take(3) != seq!['`', '`', '`']) by {
            assert(t@.skip(k as int).take(3)[0] == t@[k as int]);
            assert(t@.skip(k as int).take(3)[1] == t@[k + 1]);
            assert(t@.skip(k as int).take(3)[2] == t@[k + 2]);
        }
    }
    let r = slice_of(t, k, t.len());
    assert(r@ =~= t@.skip(k as int));
    r
}

fn anchor_exec(h: &[char]) -> (r: Vec<char>)
    ensures
        r@ == anchor_of(lower(h@)),
{
    let lw = lower_of(h);
    let mut r: Vec<char> = Vec::new();
    let mut i: usize = 0;
    while i < lw.len()
        invariant
            i <= lw@.len(),
            lw@ == lower(h@),
            r@ == anchor_of(lw@.take(i as int)),
        decreases lw@.len() - i,
    {
        assert(lw@.take(i + 1).drop_last() =~= lw@.take(i as int));
        let c = if lw[i] == ' ' {
            '-'
        } else {
            lw[i]
        };
        if is_alphanumeric(c) || c == '-' {
            r.push(c);
        }
        i += 1;
    }
    assert(lw@.take(i as int) =~= lw@);
    r
}

fn push_inline(out: &mut Vec<char>, t: &[char])
    ensures
        final(out)@ == old(out)@ + inline_html(t@),
{
    let s = string_of(t);
    let h = parse_inline(s.as_str());
    append(out, chars_of(h.as_str()).as_slice());
}

fn heading_exec(n: char, h: &[char], out: &mut Vec<char>)
    ensures
        final(out)@ == old(out)@ + heading(n, h@),
{
    out.push('<');
    out.push('h');
    out.push(n);
    push_lit(out, " id=\"");
    append(out, anchor_exec(h).as_slice());
    push_lit(out, "\">");
    push_inline(out, h);
    out.push('<');
    out.push('/');
    out.push('h');
    out.push(n);
    out.push('>');
    assert(out@ =~= old(out)@ + heading(n, h@));
}

/// The views of the alignment names.
pub open spec fn name_views(v: Seq<&'static str>) -> Seq<Seq<char>> {
    v.map_values(|s: &'static str| s@)
}

/// The views of strings.
pub open spec fn string_views(v: Seq<String>) -> Seq<Seq<char>> {
    v.map_values(|s: String| s@)
}

fn push_cell(out: &mut Vec<char>, a: &str, cell: &String, head: bool)
    ensures
        final(out)@ == old(out)@ + cell_html(a@, cell@, head),
{
    out.push('<');
    out.push('t');
    if head {
        out.push('h');
    } else {
        out.push('d');
    }
    push_lit(out, " style=\"text-align:");
    push_lit(out, a);
    push_lit(out, "\">");
    let cc = chars_of(cell.as_str());
    push_inline(out, cc.as_slice());
    out.push('<');
    out.push('/');
    out.push('t');
    if head {
        out.push('h');
    } else {
        out.push('d');
    }
    out.push('>');
    assert(out@ =~= old(out)@ + cell_html(a@, cell@, head));
}

fn table_cells_exec(cells: &Vec<String>, aligns: &Vec<&'static str>, head: bool, out: &mut Vec<char>)
    ensures
        final(out)@ == old(out)@ + table_cells(string_views(cells@), name_views(aligns@), head),
{
    let ghost cs = string_views(cells@);
    let ghost al = name_views(aligns@);
    let mut k: usize = 0;
    while k < cells.len()
        invariant
            k <= cells@.len(),
            cs == string_views(cells@),
            al == name_views(aligns@),
            out@ == old(out)@ + table_cells(cs.take(k as int), al, head),
        decreases cells@.len() - k,
    {
        assert(cs.take(k + 1).drop_last() =~= cs.take(k as int));
        assert(cs[k as int] == cells@[k as int]@);
        let a: &str = if k < aligns.len() {
            aligns[k]
        } else {
            "left"
        };
        assert(a@ == align_at(al, k as int));
        push_cell(out, a, &cells[k], head);
        k += 1;
    }
    assert(cs.take(k as int) =~= cs);
}

fn alignments_exec(l: &[char]) -> (r: Vec<&'static str>)
    ensures
        name_views(r@) == row_alignments(l@),
{
    let s = string_of(l);
    let r = crate::markdown::helpers::parse_alignment(s.as_str());
    assert(name_views(r@) =~= row_alignments(l@));
    r
}

fn cells_exec(l: &[char]) -> (r: Vec<String>)
    ensures
        string_views(r@) == nonempty_trimmed(split_char(l@, '|')),
{
    let s = string_of(l);
    let r = split_table_row(s.as_str());
    assert(string_views(r@) =~= r@.map_values(|s: String| s@));
    r
}

fn block_line_exec(t: &[char], st: Blocks, out: &mut Vec<char>) -> (r: Blocks)
    ensures
        block_line(t@, st, old(out)@) == (r, final(out)@),
{
    if starts_with_lit(t, "# ") {
        proof {
            reveal_strlit("# ");
        }
        let h = slice_of(t, 2, t.len());
        assert(h@ =~= t@.skip(2));
        heading_exec('1', h.as_slice(), out);
        st
    } else if starts_with_lit(t, "## ") {
        proof {
            reveal_strlit("## ");
        }
        let h = slice_of(t, 3, t.len());
        assert(h@ =~= t@.skip(3));
        heading_exec('2', h.as_slice(), out);
        st
    } else if t.len() > 0 && t[0] == '>' {
        assert(starts_with(t@, seq!['>']) == (t@.len() > 0 && t@[0] == '>')) by {
            if t@.len() > 0 {
                assert(t@.subrange(0, 1) =~= seq![t@[0]]);
            }
        }
        if !st.in_quote {
            push_lit(out, "<blockquote>\n");
        }
        push_lit(out, "<p>");
        let rest = slice_of(t, 1, t.len());
        assert(rest@ =~= t@.skip(1));
        push_inline(out, rest.as_slice());
        push_lit(out, "</p>\n");
        Blocks { in_quote: true, ..st }
    } else {
        assert(!starts_with(t@, seq!['>'])) by {
            if t@.len() > 0 {
                assert(t@.subrange(0, 1)[0] == t@[0]);
            }
        }
        let ts = string_of(t);
        if is_ordered_list(ts.as_str()) {
            if !st.in_ol {
                push_lit(out, "<ol>\n");
            }
            let p = match find_char(t, '.') {
                Some(p) => p,
                None => 0,
            };
            proof {
                lemma_find(t@, seq!['.']);
            }
            assert(p <= t@.len());
            let rest = slice_of(t, if p < t.len() { p + 1 } else { t.len() }, t.len());
            assert(find(t@, seq!['.']) is Some);
            assert(rest@ =~= t@.skip(p + 1));
            let content = trimmed(rest.as_slice());
            push_lit(out, "<li>");
            push_inline(out, content.as_slice());
            push_lit(out, "</li>\n");
            Blocks { in_ol: true, ..st }
        } else if starts_with_lit(t, "- ") {
            proof {
                reveal_strlit("- ");
            }
            if !st.in_ul {
                push_lit(out, "<ul>\n");
            }
            let rest = slice_of(t, 2, t.len());
            assert(rest@ =~= t@.skip(2));
            push_lit(out, "<li>");
            push_inline(out, rest.as_slice());
            push_lit(out, "</li>\n");
            Blocks { in_ul: true, ..st }
        } else if t.len() > 0 {
            push_lit(out, "<p>");
            push_inline(out, t);
            push_lit(out, "</p>\n");
            st
        } else {
            close_exec(st, out)
        }
    }
}

fn close_exec(st: Blocks, out: &mut Vec<char>) -> (r: Blocks)
    ensures
        close_blocks(st, old(out)@) == (r, final(out)@),
{
    if st.in_ul {
        push_lit(out, "</ul>\n");
    }
    if st.in_ol {
        push_lit(out, "</ol>\n");
    }
    if st.in_quote {
        push_lit(out, "</blockquote>\n");
    }
    assert(out@ =~= close_blocks(st, old(out)@).1);
    Blocks { in_ul: false, in_ol: false, in_quote: false, ..st }
}

fn table_rows_exec(ls: &Vec<Vec<char>>, i: usize, aligns: &Vec<&'static str>, out: &mut Vec<char>) -> (j: usize)
    requires
        i <= ls@.len(),
    ensures
        table_rows(views(ls@), i as int, name_views(aligns@)) == (j as int, final(out)@.skip(old(out)@.len() as int)),
        final(out)@.take(old(out)@.len() as int) == old(out)@,
        final(out)@.len() >= old(out)@.len(),
        i <= j <= ls@.len(),
{
    let ghost lv = views(ls@);
    let ghost al = name_views(aligns@);
    let ghost o0 = old(out)@;
    let mut k: usize = i;
    assert(out@.skip(o0.len() as int) =~= Seq::<char>::empty());
    assert(out@.take(o0.len() as int) =~= o0);
    while k < ls.len() && contains_char(ls[k].as_slice(), '|')
        invariant
            i <= k <= ls@.len(),
            lv == views(ls@),
            al == name_views(aligns@),
            out@.take(o0.len() as int) == o0,
            out@.len() >= o0.len(),
            table_rows(lv, i as int, al) == (table_rows(lv, k as int, al).0, out@.skip(o0.len() as int)
                + table_rows(lv, k as int, al).1),
        decreases ls@.len() - k,
    {
        assert(lv[k as int] == ls@[k as int]@);
        let ghost before = out@;
        push_lit(out, "<tr>");
        let cells = cells_exec(ls[k].as_slice());
        table_cells_exec(&cells, aligns, false, out);
        push_lit(out, "</tr>\n");
        let ghost row = "<tr>"@ + table_cells(nonempty_trimmed(split_char(lv[k as int], '|')), al, false) + "</tr>\n"@;
        assert(out@ =~= before + row);
        assert(out@.skip(o0.len() as int) =~= before.skip(o0.len() as int) + row);
        assert(out@.take(o0.len() as int) =~= before.take(o0.len() as int));
        k += 1;
    }
    proof {
        if k < ls@.len() {
            assert(!contains(lv[k as int], seq!['|']));
        }
    }
    k
}

fn md_step_exec(
    ls: &Vec<Vec<char>>,
    i: usize,
    st: Blocks,
    lang: &mut Vec<char>,
    buf: &mut Vec<char>,
    out: &mut Vec<char>,
    css: &mut HighlightCss,
) -> (r: (usize, Blocks))
    requires
        i < ls@.len(),
    ensures
        md_step(views(ls@), i as int, st, old(lang)@, old(buf)@, old(out)@) == (
            r.0 as int,
            r.1,
            final(lang)@,
            final(buf)@,
            final(out)@,
        ),
        i < r.0 <= ls@.len(),
        base_rules(*final(css)) == base_rules(*old(css)),
        closes_code(views(ls@), i as int, st) ==> light_rules(*final(css)) == light_rules(*old(css)).insert(
            lang_rules(old(lang)@).0,
        ),
        closes_code(views(ls@), i as int, st) ==> dark_rules(*final(css)) == dark_rules(*old(css)).insert(
            lang_rules(old(lang)@).1,
        ),
        !closes_code(views(ls@), i as int, st) ==> light_rules(*final(css)) == light_rules(*old(css)),
        !closes_code(views(ls@), i as int, st) ==> dark_rules(*final(css)) == dark_rules(*old(css)),
{
    let ghost lv = views(ls@);
    let n = ls.len();
    assert(lv[i as int] == ls@[i as int]@);
    let l = ls[i].as_slice();
    let t = trimmed(l);
    if starts_with_lit(t.as_slice(), "```") {
        if st.in_code {
            let bs = string_of(buf.as_slice());
            let ls_ = string_of(lang.as_slice());
            let h = highlight_code(bs.as_str(), ls_.as_str(), css);
            append(out, chars_of(h.as_str()).as_slice());
            buf.clear();
            assert(buf@ =~= Seq::<char>::empty());
            (i + 1, Blocks { in_code: false, ..st })
        } else {
            let f = strip_fences_exec(t.as_slice());
            lang.clear();
            append(lang, f.as_slice());
            assert(lang@ =~= f@);
            (i + 1, Blocks { in_code: true, ..st })
        }
    } else if st.in_code {
        append(buf, l);
        buf.push('\n');
        (i + 1, st)
    } else if t.len() > 0 && t[0] == '<' && t[t.len() - 1] == '>' && true {
        assert(starts_with(t@, seq!['<']) && ends_with(t@, seq!['>'])) by {
            assert(t@.subrange(0, 1) =~= seq!['<']);
            assert(t@.subrange(t@.len() - 1, t@.len() as int) =~= seq!['>']);
        }
        append(out, l);
        out.push('\n');
        (i + 1, st)
    } else {
        assert(!(starts_with(t@, seq!['<']) && ends_with(t@, seq!['>']))) by {
            if t@.len() > 0 {
                assert(t@.subrange(0, 1)[0] == t@[0]);
                assert(t@.subrange(t@.len() - 1, t@.len() as int)[0] == t@[t@.len() - 1]);
            }
        }
        let table = if contains_char(t.as_slice(), '|') && i + 1 < ls.len() {
            assert(lv[i + 1] == ls@[i + 1]@);
            let s1 = string_of(ls[i + 1].as_slice());
            is_alignment_row(s1.as_str())
        } else {
            false
        };
        if table {
            assert(lv[i + 1] == ls@[i + 1]@);
            let aligns = alignments_exec(ls[i + 1].as_slice());
            let ghost before = out@;
            push_lit(out, "<table>\n<thead>\n<tr>");
            let heads = cells_exec(t.as_slice());
            table_cells_exec(&heads, &aligns, true, out);
            push_lit(out, "</tr>\n</thead>\n<tbody>\n");
            let ghost mid = out@;
            let j = table_rows_exec(ls, i + 2, &aligns, out);
            let ghost rows = out@.skip(mid.len() as int);
            assert(out@ =~= out@.take(mid.len() as int) + out@.skip(mid.len() as int));
            assert(out@ =~= mid + rows);
            push_lit(out, "</tbody>\n</table>\n");
            (j, st)
        } else {
            let st2 = block_line_exec(t.as_slice(), st, out);
            (i + 1, st2)
        }
    }
}

/// Converts Markdown to HTML: fenced code blocks are highlighted (recording
/// their styles in `css`), lines that look like HTML are kept, tables,
/// headings, block quotes, lists and paragraphs become their HTML elements.
pub fn convert_to_html(input: &str, css: &mut HighlightCss) -> (r: String)
    ensures
        r@ == markdown_html(input@),
        base_rules(*final(css)) == base_rules(*old(css)),
        light_rules(*final(css)) == light_rules(*old(css)) + light_of(code_langs(input@)).to_set(),
        dark_rules(*final(css)) == dark_rules(*old(css)) + dark_of(code_langs(input@)).to_set(),
{
    let ls = lines_of_str(input);
    let ghost lv = views(ls@);
    let start = Blocks { in_code: false, in_ul: false, in_ol: false, in_quote: false };
    let mut st = start;
    let mut lang: Vec<char> = Vec::new();
    let mut buf: Vec<char> = Vec::new();
    let mut out: Vec<char> = Vec::new();
    let mut i: usize = 0;
    let ghost mut done: Seq<Seq<char>> = seq![];
    assert(light_rules(*css) =~= light_rules(*old(css)) + light_of(done).to_set());
    assert(dark_rules(*css) =~= dark_rules(*old(css)) + dark_of(done).to_set());
    while i < ls.len()
        invariant
            i <= ls@.len(),
            lv == views(ls@),
            lv == lines(input@),
            md_from(lv, i as int, st, lang@, buf@, out@) == md_from(lv, 0, start, seq![], seq![], seq![]),
            code_langs(input@) == done + highlights_from(lv, i as int, st, lang@, buf@, out@),
            base_rules(*css) == base_rules(*old(css)),
            light_rules(*css) == light_rules(*old(css)) + light_of(done).to_set(),
            dark_rules(*css) == dark_rules(*old(css)) + dark_of(done).to_set(),
        decreases ls@.len() - i,
    {
        let ghost (gi, gst, gl, gb, go) = (i as int, st, lang@, buf@, out@);
        let (j, st2) = md_step_exec(&ls, i, st, &mut lang, &mut buf, &mut out, css);
        assert(md_from(lv, gi, gst, gl, gb, go) == md_from(lv, j as int, st2, lang@, buf@, out@));
        proof {
            lemma_highlights_step(lv, gi, gst, gl, gb, go);
            if closes_code(lv, gi, gst) {
                lemma_langs_push(light_rules(*old(css)), dark_rules(*old(css)), done, gl);
                assert(done + highlights_from(lv, gi, gst, gl, gb, go) =~= done.push(gl) + highlights_from(lv, j as int, st2, lang@, buf@, out@));
                done = done.push(gl);
            } else {
                assert(highlights_from(lv, gi, gst, gl, gb, go) =~= highlights_from(lv, j as int, st2, lang@, buf@, out@));
            }
        }
        i = j;
        st = st2;
    }
    assert(done + highlights_from(lv, i as int, st, lang@, buf@, out@) =~= done);
    let _ = close_exec(st, &mut out);
    string_of(out.as_slice())
}

} // verus!
