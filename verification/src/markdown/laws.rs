//! What holds of the renderer on every input.
use vstd::prelude::*;
use crate::text::{is_ws, lines, lower, split_char, starts_with, trim};
use crate::minify::laws::lemma_trim_unchanged;
use crate::markdown::helpers::inline_html;
use crate::markdown::render::{anchor_of, block_line, close_blocks, heading, markdown_html, md_from, md_step, Blocks};
use crate::markdown::helpers::{escape_char, escape_html};
use crate::markdown::components::{components_from, opened, processed};

verus! {

/// Escaped text holds no `<` and no `>`.
pub proof fn law_escape_no_angle(t: Seq<char>)
    ensures
        forall|i: int| 0 <= i < escape_html(t).len() ==> #[trigger] escape_html(t)[i] != '<' && escape_html(t)[i] != '>',
    decreases t.len(),
{
    reveal_strlit("&amp;");
    reveal_strlit("&lt;");
    reveal_strlit("&gt;");
    if t.len() > 0 {
        law_escape_no_angle(t.drop_last());
        let a = escape_html(t.drop_last());
        let b = escape_char(t.last());
        assert forall|i: int| 0 <= i < (a + b).len() implies #[trigger] (a + b)[i] != '<' && (a + b)[i] != '>' by {
            if i >= a.len() {
                assert((a + b)[i] == b[i - a.len()]);
            } else {
                assert((a + b)[i] == a[i]);
            }
        }
    }
}

/// Text without `&`, `<` and `>` is its own escape.
pub proof fn law_escape_plain(t: Seq<char>)
    requires
        forall|i: int| 0 <= i < t.len() ==> #[trigger] t[i] != '&' && t[i] != '<' && t[i] != '>',
    ensures
        escape_html(t) == t,
    decreases t.len(),
{
    if t.len() > 0 {
        assert forall|i: int| 0 <= i < t.drop_last().len() implies #[trigger] t.drop_last()[i] != '&' && t.drop_last()[i] != '<' && t.drop_last()[i] != '>' by {
            assert(t.drop_last()[i] == t[i]);
        }
        law_escape_plain(t.drop_last());
        assert(t[t.len() - 1] != '&' && t[t.len() - 1] != '<' && t[t.len() - 1] != '>');
        assert(t.drop_last().push(t.last()) =~= t);
    }
}

/// The lines, each followed by a line break.
pub open spec fn newline_joined(ls: Seq<Seq<char>>) -> Seq<char>
    decreases ls.len(),
{
    if ls.len() == 0 {
        seq![]
    } else {
        ls[0] + seq!['\n'] + newline_joined(ls.drop_first())
    }
}

proof fn lemma_copied_from(
    ls: Seq<Seq<char>>,
    i: int,
    root: Seq<char>,
    tabs_js: Seq<char>,
    out: Seq<char>,
    js: Seq<Seq<char>>,
)
    requires
        0 <= i <= ls.len(),
        forall|j: int| i <= j < ls.len() ==> opened(trim(#[trigger] ls[j])) is None,
    ensures
        components_from(ls, i, root, tabs_js, out, js) == Some((out + newline_joined(ls.subrange(i, ls.len() as int)), js)),
    decreases ls.len() - i,
{
    let rest = ls.subrange(i, ls.len() as int);
    if i == ls.len() {
        assert(rest.len() == 0);
        assert(out + newline_joined(rest) =~= out);
    } else {
        assert(opened(trim(ls[i])) is None);
        lemma_copied_from(ls, i + 1, root, tabs_js, out + ls[i] + seq!['\n'], js);
        assert(rest.drop_first() =~= ls.subrange(i + 1, ls.len() as int));
        assert(rest[0] == ls[i]);
        assert(out + ls[i] + seq!['\n'] + newline_joined(rest.drop_first()) =~= out + newline_joined(rest));
    }
}

/// Markdown in which no line opens a component passes through unchanged,
/// line by line, and adds no script.
pub proof fn law_no_components_copied(input: Seq<char>, root: Seq<char>, tabs_js: Seq<char>)
    requires
        forall|j: int| 0 <= j < crate::text::lines(input).len() ==> opened(trim(#[trigger] crate::text::lines(input)[j])) is None,
    ensures
        processed(input, root, tabs_js) == Some((newline_joined(crate::text::lines(input)), Seq::<Seq<char>>::empty())),
{
    let ls = crate::text::lines(input);
    lemma_copied_from(ls, 0, root, tabs_js, seq![], seq![]);
    assert(ls.subrange(0, ls.len() as int) =~= ls);
    assert(Seq::<char>::empty() + newline_joined(ls) =~= newline_joined(ls));
}

/// A trimmed line `"## " + h` is a level-2 heading and `"# " + h` a level-1
/// heading, whatever blocks are open: the line adds `<h2 ...>` (or
/// `<h1 ...>`) with the anchor of `h` and its inline HTML, and leaves the
/// blocks as they were.
pub proof fn law_heading_levels(h: Seq<char>, st: Blocks, out: Seq<char>)
    ensures
        block_line("## "@ + h, st, out) == (st, out + "<h2 id=\""@ + anchor_of(lower(h)) + "\">"@ + inline_html(h) + "</h2>"@),
        block_line("# "@ + h, st, out) == (st, out + "<h1 id=\""@ + anchor_of(lower(h)) + "\">"@ + inline_html(h) + "</h1>"@),
{
    reveal_strlit("## ");
    reveal_strlit("# ");
    reveal_strlit("<h2 id=\"");
    reveal_strlit("<h1 id=\"");
    reveal_strlit(" id=\"");
    reveal_strlit("\">");
    reveal_strlit("</h2>");
    reveal_strlit("</h1>");
    let t2 = "## "@ + h;
    let t1 = "# "@ + h;
    assert(t2.take(2) =~= seq!['#', '#']);
    assert(!starts_with(t2, "# "@));
    assert(t2.take(3) =~= "## "@);
    assert(starts_with(t2, "## "@));
    assert(t2.skip(3) =~= h);
    assert(t1.take(2) =~= "# "@);
    assert(t1.skip(2) =~= h);
    assert(heading('2', h) =~= "<h2 id=\""@ + anchor_of(lower(h)) + "\">"@ + inline_html(h) + "</h2>"@);
    assert(heading('1', h) =~= "<h1 id=\""@ + anchor_of(lower(h)) + "\">"@ + inline_html(h) + "</h1>"@);
    assert(out + heading('2', h) =~= out + "<h2 id=\""@ + anchor_of(lower(h)) + "\">"@ + inline_html(h) + "</h2>"@);
    assert(out + heading('1', h) =~= out + "<h1 id=\""@ + anchor_of(lower(h)) + "\">"@ + inline_html(h) + "</h1>"@);
}

proof fn lemma_split_without_sep(s: Seq<char>, c: char)
    requires
        forall|j: int| 0 <= j < s.len() ==> #[trigger] s[j] != c,
    ensures
        split_char(s, c) == seq![s],
    decreases s.len(),
{
    if s.len() == 0 {
        assert(s =~= Seq::<char>::empty());
    } else {
        let d = s.drop_last();
        assert forall|j: int| 0 <= j < d.len() implies #[trigger] d[j] != c by {
            assert(d[j] == s[j]);
        }
        lemma_split_without_sep(d, c);
        assert(s.last() != c);
        assert(d.push(s.last()) =~= s);
        assert(seq![d].update(0, d.push(s.last())) =~= seq![s]);
    }
}

/// A text that holds no line break, and whose first character is `#`,
/// renders as its one (trimmed) line.
proof fn lemma_single_heading_line(l: Seq<char>)
    requires
        l.len() > 0,
        l[0] == '#',
        !is_ws(l.last()),
        forall|j: int| 0 <= j < l.len() ==> #[trigger] l[j] != '\n',
        block_line(l, closed_blocks(), seq![]).0 == closed_blocks(),
    ensures
        markdown_html(l) == block_line(l, closed_blocks(), seq![]).1,
{
    reveal_strlit("```");
    lemma_split_without_sep(l, '\n');
    let ls = lines(l);
    assert(ls =~= seq![l]);
    lemma_trim_unchanged(l);
    assert(trim(l) == l);
    assert(!starts_with(l, "```"@)) by {
        if l.len() >= 3 {
            assert(l.take(3)[0] == '#');
        }
    }
    assert(!starts_with(l, seq!['<'])) by {
        assert(l.take(1)[0] == '#');
    }
    let b = closed_blocks();
    let (st2, o2) = block_line(l, b, seq![]);
    assert(md_step(ls, 0, b, seq![], seq![], seq![]) == (1int, st2, Seq::<char>::empty(), Seq::<char>::empty(), o2));
    assert(md_from(ls, 1, st2, seq![], seq![], o2) == (st2, o2));
    assert(md_from(ls, 0, b, seq![], seq![], seq![]) == (st2, o2));
    assert(close_blocks(st2, o2).1 =~= o2);
}

/// The blocks at the start of a text: none open.
pub open spec fn closed_blocks() -> Blocks {
    Blocks { in_code: false, in_ul: false, in_ol: false, in_quote: false }
}

/// A text of one line `"## " + h` (`h` ending in no whitespace) is one
/// level-2 heading, and one of one line `"# " + h` one level-1 heading.
pub proof fn law_heading_documents(h: Seq<char>)
    requires
        h.len() > 0,
        !is_ws(h.last()),
        forall|j: int| 0 <= j < h.len() ==> #[trigger] h[j] != '\n',
    ensures
        markdown_html("## "@ + h) == "<h2 id=\""@ + anchor_of(lower(h)) + "\">"@ + inline_html(h) + "</h2>"@,
        markdown_html("# "@ + h) == "<h1 id=\""@ + anchor_of(lower(h)) + "\">"@ + inline_html(h) + "</h1>"@,
{
    reveal_strlit("## ");
    reveal_strlit("# ");
    let b = closed_blocks();
    law_heading_levels(h, b, seq![]);
    let l2 = "## "@ + h;
    let l1 = "# "@ + h;
    assert(l2[0] == '#' && l2.last() == h.last());
    assert(l1[0] == '#' && l1.last() == h.last());
    assert forall|j: int| 0 <= j < l2.len() implies #[trigger] l2[j] != '\n' by {
        if j >= 3 {
            assert(l2[j] == h[j - 3]);
        }
    }
    assert forall|j: int| 0 <= j < l1.len() implies #[trigger] l1[j] != '\n' by {
        if j >= 2 {
            assert(l1[j] == h[j - 2]);
        }
    }
    lemma_single_heading_line(l2);
    lemma_single_heading_line(l1);
    assert(Seq::<char>::empty() + ("<h2 id=\""@ + anchor_of(lower(h)) + "\">"@ + inline_html(h) + "</h2>"@) =~= "<h2 id=\""@ + anchor_of(lower(h)) + "\">"@ + inline_html(h) + "</h2>"@);
    assert(Seq::<char>::empty() + ("<h1 id=\""@ + anchor_of(lower(h)) + "\">"@ + inline_html(h) + "</h1>"@) =~= "<h1 id=\""@ + anchor_of(lower(h)) + "\">"@ + inline_html(h) + "</h1>"@);
}

/// A trimmed line `">" + q` is a paragraph of a quote: it opens
/// `<blockquote>` unless a quote is already open, adds `<p>` with the inline
/// HTML of `q`, and leaves the quote open.
pub proof fn law_quote_lines(q: Seq<char>, st: Blocks, out: Seq<char>)
    ensures
        block_line(">"@ + q, st, out) == (
            Blocks { in_quote: true, ..st },
            (if st.in_quote { out } else { out + "<blockquote>\n"@ }) + "<p>"@ + inline_html(q) + "</p>\n"@,
        ),
{
    reveal_strlit(">");
    reveal_strlit("# ");
    reveal_strlit("## ");
    let t = ">"@ + q;
    assert(t[0] == '>');
    assert(!starts_with(t, "# "@)) by {
        if t.len() >= 2 {
            assert(t.take(2)[0] == '>');
        }
    }
    assert(!starts_with(t, "## "@)) by {
        if t.len() >= 3 {
            assert(t.take(3)[0] == '>');
        }
    }
    assert(t.take(1) =~= seq!['>']);
    assert(t.skip(1) =~= q);
}

} // verus!
