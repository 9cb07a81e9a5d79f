//! Inline Markdown and the small parsers the renderer shares.
use vstd::prelude::*;
use crate::text::{
    chars_of, find, find_chars, lemma_find, parse_usize, parse_usize_exec, slice_of, split_char,
    split_on, string_of, trim, trimmed, views, starts_with, ends_with,
};

verus! {

// ------------------------------------------------------------------
// Paired markers
// ------------------------------------------------------------------

/// No character of `t` occurs in `m`.
pub open spec fn disjoint_chars(t: Seq<char>, m: Seq<char>) -> bool {
    forall|i: int, j: int| 0 <= i < t.len() && 0 <= j < m.len() ==> t[i] != m[j]
}

/// `t` with its first occurrence of `marker` (at `p`) replaced by `open`
/// when `toggle` holds, else by `close`.
pub open spec fn replaced_at(
    t: Seq<char>,
    p: int,
    marker: Seq<char>,
    open: Seq<char>,
    close: Seq<char>,
    toggle: bool,
) -> Seq<char> {
    t.take(p) + (if toggle {
        open
    } else {
        close
    }) + t.skip(p + marker.len())
}

/// Rewriting with at most `fuel` rounds: while `marker` occurs in the text,
/// its first occurrence is replaced, by `open` and `close` in turn. `None`
/// when the rounds run out first.
pub open spec fn rewrite_in(
    t: Seq<char>,
    marker: Seq<char>,
    open: Seq<char>,
    close: Seq<char>,
    toggle: bool,
    fuel: nat,
) -> Option<Seq<char>>
    decreases fuel,
{
    match find(t, marker) {
        None => Some(t),
        Some(p) => if fuel == 0 {
            None
        } else {
            rewrite_in(replaced_at(t, p, marker, open, close, toggle), marker, open, close, !toggle, (fuel - 1) as nat)
        },
    }
}

/// The rewriting of `t` ends: it does unless the replacements keep forming
/// new markers (as an empty marker, or one that `open` holds, does).
pub open spec fn rewrite_ends(t: Seq<char>, marker: Seq<char>, open: Seq<char>, close: Seq<char>) -> bool {
    exists|n: nat| #[trigger] rewrite_in(t, marker, open, close, true, n) is Some
}

/// What the rewriting of `t` ends with: each occurrence of `marker`, the
/// first one of the text each time, replaced by `open` and `close` in turn.
pub open spec fn simple_pass(t: Seq<char>, marker: Seq<char>, open: Seq<char>, close: Seq<char>) -> Seq<char> {
    rewrite_in(t, marker, open, close, true, choose|n: nat| #[trigger] rewrite_in(t, marker, open, close, true, n) is Some)->0
}

/// More rounds give the same result.
pub proof fn lemma_rewrite_fuel(
    t: Seq<char>,
    marker: Seq<char>,
    open: Seq<char>,
    close: Seq<char>,
    toggle: bool,
    f: nat,
    g: nat,
)
    requires
        rewrite_in(t, marker, open, close, toggle, f) is Some,
        f <= g,
    ensures
        rewrite_in(t, marker, open, close, toggle, g) == rewrite_in(t, marker, open, close, toggle, f),
    decreases f,
{
    if let Some(p) = find(t, marker) {
        lemma_rewrite_fuel(replaced_at(t, p, marker, open, close, toggle), marker, open, close, !toggle, (f - 1) as nat, (g - 1) as nat);
    }
}

/// How many characters of `t` occur in `m`.
pub open spec fn marker_chars(t: Seq<char>, m: Seq<char>) -> nat
    decreases t.len(),
{
    if t.len() == 0 {
        0
    } else {
        marker_chars(t.drop_last(), m) + if m.contains(t.last()) {
            1nat
        } else {
            0nat
        }
    }
}

proof fn lemma_marker_chars_add(a: Seq<char>, b: Seq<char>, m: Seq<char>)
    ensures
        marker_chars(a + b, m) == marker_chars(a, m) + marker_chars(b, m),
    decreases b.len(),
{
    if b.len() == 0 {
        assert(a + b =~= a);
    } else {
        lemma_marker_chars_add(a, b.drop_last(), m);
        assert((a + b).drop_last() =~= a + b.drop_last());
    }
}

proof fn lemma_marker_chars_disjoint(t: Seq<char>, m: Seq<char>)
    requires
        disjoint_chars(t, m),
    ensures
        marker_chars(t, m) == 0,
    decreases t.len(),
{
    if t.len() > 0 {
        assert(disjoint_chars(t.drop_last(), m)) by {
            assert forall|i: int, j: int| 0 <= i < t.drop_last().len() && 0 <= j < m.len() implies t.drop_last()[i] != m[j] by {
                assert(t.drop_last()[i] == t[i]);
            }
        }
        lemma_marker_chars_disjoint(t.drop_last(), m);
        if m.contains(t.last()) {
            let j = choose|j: int| 0 <= j < m.len() && m[j] == t.last();
            assert(t[t.len() - 1] != m[j]);
        }
    }
}

proof fn lemma_marker_chars_full(t: Seq<char>, m: Seq<char>)
    requires
        forall|i: int| 0 <= i < t.len() ==> m.contains(#[trigger] t[i]),
    ensures
        marker_chars(t, m) == t.len(),
    decreases t.len(),
{
    if t.len() > 0 {
        assert forall|i: int| 0 <= i < t.drop_last().len() implies m.contains(#[trigger] t.drop_last()[i]) by {
            assert(t.drop_last()[i] == t[i]);
        }
        lemma_marker_chars_full(t.drop_last(), m);
        assert(m.contains(t[t.len() - 1]));
    }
}

/// A rewriting whose replacements share no character with a nonempty
/// marker ends: each round takes the marker's characters away.
pub proof fn lemma_rewrite_ends(t: Seq<char>, marker: Seq<char>, open: Seq<char>, close: Seq<char>, toggle: bool)
    requires
        marker.len() > 0,
        disjoint_chars(open, marker),
        disjoint_chars(close, marker),
    ensures
        rewrite_in(t, marker, open, close, toggle, marker_chars(t, marker)) is Some,
    decreases marker_chars(t, marker),
{
    lemma_find(t, marker);
    if let Some(p) = find(t, marker) {
        let rep = if toggle {
            open
        } else {
            close
        };
        let head = t.take(p);
        let tail = t.skip(p + marker.len());
        let mid = t.subrange(p, p + marker.len());
        assert(mid == marker);
        assert(t =~= head + mid + tail);
        assert forall|i: int| 0 <= i < mid.len() implies marker.contains(#[trigger] mid[i]) by {
            assert(marker[i] == mid[i]);
        }
        lemma_marker_chars_full(mid, marker);
        lemma_marker_chars_disjoint(rep, marker);
        lemma_marker_chars_add(head, mid, marker);
        lemma_marker_chars_add(head + mid, tail, marker);
        lemma_marker_chars_add(head, rep, marker);
        lemma_marker_chars_add(head + rep, tail, marker);
        let t2 = replaced_at(t, p, marker, open, close, toggle);
        assert(t2 =~= head + rep + tail);
        lemma_rewrite_ends(t2, marker, open, close, !toggle);
        lemma_rewrite_fuel(t2, marker, open, close, !toggle, marker_chars(t2, marker), (marker_chars(t, marker) - 1) as nat);
    }
}

/// Replaces paired markers like `**bold**` or `*italic*`: while `marker`
/// occurs in the text, its first occurrence is replaced, by `open` and
/// `close` in turn.
pub fn replace_simple(text: String, marker: &str, open: &str, close: &str) -> (r: String)
    requires
        rewrite_ends(text@, marker@, open@, close@),
    ensures
        r@ == simple_pass(text@, marker@, open@, close@),
{
    let ghost n = choose|n: nat| #[trigger] rewrite_in(text@, marker@, open@, close@, true, n) is Some;
    let ghost goal = rewrite_in(text@, marker@, open@, close@, true, n);
    let m = chars_of(marker);
    let o = chars_of(open);
    let c = chars_of(close);
    let mut cur = chars_of(text.as_str());
    let mut toggle = true;
    let ghost mut k: nat = n;
    loop
        invariant
            m@ == marker@,
            o@ == open@,
            c@ == close@,
            goal == rewrite_in(text@, marker@, open@, close@, true, n),
            goal is Some,
            simple_pass(text@, marker@, open@, close@) == goal->0,
            rewrite_in(cur@, m@, o@, c@, toggle, k) == goal,
        decreases k,
    {
        match find_chars(cur.as_slice(), m.as_slice()) {
            None => {
                assert(goal == Some(cur@));
                return string_of(cur.as_slice());
            },
            Some(p) => {
                proof {
                    lemma_find(cur@, m@);
                }
                let cl = cur.len();
                assert(p + m@.len() <= cl);
                let ghost before = cur@;
                let mut next: Vec<char> = slice_of(cur.as_slice(), 0, p);
                if toggle {
                    append(&mut next, o.as_slice());
                } else {
                    append(&mut next, c.as_slice());
                }
                let rest = slice_of(cur.as_slice(), p + m.len(), cl);
                append(&mut next, rest.as_slice());
                assert(next@ =~= replaced_at(before, p as int, m@, o@, c@, toggle));
                cur = next;
                toggle = !toggle;
                proof {
                    k = (k - 1) as nat;
                }
            },
        }
    }
}

/// Appends the characters of `t`.
pub fn append(out: &mut Vec<char>, t: &[char])
    ensures
        final(out)@ == old(out)@ + t@,
{
    let mut k: usize = 0;
    while k < t.len()
        invariant
            k <= t@.len(),
            out@ == old(out)@ + t@.take(k as int),
        decreases t@.len() - k,
    {
        out.push(t[k]);
        assert(t@.take(k + 1) =~= t@.take(k as int).push(t@[k as int]));
        k += 1;
    }
    assert(t@.take(k as int) =~= t@);
}

// ------------------------------------------------------------------
// Links and images
// ------------------------------------------------------------------

/// Rewrites `start label mid url )` constructs from left to right with
/// `g(label, url)`. A construct left unfinished (its `mid` or `)` missing)
/// is no link: it and the rest of the text stay as written.
pub open spec fn md_pass(
    t: Seq<char>,
    start: Seq<char>,
    mid: Seq<char>,
    g: spec_fn(Seq<char>, Seq<char>) -> Seq<char>,
) -> Seq<char>
    decreases t.len(),
{
    match find(t, start) {
        None => t,
        Some(si) => {
            proof {
                lemma_find(t, start);
            }
            let r1 = t.skip(si + start.len());
            match find(r1, mid) {
                None => t,
                Some(mi) => {
                    proof {
                        lemma_find(r1, mid);
                    }
                    let r2 = r1.skip(mi + mid.len());
                    match find(r2, seq![')']) {
                        None => t,
                        Some(ei) => {
                            proof {
                                lemma_find(r2, seq![')']);
                            }
                            t.take(si) + g(r1.take(mi), r2.take(ei)) + md_pass(
                                r2.skip(ei + 1),
                                start,
                                mid,
                                g,
                            )
                        },
                    }
                },
            }
        },
    }
}

/// `f` computes `g` on the characters of its arguments.
pub open spec fn builds<F: Fn(&str, &str) -> String>(
    f: F,
    g: spec_fn(Seq<char>, Seq<char>) -> Seq<char>,
) -> bool {
    forall|a: &str, b: &str, o: String| #[trigger] f.ensures((a, b), o) ==> o@ == g(a@, b@)
}

/// Replaces Markdown links or images, `[text](url)` or `![alt](url)`, with
/// what `builder` makes of the label and the URL. For every `g` that
/// `builder` computes, the result is `md_pass(text, start, mid, g)`.
pub fn replace_md<F>(text: String, start: &str, mid: &str, builder: F) -> (r: String)
    where
        F: Fn(&str, &str) -> String,
    requires
        forall|a: &str, b: &str| builder.requires((a, b)),
    ensures
        forall|g: spec_fn(Seq<char>, Seq<char>) -> Seq<char>|
            builds(builder, g) ==> r@ == #[trigger] md_pass(text@, start@, mid@, g),
{
    let t = chars_of(text.as_str());
    let sp = chars_of(start);
    let mp = chars_of(mid);
    let mut close: Vec<char> = Vec::new();
    close.push(')');
    assert(close@ =~= seq![')']);
    let mut out: Vec<char> = Vec::new();
    let mut rem: Vec<char> = t;
    loop
        invariant
            sp@ == start@,
            mp@ == mid@,
            close@ == seq![')'],
            forall|a: &str, b: &str| builder.requires((a, b)),
            forall|g: spec_fn(Seq<char>, Seq<char>) -> Seq<char>|
                builds(builder, g) ==> #[trigger] md_pass(text@, start@, mid@, g) == out@ + md_pass(
                    rem@,
                    start@,
                    mid@,
                    g,
                ),
        decreases rem@.len(),
    {
        let n = rem.len();
        let si = match find_chars(rem.as_slice(), sp.as_slice()) {
            None => {
                append(&mut out, rem.as_slice());
                return string_of(out.as_slice());
            },
            Some(si) => si,
        };
        proof {
            lemma_find(rem@, sp@);
        }
        let head = slice_of(rem.as_slice(), 0, si);
        let r1 = slice_of(rem.as_slice(), si + sp.len(), rem.len());
        assert(r1@ =~= rem@.skip(si + sp@.len()));
        assert(head@ =~= rem@.take(si as int));
        let n1 = r1.len();
        let mi = match find_chars(r1.as_slice(), mp.as_slice()) {
            None => {
                append(&mut out, rem.as_slice());
                return string_of(out.as_slice());
            },
            Some(mi) => mi,
        };
        proof {
            lemma_find(r1@, mp@);
        }
        let label = slice_of(r1.as_slice(), 0, mi);
        let r2 = slice_of(r1.as_slice(), mi + mp.len(), r1.len());
        assert(r2@ =~= r1@.skip(mi + mp@.len()));
        assert(label@ =~= r1@.take(mi as int));
        let n2 = r2.len();
        let ei = match find_chars(r2.as_slice(), close.as_slice()) {
            None => {
                append(&mut out, rem.as_slice());
                return string_of(out.as_slice());
            },
            Some(ei) => ei,
        };
        proof {
            lemma_find(r2@, close@);
        }
        let url = slice_of(r2.as_slice(), 0, ei);
        assert(url@ =~= r2@.take(ei as int));
        let ls = string_of(label.as_slice());
        let us = string_of(url.as_slice());
        let la = ls.as_str();
        let ua = us.as_str();
        let built = builder(la, ua);
        let bc = chars_of(built.as_str());
        let ghost o0 = out@;
        append(&mut out, head.as_slice());
        append(&mut out, bc.as_slice());
        let next = slice_of(r2.as_slice(), ei + 1, r2.len());
        assert(next@ =~= r2@.skip(ei + 1));
        assert forall|g: spec_fn(Seq<char>, Seq<char>) -> Seq<char>|
            builds(builder, g) implies #[trigger] md_pass(text@, start@, mid@, g) == out@ + md_pass(
                next@,
                start@,
                mid@,
                g,
            ) by {
            assert(builder.ensures((la, ua), built));
            assert(bc@ == g(label@, url@));
            assert(md_pass(rem@, start@, mid@, g) == head@ + g(label@, url@) + md_pass(next@, start@, mid@, g));
        }
        rem = next;
    }
}

/// `<img src="url" alt="alt" />`.
pub open spec fn img_html(alt: Seq<char>, url: Seq<char>) -> Seq<char> {
    "<img src=\""@ + url + "\" alt=\""@ + alt + "\" />"@
}

/// `<a href="url">text</a>`.
pub open spec fn link_html(txt: Seq<char>, url: Seq<char>) -> Seq<char> {
    "<a href=\""@ + url + "\">"@ + txt + "</a>"@
}

fn img_tag(alt: &str, url: &str) -> (r: String)
    ensures
        r@ == img_html(alt@, url@),
{
    let mut r = crate::text::owned("<img src=\"");
    crate::text::push_str(&mut r, url);
    crate::text::push_str(&mut r, "\" alt=\"");
    crate::text::push_str(&mut r, alt);
    crate::text::push_str(&mut r, "\" />");
    r
}

fn link_tag(txt: &str, url: &str) -> (r: String)
    ensures
        r@ == link_html(txt@, url@),
{
    let mut r = crate::text::owned("<a href=\"");
    crate::text::push_str(&mut r, url);
    crate::text::push_str(&mut r, "\">");
    crate::text::push_str(&mut r, txt);
    crate::text::push_str(&mut r, "</a>");
    r
}

/// Inline formatting outside code spans: images, links, then `***`,
/// `**` and `*` pairs.
pub open spec fn formatted(t: Seq<char>) -> Seq<char> {
    let a = md_pass(t, "!["@, "]("@, |x: Seq<char>, y: Seq<char>| img_html(x, y));
    let b = md_pass(a, "["@, "]("@, |x: Seq<char>, y: Seq<char>| link_html(x, y));
    let c = simple_pass(b, "***"@, "<strong><em>"@, "</em></strong>"@);
    let d = simple_pass(c, "**"@, "<strong>"@, "</strong>"@);
    simple_pass(d, "*"@, "<em>"@, "</em>"@)
}

proof fn lemma_no_star(t: Seq<char>)
    requires
        forall|i: int| 0 <= i < t.len() ==> t[i] != '*',
    ensures
        disjoint_chars(t, "***"@),
        disjoint_chars(t, "**"@),
        disjoint_chars(t, "*"@),
{
    reveal_strlit("***");
    reveal_strlit("**");
    reveal_strlit("*");
}

/// Applies bold, italic, links and images formatting (outside code spans).
pub fn apply_formatting(text: &str) -> (r: String)
    ensures
        r@ == formatted(text@),
{
    let t = crate::text::owned(text);
    let a = replace_md(t, "![", "](", img_tag);
    let b = replace_md(a, "[", "](", link_tag);
    proof {
        let gi = |x: Seq<char>, y: Seq<char>| img_html(x, y);
        let gl = |x: Seq<char>, y: Seq<char>| link_html(x, y);
        assert(builds(img_tag, gi));
        assert(builds(link_tag, gl));
        assert(a@ == md_pass(text@, "!["@, "]("@, gi));
        assert(b@ == md_pass(a@, "["@, "]("@, gl));
        reveal_strlit("***");
        reveal_strlit("**");
        reveal_strlit("*");
        reveal_strlit("<strong><em>");
        reveal_strlit("</em></strong>");
        reveal_strlit("<strong>");
        reveal_strlit("</strong>");
        reveal_strlit("<em>");
        reveal_strlit("</em>");
        lemma_no_star("<strong><em>"@);
        lemma_no_star("</em></strong>"@);
        lemma_no_star("<strong>"@);
        lemma_no_star("</strong>"@);
        lemma_no_star("<em>"@);
        lemma_no_star("</em>"@);
    }
    proof {
        lemma_rewrite_ends(b@, "***"@, "<strong><em>"@, "</em></strong>"@, true);
    }
    let c = replace_simple(b, "***", "<strong><em>", "</em></strong>");
    proof {
        lemma_rewrite_ends(c@, "**"@, "<strong>"@, "</strong>"@, true);
    }
    let d = replace_simple(c, "**", "<strong>", "</strong>");
    proof {
        lemma_rewrite_ends(d@, "*"@, "<em>"@, "</em>"@, true);
    }
    replace_simple(d, "*", "<em>", "</em>")
}

// ------------------------------------------------------------------
// Inline code
// ------------------------------------------------------------------

/// HTML escaping of `&`, `<` and `>`.
pub open spec fn escape_char(c: char) -> Seq<char> {
    if c == '&' {
        "&amp;"@
    } else if c == '<' {
        "&lt;"@
    } else if c == '>' {
        "&gt;"@
    } else {
        seq![c]
    }
}

/// `t` with `&`, `<` and `>` escaped.
pub open spec fn escape_html(t: Seq<char>) -> Seq<char>
    decreases t.len(),
{
    if t.len() == 0 {
        seq![]
    } else {
        escape_html(t.drop_last()) + escape_char(t.last())
    }
}

/// An inline code span.
pub open spec fn code_span(c: Seq<char>) -> Seq<char> {
    "<code class=\"inline\">"@ + escape_html(c) + "</code>"@
}

/// Inline Markdown: text between pairs of backticks becomes an escaped code
/// span; the rest is `formatted`; a backtick without a partner is kept.
pub open spec fn inline_html(t: Seq<char>) -> Seq<char>
    decreases t.len(),
{
    match find(t, seq!['`']) {
        None => formatted(t),
        Some(s) => {
            proof {
                lemma_find(t, seq!['`']);
            }
            let rest = t.skip(s + 1);
            match find(rest, seq!['`']) {
                Some(e) => {
                    proof {
                        lemma_find(rest, seq!['`']);
                    }
                    formatted(t.take(s)) + code_span(rest.take(e)) + inline_html(rest.skip(e + 1))
                },
                None => formatted(t.take(s)) + seq!['`'] + formatted(rest),
            }
        },
    }
}

fn escape_exec(t: &[char]) -> (r: Vec<char>)
    ensures
        r@ == escape_html(t@),
{
    let amp = chars_of("&amp;");
    let lt = chars_of("&lt;");
    let gt = chars_of("&gt;");
    let mut r: Vec<char> = Vec::new();
    let mut i: usize = 0;
    while i < t.len()
        invariant
            i <= t@.len(),
            amp@ == "&amp;"@,
            lt@ == "&lt;"@,
            gt@ == "&gt;"@,
            r@ == escape_html(t@.take(i as int)),
        decreases t@.len() - i,
    {
        let c = t[i];
        assert(t@.take(i + 1).drop_last() =~= t@.take(i as int));
        if c == '&' {
            append(&mut r, amp.as_slice());
        } else if c == '<' {
            append(&mut r, lt.as_slice());
        } else if c == '>' {
            append(&mut r, gt.as_slice());
        } else {
            r.push(c);
        }
        i += 1;
    }
    assert(t@.take(i as int) =~= t@);
    r
}

/// Parses inline Markdown: links, images, bold and italic text, and inline
/// code spans.
pub fn parse_inline(text: &str) -> (r: String)
    ensures
        r@ == inline_html(text@),
{
    let mut out: Vec<char> = Vec::new();
    let mut rem = chars_of(text);
    let mut tick: Vec<char> = Vec::new();
    tick.push('`');
    assert(tick@ =~= seq!['`']);
    let open = chars_of("<code class=\"inline\">");
    let close = chars_of("</code>");
    loop
        invariant
            tick@ == seq!['`'],
            open@ == "<code class=\"inline\">"@,
            close@ == "</code>"@,
            inline_html(text@) == out@ + inline_html(rem@),
        decreases rem@.len(),
    {
        let n = rem.len();
        let s = match find_chars(rem.as_slice(), tick.as_slice()) {
            None => {
                let rs = string_of(rem.as_slice());
                let f = apply_formatting(rs.as_str());
                append(&mut out, chars_of(f.as_str()).as_slice());
                return string_of(out.as_slice());
            },
            Some(s) => s,
        };
        proof {
            lemma_find(rem@, seq!['`']);
        }
        let head = slice_of(rem.as_slice(), 0, s);
        let hs = string_of(head.as_slice());
        let hf = apply_formatting(hs.as_str());
        let rest = slice_of(rem.as_slice(), s + 1, n);
        assert(head@ =~= rem@.take(s as int));
        assert(rest@ =~= rem@.skip(s + 1));
        append(&mut out, chars_of(hf.as_str()).as_slice());
        let m = rest.len();
        match find_chars(rest.as_slice(), tick.as_slice()) {
            Some(e) => {
                proof {
                    lemma_find(rest@, seq!['`']);
                }
                let code = slice_of(rest.as_slice(), 0, e);
                assert(code@ =~= rest@.take(e as int));
                append(&mut out, open.as_slice());
                append(&mut out, escape_exec(code.as_slice()).as_slice());
                append(&mut out, close.as_slice());
                let next = slice_of(rest.as_slice(), e + 1, m);
                assert(next@ =~= rest@.skip(e + 1));
                rem = next;
            },
            None => {
                out.push('`');
                let rs = string_of(rest.as_slice());
                let f = apply_formatting(rs.as_str());
                append(&mut out, chars_of(f.as_str()).as_slice());
                return string_of(out.as_slice());
            },
        }
    }
}

// ------------------------------------------------------------------
// Lists and tables
// ------------------------------------------------------------------

/// `<number>. <text>`: the part before the first `.`, trimmed, parses as a
/// `usize`, and the part after it is not blank.
pub open spec fn ordered_item(l: Seq<char>) -> bool {
    match find(l, seq!['.']) {
        Some(p) => parse_usize(trim(l.take(p))) is Some && trim(l.skip(p + 1)).len() > 0,
        None => false,
    }
}

/// Checks if a line is an ordered list item.
pub fn is_ordered_list(line: &str) -> (b: bool)
    ensures
        b == ordered_item(line@),
{
    let l = chars_of(line);
    let mut dot: Vec<char> = Vec::new();
    dot.push('.');
    assert(dot@ =~= seq!['.']);
    let n = l.len();
    match find_chars(l.as_slice(), dot.as_slice()) {
        Some(p) => {
            proof {
                lemma_find(l@, seq!['.']);
            }
            let num = slice_of(l.as_slice(), 0, p);
            let rest = slice_of(l.as_slice(), p + 1, l.len());
            assert(num@ =~= l@.take(p as int));
            assert(rest@ =~= l@.skip(p + 1));
            let nt = trimmed(num.as_slice());
            parse_usize_exec(nt.as_slice()).is_some() && trimmed(rest.as_slice()).len() > 0
        },
        None => false,
    }
}

/// A cell of an alignment row: not blank, and only `-` and `:` once trimmed.
pub open spec fn alignment_cell(cell: Seq<char>) -> bool {
    let t = trim(cell);
    t.len() > 0 && forall|i: int| 0 <= i < t.len() ==> (t[i] == '-' || t[i] == ':')
}

/// Every `|`-separated cell of the line is an alignment cell.
pub open spec fn alignment_row(l: Seq<char>) -> bool {
    forall|i: int| 0 <= i < split_char(l, '|').len() ==> #[trigger] alignment_cell(split_char(l, '|')[i])
}

fn alignment_cell_exec(cell: &[char]) -> (b: bool)
    ensures
        b == alignment_cell(cell@),
{
    let t = trimmed(cell);
    if t.len() == 0 {
        return false;
    }
    let mut i: usize = 0;
    while i < t.len()
        invariant
            i <= t@.len(),
            t@ == trim(cell@),
            forall|k: int| 0 <= k < i ==> (t@[k] == '-' || t@[k] == ':'),
        decreases t@.len() - i,
    {
        if !(t[i] == '-' || t[i] == ':') {
            assert(!(t@[i as int] == '-' || t@[i as int] == ':'));
            return false;
        }
        i += 1;
    }
    true
}

/// Checks if a line is a table alignment row (`---`, `:---`, ...).
pub fn is_alignment_row(line: &str) -> (b: bool)
    ensures
        b == alignment_row(line@),
{
    let l = chars_of(line);
    let cells = split_on(l.as_slice(), '|');
    let mut i: usize = 0;
    while i < cells.len()
        invariant
            i <= cells@.len(),
            views(cells@) == split_char(l@, '|'),
            l@ == line@,
            forall|k: int| 0 <= k < i ==> #[trigger] alignment_cell(split_char(l@, '|')[k]),
        decreases cells@.len() - i,
    {
        assert(views(cells@)[i as int] == cells@[i as int]@);
        if !alignment_cell_exec(cells[i].as_slice()) {
            return false;
        }
        i += 1;
    }
    true
}

/// The alignment named by a cell: `center` for `:-:`, `right` for `-:`,
/// `left` otherwise.
pub open spec fn alignment_of(cell: Seq<char>) -> Seq<char> {
    let t = trim(cell);
    if starts_with(t, seq![':']) && ends_with(t, seq![':']) {
        "center"@
    } else if !starts_with(t, seq![':']) && ends_with(t, seq![':']) {
        "right"@
    } else {
        "left"@
    }
}

/// Parses table alignment from an alignment row: one name per cell.
pub fn parse_alignment(line: &str) -> (r: Vec<&'static str>)
    ensures
        r@.len() == split_char(line@, '|').len(),
        forall|i: int| 0 <= i < r@.len() ==> (#[trigger] r@[i])@ == alignment_of(split_char(line@, '|')[i]),
{
    let l = chars_of(line);
    let cells = split_on(l.as_slice(), '|');
    let mut r: Vec<&'static str> = Vec::new();
    let mut i: usize = 0;
    proof {
        reveal_strlit(":");
        assert(":"@ =~= seq![':']);
    }
    while i < cells.len()
        invariant
            i <= cells@.len(),
            views(cells@) == split_char(l@, '|'),
            l@ == line@,
            ":"@ == seq![':'],
            r@.len() == i,
            forall|k: int| 0 <= k < i ==> (#[trigger] r@[k])@ == alignment_of(split_char(l@, '|')[k]),
        decreases cells@.len() - i,
    {
        assert(views(cells@)[i as int] == cells@[i as int]@);
        let t = trimmed(cells[i].as_slice());
        let a = crate::text::starts_with_lit(t.as_slice(), ":");
        let b = crate::text::ends_with_lit(t.as_slice(), ":");
        let name: &'static str = if a && b {
            "center"
        } else if !a && b {
            "right"
        } else {
            "left"
        };
        r.push(name);
        i += 1;
    }
    r
}

/// The trimmed pieces that are not empty.
pub open spec fn nonempty_trimmed(ps: Seq<Seq<char>>) -> Seq<Seq<char>>
    decreases ps.len(),
{
    if ps.len() == 0 {
        seq![]
    } else {
        nonempty_trimmed(ps.drop_last()) + if trim(ps.last()).len() > 0 {
            seq![trim(ps.last())]
        } else {
            seq![]
        }
    }
}

/// Splits a table row into its trimmed, non-empty cells.
pub fn split_table_row(line: &str) -> (r: Vec<String>)
    ensures
        r@.map_values(|s: String| s@) == nonempty_trimmed(split_char(line@, '|')),
{
    let l = chars_of(line);
    let cells = split_on(l.as_slice(), '|');
    let ghost ps = views(cells@);
    let mut r: Vec<String> = Vec::new();
    let mut i: usize = 0;
    while i < cells.len()
        invariant
            i <= cells@.len(),
            ps == views(cells@),
            ps == split_char(line@, '|'),
            r@.map_values(|s: String| s@) == nonempty_trimmed(ps.take(i as int)),
        decreases cells@.len() - i,
    {
        assert(ps[i as int] == cells@[i as int]@);
        assert(ps.take(i + 1).drop_last() =~= ps.take(i as int));
        let t = trimmed(cells[i].as_slice());
        let ghost before = r@.map_values(|s: String| s@);
        if t.len() > 0 {
            r.push(string_of(t.as_slice()));
            assert(r@.map_values(|s: String| s@) =~= before.push(t@));
        }
        assert(r@.map_values(|s: String| s@) =~= nonempty_trimmed(ps.take(i + 1)));
        i += 1;
    }
    assert(ps.take(i as int) =~= ps);
    r
}

// ------------------------------------------------------------------
// Attributes
// ------------------------------------------------------------------

/// The value of `attr="..."` on the trimmed line, if the line has one with a
/// closing quote.
pub open spec fn attr_value(l: Seq<char>, attr: Seq<char>) -> Option<Seq<char>> {
    let t = trim(l);
    let pat = attr + seq!['=', '"'];
    match find(t, pat) {
        Some(s) => {
            let rest = t.skip(s + pat.len());
            match find(rest, seq!['"']) {
                Some(e) => Some(rest.take(e)),
                None => None,
            }
        },
        None => None,
    }
}

/// The value of `attr` on the first line from `i` on that has one, or the
/// empty string.
pub open spec fn attr_from(ls: Seq<Seq<char>>, i: int, attr: Seq<char>) -> Seq<char>
    decreases ls.len() - i,
{
    if i < 0 || i >= ls.len() {
        seq![]
    } else {
        match attr_value(ls[i], attr) {
            Some(v) => v,
            None => attr_from(ls, i + 1, attr),
        }
    }
}

/// The views of string slices.
pub open spec fn str_views(v: Seq<&str>) -> Seq<Seq<char>> {
    v.map_values(|s: &str| s@)
}

/// Finds `attr="value"` in the opening lines of a component tag.
pub fn extract_attr(tag_lines: &[&str], attr: &str) -> (r: String)
    ensures
        r@ == attr_from(str_views(tag_lines@), 0, attr@),
{
    let ghost ls = str_views(tag_lines@);
    let a = chars_of(attr);
    let mut pat = a.clone();
    pat.push('=');
    pat.push('"');
    assert(pat@ =~= attr@ + seq!['=', '"']);
    let mut quote: Vec<char> = Vec::new();
    quote.push('"');
    assert(quote@ =~= seq!['"']);
    let mut i: usize = 0;
    while i < tag_lines.len()
        invariant
            i <= tag_lines@.len(),
            ls == str_views(tag_lines@),
            pat@ == attr@ + seq!['=', '"'],
            quote@ == seq!['"'],
            attr_from(ls, 0, attr@) == attr_from(ls, i as int, attr@),
        decreases tag_lines@.len() - i,
    {
        assert(ls[i as int] == tag_lines@[i as int]@);
        let l = chars_of(tag_lines[i]);
        let t = trimmed(l.as_slice());
        let n = t.len();
        match find_chars(t.as_slice(), pat.as_slice()) {
            Some(s) => {
                proof {
                    lemma_find(t@, pat@);
                }
                let rest = slice_of(t.as_slice(), s + pat.len(), n);
                assert(rest@ =~= t@.skip(s + pat@.len()));
                match find_chars(rest.as_slice(), quote.as_slice()) {
                    Some(e) => {
                        proof {
                            lemma_find(rest@, seq!['"']);
                        }
                        let v = slice_of(rest.as_slice(), 0, e);
                        assert(v@ =~= rest@.take(e as int));
                        return string_of(v.as_slice());
                    },
                    None => {},
                }
            },
            None => {},
        }
        i += 1;
    }
    String::new()
}

} // verus!
