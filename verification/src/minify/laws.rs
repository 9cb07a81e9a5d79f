//! Properties of the minifiers and formatters that hold for every input.
use vstd::prelude::*;
use crate::text::{
    is_ws, lemma_trim_end_prefix, lemma_trim_start_suffix, trim, trim_end, trim_start,
};
use crate::minify::scan::strip_spaces;
use crate::minify::css::{css_min_from, css_min_start, css_min_step, css_punct, css_tight, minified_css, CssMin};
use crate::minify::js::{js_min_from, js_min_start, js_min_step, js_punct, minified_js, word_char, JsMin};
use crate::text::{find_from, lemma_find_from};
use crate::minify::html::{
    ascii_lower, ascii_lower_all, close_tag, closes_verbatim, formatted_html, html_min_from, html_min_start,
    html_min_step, minified_html, open_tag, opens_verbatim, tag_pass, HtmlMin,
};
use crate::minify::css::formatted_css;

verus! {

proof fn lemma_strip_spaces_len(out: Seq<char>)
    ensures
        strip_spaces(out).len() <= out.len(),
    decreases out.len(),
{
    if out.len() > 0 && out.last() == ' ' {
        lemma_strip_spaces_len(out.drop_last());
    }
}

proof fn lemma_trim_start_edge(s: Seq<char>)
    ensures
        trim_start(s).len() > 0 ==> !is_ws(trim_start(s)[0]),
    decreases s.len(),
{
    if s.len() > 0 && is_ws(s[0]) {
        lemma_trim_start_edge(s.drop_first());
    }
}

proof fn lemma_trim_end_edge(s: Seq<char>)
    ensures
        trim_end(s).len() > 0 ==> !is_ws(trim_end(s).last()),
    decreases s.len(),
{
    if s.len() > 0 && is_ws(s.last()) {
        lemma_trim_end_edge(s.drop_last());
    }
}

/// `trim` removes whitespace from both ends, and only from the ends.
pub proof fn lemma_trim_edges(s: Seq<char>)
    ensures
        trim(s).len() <= s.len(),
        trim(s).len() > 0 ==> !is_ws(trim(s)[0]) && !is_ws(trim(s).last()),
{
    let a = trim_start(s);
    lemma_trim_start_suffix(s);
    lemma_trim_start_edge(s);
    lemma_trim_end_prefix(a);
    lemma_trim_end_edge(a);
    if trim(s).len() > 0 {
        assert(trim(s)[0] == a[0]);
    }
}

proof fn lemma_css_min_len(s: Seq<char>, i: int, st: CssMin, out: Seq<char>)
    requires
        0 <= i <= s.len(),
    ensures
        css_min_from(s, i, st, out).len() <= out.len() + s.len() - i,
    decreases s.len() - i,
{
    if i < s.len() {
        let (j, st2, o2) = css_min_step(s, i, st, out);
        lemma_strip_spaces_len(out);
        assert(o2.len() <= out.len() + j - i);
        assert(i < j <= s.len());
        lemma_css_min_len(s, j, st2, o2);
    }
}

proof fn lemma_js_min_len(s: Seq<char>, i: int, st: JsMin, out: Seq<char>)
    requires
        0 <= i <= s.len(),
    ensures
        js_min_from(s, i, st, out).len() <= out.len() + s.len() - i,
    decreases s.len() - i,
{
    if i < s.len() {
        let (j, st2, o2) = js_min_step(s, i, st, out);
        assert(o2.len() <= out.len() + j - i);
        assert(i < j <= s.len());
        lemma_js_min_len(s, j, st2, o2);
    }
}

/// Minifying a stylesheet never makes it longer, and the result neither
/// starts nor ends with whitespace.
pub proof fn law_minify_css_shrinks(s: Seq<char>)
    ensures
        minified_css(s).len() <= s.len(),
        minified_css(s).len() > 0 ==> !is_ws(minified_css(s)[0]) && !is_ws(
            minified_css(s).last(),
        ),
{
    lemma_css_min_len(s, 0, css_min_start(), seq![]);
    lemma_trim_edges(css_min_from(s, 0, css_min_start(), seq![]));
}

/// Minifying a script never makes it longer, and the result neither starts
/// nor ends with whitespace.
pub proof fn law_minify_js_shrinks(s: Seq<char>)
    ensures
        minified_js(s).len() <= s.len(),
        minified_js(s).len() > 0 ==> !is_ws(minified_js(s)[0]) && !is_ws(minified_js(s).last()),
{
    lemma_js_min_len(s, 0, js_min_start(), seq![]);
    lemma_trim_edges(js_min_from(s, 0, js_min_start(), seq![]));
}

/// Rewriting element contents with a pass that changes nothing gives back
/// the document unchanged.
pub proof fn law_tag_pass_identity(s: Seq<char>, pos: int, tag: Seq<char>)
    requires
        0 <= pos <= s.len(),
    ensures
        tag_pass(s, pos, tag, |x: Seq<char>| x) == s.skip(pos),
    decreases s.len() - pos,
{
    let id = |x: Seq<char>| x;
    if let Some(start) = find_from(s, open_tag(tag), pos) {
        lemma_find_from(s, open_tag(tag), pos);
        if let Some(e) = find_from(s, seq!['>'], start) {
            lemma_find_from(s, seq!['>'], start);
            if let Some(end) = find_from(s, close_tag(tag), e + 1) {
                lemma_find_from(s, close_tag(tag), e + 1);
                let next = end + close_tag(tag).len();
                law_tag_pass_identity(s, next, tag);
                let inner = s.subrange(e + 1, end);
                assert(id(inner) == inner);
                assert(s.subrange(end, next) =~= close_tag(tag));
                assert(s.skip(pos) =~= s.subrange(pos, e + 1) + inner + close_tag(tag) + s.skip(
                    next,
                ));
            }
        }
    }
}

/// A minified HTML document, a formatted stylesheet and a formatted HTML
/// document never start with whitespace; the first two never end with it.
pub proof fn law_outputs_trimmed(s: Seq<char>)
    ensures
        minified_html(s).len() > 0 ==> !is_ws(minified_html(s)[0]) && !is_ws(
            minified_html(s).last(),
        ),
        formatted_css(s).len() > 0 ==> !is_ws(formatted_css(s)[0]) && !is_ws(
            formatted_css(s).last(),
        ),
        formatted_html(s).len() > 0 ==> !is_ws(formatted_html(s)[0]),
{
    let scanned = crate::minify::html::html_min_from(
        s,
        0,
        crate::minify::html::html_min_start(),
        seq![],
        seq![],
    );
    let styled = tag_pass(scanned, 0, seq!['s', 't', 'y', 'l', 'e'], |x: Seq<char>| minified_css(x));
    lemma_trim_edges(
        tag_pass(styled, 0, seq!['s', 'c', 'r', 'i', 'p', 't'], |x: Seq<char>| minified_js(x)),
    );
    lemma_trim_edges(
        crate::minify::css::css_fmt_from(s, 0, crate::minify::css::css_fmt_start(), seq![]),
    );
    let fscanned = crate::minify::html::html_fmt_from(
        s,
        0,
        crate::minify::html::html_fmt_start(),
        seq![],
        seq![],
        seq![],
    );
    let fstyled = tag_pass(fscanned, 0, seq!['s', 't', 'y', 'l', 'e'], |x: Seq<char>| formatted_css(x));
    lemma_trim_start_edge(
        tag_pass(fstyled, 0, seq!['s', 'c', 'r', 'i', 'p', 't'], |x: Seq<char>| crate::minify::js::formatted_js(x)),
    );
}

/// A text that neither starts nor ends with whitespace is its own trim.
pub proof fn lemma_trim_unchanged(s: Seq<char>)
    requires
        s.len() > 0,
        !is_ws(s[0]),
        !is_ws(s.last()),
    ensures
        trim(s) == s,
{
    assert(trim_start(s) == s);
    assert(trim_end(s) == s);
}

/// A character that a stylesheet word can hold: no whitespace, none of
/// `{ } : ; ,`, no quote and no `/`.
pub open spec fn css_word(c: char) -> bool {
    !is_ws(c) && !css_punct(c) && c != '"' && c != '\'' && c != '/'
}

proof fn lemma_css_word_run(s: Seq<char>, i: int, k: int, out: Seq<char>)
    requires
        0 <= i <= k <= s.len(),
        forall|j: int| i <= j < k ==> css_word(#[trigger] s[j]),
    ensures
        css_min_from(s, i, css_min_start(), out) == css_min_from(
            s,
            k,
            css_min_start(),
            out + s.subrange(i, k),
        ),
    decreases k - i,
{
    if i == k {
        assert(out + s.subrange(i, k) =~= out);
    } else {
        assert(css_word(s[i]));
        assert(css_min_step(s, i, css_min_start(), out) == (i + 1, css_min_start(), out.push(s[i])));
        lemma_css_word_run(s, i + 1, k, out.push(s[i]));
        assert(out.push(s[i]) + s.subrange(i + 1, k) =~= out + s.subrange(i, k));
    }
}

/// Between two stylesheet words, a run of whitespace is kept as exactly one
/// space: `a + w + b` minifies to `a + " " + b`.
pub proof fn law_minify_css_one_space(a: Seq<char>, w: Seq<char>, b: Seq<char>)
    requires
        a.len() > 0,
        b.len() > 0,
        w.len() > 0,
        forall|j: int| 0 <= j < a.len() ==> css_word(#[trigger] a[j]),
        forall|j: int| 0 <= j < b.len() ==> css_word(#[trigger] b[j]),
        forall|j: int| 0 <= j < w.len() ==> is_ws(#[trigger] w[j]),
    ensures
        minified_css(a + w + b) == a + seq![' '] + b,
{
    let s = a + w + b;
    let n: int = (a.len() + w.len()) as int;
    assert forall|j: int| 0 <= j < a.len() implies css_word(#[trigger] s[j]) by {
        assert(s[j] == a[j]);
    }
    lemma_css_word_run(s, 0, a.len() as int, seq![]);
    assert(Seq::<char>::empty() + s.subrange(0, a.len() as int) =~= a);
    let o = a.push(' ');
    assert(s[a.len() as int] == w[0]);
    assert(a.last() == a[a.len() - 1]);
    assert(css_min_step(s, a.len() as int, css_min_start(), a) == (a.len() + 1int, css_min_start(), o));
    assert forall|j: int| a.len() + 1 <= j < n implies is_ws(#[trigger] s[j]) by {
        assert(s[j] == w[j - a.len()]);
    }
    lemma_css_space_run(s, a.len() + 1int, n, o);
    assert forall|j: int| n <= j < s.len() implies css_word(#[trigger] s[j]) by {
        assert(s[j] == b[j - n]);
    }
    lemma_css_word_run(s, n, s.len() as int, o);
    assert(s.subrange(n, s.len() as int) =~= b);
    let r = o + b;
    assert(css_min_from(s, s.len() as int, css_min_start(), r) == r);
    assert(r =~= a + seq![' '] + b);
    assert(r[0] == a[0]);
    assert(r.last() == b.last());
    lemma_trim_unchanged(r);
}

proof fn lemma_js_string_run(s: Seq<char>, i: int, k: int, st: JsMin, out: Seq<char>)
    requires
        0 <= i < k <= s.len(),
        st.in_string,
        !st.in_line_comment,
        !st.in_block_comment,
        forall|j: int| i <= j < k ==> #[trigger] s[j] != st.delim && s[j] != '\\',
    ensures
        js_min_from(s, i, st, out) == js_min_from(
            s,
            k,
            JsMin { prev: Some(s[k - 1]), ..st },
            out + s.subrange(i, k),
        ),
    decreases k - i,
{
    let st1 = JsMin { prev: Some(s[i]), ..st };
    assert(s[i] != st.delim && s[i] != '\\');
    assert(js_min_step(s, i, st, out) == (i + 1, st1, out.push(s[i])));
    if i + 1 < k {
        lemma_js_string_run(s, i + 1, k, st1, out.push(s[i]));
        assert(JsMin { prev: Some(s[k - 1]), ..st1 } == JsMin { prev: Some(s[k - 1]), ..st });
    }
    assert(out.push(s[i]) + s.subrange(i + 1, k) =~= out + s.subrange(i, k));
}

/// The contents of a string or template literal, delimited by `"`, `'` or
/// `` ` ``, are copied unchanged: `x=` followed by such a literal minifies
/// to itself, whatever spaces, slashes or line breaks the literal holds.
pub proof fn law_minify_js_keeps_literals(d: char, t: Seq<char>)
    requires
        d == '"' || d == '\'' || d == '`',
        forall|j: int| 0 <= j < t.len() ==> #[trigger] t[j] != d && t[j] != '\\',
    ensures
        minified_js("x="@ + seq![d] + t + seq![d]) == "x="@ + seq![d] + t + seq![d],
{
    reveal_strlit("x=");
    let s = "x="@ + seq![d] + t + seq![d];
    let n: int = s.len() as int;
    assert(s[0] == 'x' && s[1] == '=' && s[2] == d && s[n - 1] == d);
    let st0 = js_min_start();
    let st1 = JsMin { prev: Some('x'), ..st0 };
    let st2 = JsMin { prev: Some('='), ..st0 };
    let st3 = JsMin { in_string: true, delim: d, prev: Some(d), ..st0 };
    assert(js_min_step(s, 0, st0, seq![]) == (1int, st1, seq!['x']));
    assert(js_min_step(s, 1, st1, seq!['x']) == (2int, st2, seq!['x', '=']));
    assert(js_min_step(s, 2, st2, seq!['x', '=']) == (3int, st3, seq!['x', '=', d]));
    let o3 = seq!['x', '=', d];
    let o4 = o3 + t;
    let st4 = if t.len() > 0 {
        JsMin { prev: Some(s[n - 2]), ..st3 }
    } else {
        st3
    };
    if t.len() > 0 {
        assert forall|j: int| 3 <= j < n - 1 implies #[trigger] s[j] != st3.delim && s[j] != '\\' by {
            assert(s[j] == t[j - 3]);
        }
        lemma_js_string_run(s, 3, n - 1, st3, o3);
        assert(s.subrange(3, n - 1) =~= t);
    } else {
        assert(o4 =~= o3);
    }
    assert(js_min_from(s, 3, st3, o3) == js_min_from(s, n - 1, st4, o4));
    assert(js_min_from(s, 2, st2, seq!['x', '=']) == js_min_from(s, 3, st3, o3));
    assert(js_min_from(s, 1, st1, seq!['x']) == js_min_from(s, 2, st2, seq!['x', '=']));
    assert(js_min_from(s, 0, st0, seq![]) == js_min_from(s, 1, st1, seq!['x']));
    let r = o4.push(d);
    assert(js_min_step(s, n - 1, st4, o4) == (n, JsMin { in_string: false, prev: Some(d), ..st4 }, r));
    assert(js_min_from(s, n, JsMin { in_string: false, prev: Some(d), ..st4 }, r) == r);
    assert(js_min_from(s, n - 1, st4, o4) == r);
    assert(r =~= s);
    lemma_trim_unchanged(r);
}

proof fn lemma_html_tag_run(s: Seq<char>, i: int, k: int, st: HtmlMin, buf: Seq<char>, out: Seq<char>)
    requires
        0 <= i <= k <= s.len(),
        st.in_tag,
        !st.in_string,
        forall|j: int| i <= j < k ==> #[trigger] s[j] != '<' && s[j] != '>' && s[j] != '"' && s[j] != '\'',
    ensures
        html_min_from(s, i, st, buf, out) == html_min_from(s, k, st, buf + s.subrange(i, k), out),
    decreases k - i,
{
    if i == k {
        assert(buf + s.subrange(i, k) =~= buf);
    } else {
        assert(s[i] != '<' && s[i] != '>' && s[i] != '"' && s[i] != '\'');
        assert(html_min_step(s, i, st, buf, out) == (i + 1, st, buf.push(s[i]), out));
        lemma_html_tag_run(s, i + 1, k, st, buf.push(s[i]), out);
        assert(buf.push(s[i]) + s.subrange(i + 1, k) =~= buf + s.subrange(i, k));
    }
}

proof fn lemma_html_verbatim_run(s: Seq<char>, i: int, k: int, st: HtmlMin, out: Seq<char>)
    requires
        0 <= i <= k <= s.len(),
        !st.in_tag,
        !st.in_string,
        st.verbatim,
        forall|j: int| i <= j < k ==> #[trigger] s[j] != '<',
    ensures
        html_min_from(s, i, st, seq![], out) == html_min_from(s, k, st, seq![], out + s.subrange(i, k)),
    decreases k - i,
{
    if i == k {
        assert(out + s.subrange(i, k) =~= out);
    } else {
        assert(s[i] != '<');
        assert(html_min_step(s, i, st, seq![], out) == (i + 1, st, Seq::<char>::empty(), out.push(s[i])));
        lemma_html_verbatim_run(s, i + 1, k, st, out.push(s[i]));
        assert(out.push(s[i]) + s.subrange(i + 1, k) =~= out + s.subrange(i, k));
    }
}

proof fn lemma_tag_pass_absent(s: Seq<char>, tag: Seq<char>, g: spec_fn(Seq<char>) -> Seq<char>)
    requires
        tag.len() > 0,
        forall|j: int| 0 <= j < s.len() && #[trigger] s[j] == '<' ==> j + 1 < s.len() && s[j + 1] != tag[0],
    ensures
        tag_pass(s, 0, tag, g) == s,
{
    lemma_find_from(s, open_tag(tag), 0);
    if let Some(k) = find_from(s, open_tag(tag), 0) {
        let w = s.subrange(k, k + open_tag(tag).len());
        assert(w == open_tag(tag));
        assert(w[0] == s[k] && w[0] == '<');
        assert(w[1] == s[k + 1] && w[1] == tag[0]);
    }
    assert(s.skip(0) =~= s);
}

/// Text between `<pre>` and `</pre>`, or between `<code>` and `</code>`,
/// that holds no `<` is copied unchanged, its spaces, tabs and line breaks
/// included.
pub proof fn law_minify_html_keeps_verbatim(name: Seq<char>, t: Seq<char>)
    requires
        name == "pre"@ || name == "code"@,
        forall|j: int| 0 <= j < t.len() ==> #[trigger] t[j] != '<',
    ensures
        minified_html("<"@ + name + ">"@ + t + "</"@ + name + ">"@) == "<"@ + name + ">"@ + t + "</"@ + name + ">"@,
{
    reveal_strlit("pre");
    reveal_strlit("code");
    reveal_strlit("<");
    reveal_strlit(">");
    reveal_strlit("</");
    let q: int = name.len() as int;
    let po: Seq<char> = seq!['<'] + name + seq!['>'];
    let pc: Seq<char> = seq!['<', '/'] + name + seq!['>'];
    assert("<"@ + name + ">"@ =~= po);
    assert("</"@ + name + ">"@ =~= pc);
    let s = po + t + pc;
    assert("<"@ + name + ">"@ + t + "</"@ + name + ">"@ =~= s);
    let m: int = q + 2 + t.len() as int;
    let n: int = s.len() as int;
    assert(n == m + q + 3);
    assert forall|j: int| 0 <= j < q + 2 implies s[j] == po[j] by {}
    assert forall|j: int| q + 2 <= j < m implies s[j] == t[j - q - 2] by {}
    assert forall|j: int| m <= j < n implies s[j] == pc[j - m] by {}
    assert forall|j: int| 0 <= j < q implies #[trigger] name[j] != '<' && name[j] != '>' && name[j] != '"' && name[j] != '\'' && name[j] != '/' by {}
    let st0 = html_min_start();
    let sta = HtmlMin { in_tag: true, ..st0 };
    let stv = HtmlMin { in_tag: false, verbatim: true, ..sta };
    let stb = HtmlMin { in_tag: true, ..stv };
    let stc = HtmlMin { in_tag: false, verbatim: false, ..stb };
    let bo: Seq<char> = seq!['<'] + name;
    let bc: Seq<char> = seq!['<', '/'] + name;
    // the opening tag
    assert(html_min_step(s, 0, st0, seq![], seq![]) == (1int, sta, seq!['<'], Seq::<char>::empty()));
    lemma_html_tag_run(s, 1, q + 1, sta, seq!['<'], seq![]);
    assert(seq!['<'] + s.subrange(1, q + 1) =~= bo);
    assert(bo.push('>') =~= po);
    lemma_trim_unchanged(po);
    let lo = ascii_lower_all(po);
    assert(!closes_verbatim(po)) by {
        let c1: Seq<char> = seq!['<', '/', 'p', 'r', 'e', '>'];
        let c2: Seq<char> = seq!['<', '/', 'c', 'o', 'd', 'e', '>'];
        assert(lo[1] == ascii_lower(po[1]));
        assert(ascii_lower_all(c1)[1] == '/');
        assert(ascii_lower_all(c2)[1] == '/');
    }
    assert(opens_verbatim(po)) by {
        if name == "pre"@ {
            assert(po =~= seq!['<', 'p', 'r', 'e', '>']);
        } else {
            assert(po =~= seq!['<', 'c', 'o', 'd', 'e', '>']);
        }
    }
    assert(html_min_step(s, q + 1, sta, bo, seq![]) == (q + 2, stv, Seq::<char>::empty(), po));
    // the text
    lemma_html_verbatim_run(s, q + 2, m, stv, po);
    assert(s.subrange(q + 2, m) =~= t);
    // the closing tag
    assert(html_min_step(s, m, stv, seq![], po + t) == (m + 1, stb, seq!['<'], po + t));
    lemma_html_tag_run(s, m + 1, m + q + 2, stb, seq!['<'], po + t);
    assert(seq!['<'] + s.subrange(m + 1, m + q + 2) =~= bc);
    assert(bc.push('>') =~= pc);
    lemma_trim_unchanged(pc);
    assert(closes_verbatim(pc)) by {
        if name == "pre"@ {
            assert(pc =~= seq!['<', '/', 'p', 'r', 'e', '>']);
        } else {
            assert(pc =~= seq!['<', '/', 'c', 'o', 'd', 'e', '>']);
        }
    }
    assert(html_min_step(s, m + q + 2, stb, bc, po + t) == (n, stc, Seq::<char>::empty(), po + t + pc));
    assert(html_min_from(s, n, stc, seq![], po + t + pc) == po + t + pc);
    assert(html_min_from(s, m + q + 2, stb, bc, po + t) == po + t + pc);
    assert(html_min_from(s, m, stv, seq![], po + t) == po + t + pc);
    assert(html_min_from(s, q + 1, sta, bo, seq![]) == html_min_from(s, q + 2, stv, seq![], po));
    assert(html_min_from(s, 0, st0, seq![], seq![]) == html_min_from(s, 1, sta, seq!['<'], seq![]));
    let scanned = html_min_from(s, 0, st0, seq![], seq![]);
    assert(scanned == s);
    assert forall|j: int| 0 <= j < s.len() && #[trigger] s[j] == '<' implies j + 1 < s.len() && s[j + 1] != 's' by {
        if 0 < j < q + 2 {
            assert(s[j] == po[j]);
        } else if q + 2 <= j < m {
            assert(t[j - q - 2] != '<');
        } else if m < j {
            assert(s[j] == pc[j - m]);
        }
    }
    let style: Seq<char> = seq!['s', 't', 'y', 'l', 'e'];
    let script: Seq<char> = seq!['s', 'c', 'r', 'i', 'p', 't'];
    lemma_tag_pass_absent(s, style, |x: Seq<char>| minified_css(x));
    lemma_tag_pass_absent(s, script, |x: Seq<char>| minified_js(x));
    assert(s[0] == '<' && s.last() == '>');
    lemma_trim_unchanged(s);
}

proof fn lemma_css_spaces_then_punct(s: Seq<char>, i: int, k: int, out: Seq<char>)
    requires
        0 <= i <= k < s.len(),
        out.len() > 0,
        css_word(out.last()),
        forall|j: int| i <= j < k ==> is_ws(#[trigger] s[j]),
        css_punct(s[k]),
    ensures
        css_min_from(s, i, css_min_start(), out) == css_min_from(s, k + 1, css_min_start(), out.push(s[k])),
{
    if i < k {
        let o = out.push(' ');
        assert(is_ws(s[i]));
        assert(css_min_step(s, i, css_min_start(), out) == (i + 1, css_min_start(), o));
        lemma_css_space_run(s, i + 1, k, o);
        assert(o.drop_last() =~= out);
        assert(strip_spaces(out) == out);
        assert(strip_spaces(o) == out);
        assert(css_min_step(s, k, css_min_start(), o) == (k + 1, css_min_start(), out.push(s[k])));
    } else {
        assert(strip_spaces(out) == out);
        assert(css_min_step(s, k, css_min_start(), out) == (k + 1, css_min_start(), out.push(s[k])));
    }
}

/// Whitespace before and after any of `{ } : ; ,` is dropped: two stylesheet
/// words with such a character between them, and whitespace (or none) on
/// either side of it, minify to `a + p + b`.
pub proof fn law_minify_css_tight_punct(a: Seq<char>, w1: Seq<char>, p: char, w2: Seq<char>, b: Seq<char>)
    requires
        a.len() > 0,
        b.len() > 0,
        css_punct(p),
        forall|j: int| 0 <= j < a.len() ==> css_word(#[trigger] a[j]),
        forall|j: int| 0 <= j < b.len() ==> css_word(#[trigger] b[j]),
        forall|j: int| 0 <= j < w1.len() ==> is_ws(#[trigger] w1[j]),
        forall|j: int| 0 <= j < w2.len() ==> is_ws(#[trigger] w2[j]),
    ensures
        minified_css(a + w1 + seq![p] + w2 + b) == a + seq![p] + b,
{
    let s = a + w1 + seq![p] + w2 + b;
    let k: int = (a.len() + w1.len()) as int;
    let n: int = k + 1 + w2.len();
    assert forall|j: int| 0 <= j < a.len() implies css_word(#[trigger] s[j]) by {
        assert(s[j] == a[j]);
    }
    lemma_css_word_run(s, 0, a.len() as int, seq![]);
    assert(Seq::<char>::empty() + s.subrange(0, a.len() as int) =~= a);
    assert(a.last() == a[a.len() - 1]);
    assert forall|j: int| a.len() <= j < k implies is_ws(#[trigger] s[j]) by {
        assert(s[j] == w1[j - a.len()]);
    }
    assert(s[k] == p);
    lemma_css_spaces_then_punct(s, a.len() as int, k, a);
    let o = a.push(p);
    assert forall|j: int| k + 1 <= j < n implies is_ws(#[trigger] s[j]) by {
        assert(s[j] == w2[j - k - 1]);
    }
    lemma_css_space_run(s, k + 1, n, o);
    assert forall|j: int| n <= j < s.len() implies css_word(#[trigger] s[j]) by {
        assert(s[j] == b[j - n]);
    }
    lemma_css_word_run(s, n, s.len() as int, o);
    assert(s.subrange(n, s.len() as int) =~= b);
    let r = o + b;
    assert(css_min_from(s, s.len() as int, css_min_start(), r) == r);
    assert(r =~= a + seq![p] + b);
    assert(r[0] == a[0]);
    assert(r.last() == b.last());
    lemma_trim_unchanged(r);
}

proof fn lemma_css_space_run(s: Seq<char>, i: int, k: int, out: Seq<char>)
    requires
        0 <= i <= k <= s.len(),
        out.len() > 0,
        css_tight(out.last()),
        forall|j: int| i <= j < k ==> is_ws(#[trigger] s[j]),
    ensures
        css_min_from(s, i, css_min_start(), out) == css_min_from(s, k, css_min_start(), out),
    decreases k - i,
{
    if i < k {
        assert(is_ws(s[i]));
        assert(css_min_step(s, i, css_min_start(), out) == (i + 1, css_min_start(), out));
        lemma_css_space_run(s, i + 1, k, out);
    }
}

/// A character of a script word that the minifier copies as it is: a word
/// character that is no whitespace, punctuation or quote.
pub open spec fn js_word(c: char) -> bool {
    word_char(c) && !is_ws(c) && !js_punct(c) && c != '"' && c != '\'' && c != '`'
}

/// Outside strings and comments.
pub open spec fn js_plain(st: JsMin) -> bool {
    !st.in_string && !st.in_line_comment && !st.in_block_comment
}

proof fn lemma_js_word_run(s: Seq<char>, i: int, k: int, st: JsMin, out: Seq<char>)
    requires
        0 <= i < k <= s.len(),
        js_plain(st),
        forall|j: int| i <= j < k ==> js_word(#[trigger] s[j]),
    ensures
        js_min_from(s, i, st, out) == js_min_from(
            s,
            k,
            JsMin { prev: Some(s[k - 1]), ..st },
            out + s.subrange(i, k),
        ),
    decreases k - i,
{
    let st1 = JsMin { prev: Some(s[i]), ..st };
    assert(js_word(s[i]));
    assert(js_min_step(s, i, st, out) == (i + 1, st1, out.push(s[i])));
    if i + 1 < k {
        lemma_js_word_run(s, i + 1, k, st1, out.push(s[i]));
        assert(JsMin { prev: Some(s[k - 1]), ..st1 } == JsMin { prev: Some(s[k - 1]), ..st });
    }
    assert(out.push(s[i]) + s.subrange(i + 1, k) =~= out + s.subrange(i, k));
}

proof fn lemma_js_skip_ws(s: Seq<char>, i: int, k: int, st: JsMin, out: Seq<char>)
    requires
        0 <= i <= k < s.len(),
        js_plain(st),
        forall|j: int| i <= j < k ==> is_ws(#[trigger] s[j]),
        forall|j: int| i < j <= k ==> !word_char(#[trigger] s[j]),
    ensures
        js_min_from(s, i, st, out) == js_min_from(s, k, st, out),
    decreases k - i,
{
    if i < k {
        assert(is_ws(s[i]));
        assert(!word_char(s[i + 1]));
        assert(js_min_step(s, i, st, out) == (i + 1, st, out));
        lemma_js_skip_ws(s, i + 1, k, st, out);
    }
}

/// Between two script words, a run of whitespace (holding no word
/// character) is kept as exactly one space: `a + w + b` minifies to
/// `a + " " + b`.
#[verifier::rlimit(40)]
pub proof fn law_minify_js_one_space(a: Seq<char>, w: Seq<char>, b: Seq<char>)
    requires
        a.len() > 0,
        b.len() > 0,
        w.len() > 0,
        forall|j: int| 0 <= j < a.len() ==> js_word(#[trigger] a[j]),
        forall|j: int| 0 <= j < b.len() ==> js_word(#[trigger] b[j]),
        forall|j: int| 0 <= j < w.len() ==> is_ws(#[trigger] w[j]) && !word_char(w[j]),
    ensures
        minified_js(a + w + b) == a + seq![' '] + b,
{
    let s = a + w + b;
    let m: int = a.len() as int;
    let n: int = (a.len() + w.len()) as int;
    let st0 = js_min_start();
    assert forall|j: int| 0 <= j < m implies js_word(#[trigger] s[j]) by {
        assert(s[j] == a[j]);
    }
    lemma_js_word_run(s, 0, m, st0, seq![]);
    assert(Seq::<char>::empty() + s.subrange(0, m) =~= a);
    let st1 = JsMin { prev: Some(s[m - 1]), ..st0 };
    assert(s[m - 1] == a[m - 1]);
    assert forall|j: int| m <= j < n - 1 implies is_ws(#[trigger] s[j]) by {
        assert(s[j] == w[j - m]);
    }
    assert forall|j: int| m < j <= n - 1 implies !word_char(#[trigger] s[j]) by {
        assert(s[j] == w[j - m]);
    }
    lemma_js_skip_ws(s, m, n - 1, st1, a);
    assert(s[n - 1] == w[n - 1 - m]);
    assert(s[n] == b[0]);
    let o = a.push(' ');
    let st2 = JsMin { prev: Some(' '), ..st1 };
    assert(js_min_step(s, n - 1, st1, a) == (n, st2, o));
    assert forall|j: int| n <= j < s.len() implies js_word(#[trigger] s[j]) by {
        assert(s[j] == b[j - n]);
    }
    lemma_js_word_run(s, n, s.len() as int, st2, o);
    assert(s.subrange(n, s.len() as int) =~= b);
    let r = o + b;
    assert(js_min_from(s, s.len() as int, JsMin { prev: Some(s[s.len() - 1]), ..st2 }, r) == r);
    assert(r =~= a + seq![' '] + b);
    assert(r[0] == a[0]);
    assert(r.last() == b.last());
    lemma_trim_unchanged(r);
}

/// A character of document text that the minifier copies as it is: no
/// whitespace and no `<`.
pub open spec fn html_text(c: char) -> bool {
    !is_ws(c) && c != '<'
}

proof fn lemma_html_text_run(s: Seq<char>, i: int, k: int, out: Seq<char>)
    requires
        0 <= i <= k <= s.len(),
        forall|j: int| i <= j < k ==> html_text(#[trigger] s[j]),
    ensures
        html_min_from(s, i, html_min_start(), seq![], out) == html_min_from(
            s,
            k,
            html_min_start(),
            seq![],
            out + s.subrange(i, k),
        ),
    decreases k - i,
{
    if i == k {
        assert(out + s.subrange(i, k) =~= out);
    } else {
        assert(html_text(s[i]));
        assert(html_min_step(s, i, html_min_start(), seq![], out) == (i + 1, html_min_start(), Seq::<char>::empty(), out.push(s[i])));
        lemma_html_text_run(s, i + 1, k, out.push(s[i]));
        assert(out.push(s[i]) + s.subrange(i + 1, k) =~= out + s.subrange(i, k));
    }
}

proof fn lemma_html_space_run(s: Seq<char>, i: int, k: int, out: Seq<char>)
    requires
        0 <= i <= k <= s.len(),
        out.len() > 0,
        out.last() == ' ',
        forall|j: int| i <= j < k ==> #[trigger] s[j] == ' ',
    ensures
        html_min_from(s, i, html_min_start(), seq![], out) == html_min_from(s, k, html_min_start(), seq![], out),
    decreases k - i,
{
    if i < k {
        assert(s[i] == ' ');
        assert(html_min_step(s, i, html_min_start(), seq![], out) == (i + 1, html_min_start(), Seq::<char>::empty(), out));
        lemma_html_space_run(s, i + 1, k, out);
    }
}

/// Outside tags and `<pre>`/`<code>`, a run of spaces between two words of
/// text is kept as one space: `a + w + b` minifies to `a + " " + b`.
pub proof fn law_minify_html_one_space(a: Seq<char>, w: Seq<char>, b: Seq<char>)
    requires
        a.len() > 0,
        b.len() > 0,
        w.len() > 0,
        forall|j: int| 0 <= j < a.len() ==> html_text(#[trigger] a[j]),
        forall|j: int| 0 <= j < b.len() ==> html_text(#[trigger] b[j]),
        forall|j: int| 0 <= j < w.len() ==> #[trigger] w[j] == ' ',
    ensures
        minified_html(a + w + b) == a + seq![' '] + b,
{
    let s = a + w + b;
    let m: int = a.len() as int;
    let n: int = (a.len() + w.len()) as int;
    let st0 = html_min_start();
    assert forall|j: int| 0 <= j < m implies html_text(#[trigger] s[j]) by {
        assert(s[j] == a[j]);
    }
    lemma_html_text_run(s, 0, m, seq![]);
    assert(Seq::<char>::empty() + s.subrange(0, m) =~= a);
    assert(s[m] == ' ');
    assert(a.last() == a[m - 1]);
    let o = a.push(' ');
    assert(html_min_step(s, m, st0, seq![], a) == (m + 1, st0, Seq::<char>::empty(), o));
    assert forall|j: int| m + 1 <= j < n implies #[trigger] s[j] == ' ' by {
        assert(s[j] == w[j - m]);
    }
    lemma_html_space_run(s, m + 1, n, o);
    assert forall|j: int| n <= j < s.len() implies html_text(#[trigger] s[j]) by {
        assert(s[j] == b[j - n]);
    }
    lemma_html_text_run(s, n, s.len() as int, o);
    assert(s.subrange(n, s.len() as int) =~= b);
    let r = o + b;
    assert(html_min_from(s, s.len() as int, st0, seq![], r) == r);
    assert(r =~= a + seq![' '] + b);
    assert forall|j: int| 0 <= j < r.len() && #[trigger] r[j] == '<' implies j + 1 < r.len() && r[j + 1] != 's' by {
        if j < m {
            assert(r[j] == a[j]);
        } else if j > m {
            assert(r[j] == b[j - m - 1]);
        }
    }
    lemma_tag_pass_absent(r, seq!['s', 't', 'y', 'l', 'e'], |x: Seq<char>| minified_css(x));
    lemma_tag_pass_absent(r, seq!['s', 'c', 'r', 'i', 'p', 't'], |x: Seq<char>| minified_js(x));
    assert(r[0] == a[0]);
    assert(r.last() == b.last());
    lemma_trim_unchanged(r);
}

} // verus!
