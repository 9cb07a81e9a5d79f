//! HTML minifier and formatter, and the pass that rewrites the contents of
//! `<style>` and `<script>` elements.
use vstd::prelude::*;
use crate::text::{
    chars_of, find_chars_from, find_from, is_whitespace, is_ws, lemma_find_from, matches_at,
    slice_of, string_of, trim, trimmed, trim_start, trimmed_start, starts_with, ends_with,
    starts_with_lit, ends_with_lit, eq_lit,
};
use crate::minify::css::{formatted_css, format_css, minified_css, minify_css};
use crate::minify::js::{formatted_js, format_js, minified_js, minify_js};
use crate::minify::scan::{ends_in, indent, last_is, push_indent};

verus! {

// ------------------------------------------------------------------
// ASCII case folding
// ------------------------------------------------------------------

/// `char::to_ascii_lowercase`.
pub open spec fn ascii_lower(c: char) -> char {
    if 'A' <= c && c <= 'Z' {
        ((c as u32) + 32) as char
    } else {
        c
    }
}

/// `str::to_ascii_lowercase`.
pub open spec fn ascii_lower_all(s: Seq<char>) -> Seq<char> {
    s.map_values(|c: char| ascii_lower(c))
}

/// `str::eq_ignore_ascii_case`.
pub open spec fn eq_ignore_case(a: Seq<char>, b: Seq<char>) -> bool {
    ascii_lower_all(a) == ascii_lower_all(b)
}

pub fn to_ascii_lower(c: char) -> (r: char)
    ensures
        r == ascii_lower(c),
{
    if 'A' <= c && c <= 'Z' {
        let b: u8 = (c as u32 - 65) as u8;
        let l = (b + 97) as char;
        l
    } else {
        c
    }
}

/// Exec `ascii_lower_all`.
pub fn lower_ascii(s: &[char]) -> (r: Vec<char>)
    ensures
        r@ == ascii_lower_all(s@),
{
    let mut r: Vec<char> = Vec::new();
    let mut i: usize = 0;
    while i < s.len()
        invariant
            i <= s@.len(),
            r@ == ascii_lower_all(s@.take(i as int)),
        decreases s@.len() - i,
    {
        r.push(to_ascii_lower(s[i]));
        assert(ascii_lower_all(s@.take(i + 1)) =~= ascii_lower_all(s@.take(i as int)).push(
            ascii_lower(s@[i as int]),
        ));
        i += 1;
    }
    assert(s@.take(i as int) =~= s@);
    r
}

/// Exec `eq_ignore_case` against a literal.
pub fn eq_ignore_case_lit(a: &[char], b: &str) -> (r: bool)
    ensures
        r == eq_ignore_case(a@, b@),
{
    let bc = chars_of(b);
    let la = lower_ascii(a);
    let lb = lower_ascii(bc.as_slice());
    if la.len() != lb.len() {
        assert(ascii_lower_all(a@).len() != ascii_lower_all(b@).len());
        return false;
    }
    let mut i: usize = 0;
    while i < la.len()
        invariant
            i <= la@.len(),
            la@.len() == lb@.len(),
            la@ == ascii_lower_all(a@),
            lb@ == ascii_lower_all(b@),
            forall|k: int| 0 <= k < i ==> la@[k] == lb@[k],
        decreases la@.len() - i,
    {
        if la[i] != lb[i] {
            assert(la@[i as int] != lb@[i as int]);
            assert(!(la@ =~= lb@));
            return false;
        }
        i += 1;
    }
    assert(la@ =~= lb@);
    true
}

// ------------------------------------------------------------------
// Rewriting element contents
// ------------------------------------------------------------------

/// `"<" + tag`.
pub open spec fn open_tag(tag: Seq<char>) -> Seq<char> {
    seq!['<'] + tag
}

/// `"</" + tag + ">"`.
pub open spec fn close_tag(tag: Seq<char>) -> Seq<char> {
    seq!['<', '/'] + tag + seq!['>']
}

/// Elements whose contents are never rewritten: `pre` and `code`, in any case.
pub open spec fn verbatim_tag(tag: Seq<char>) -> bool {
    eq_ignore_case(tag, seq!['p', 'r', 'e']) || eq_ignore_case(tag, seq!['c', 'o', 'd', 'e'])
}

/// The text from position `pos` of `s`, with the contents of every complete
/// `<tag ...>...</tag>` element replaced by `g` of them (unless `tag` is
/// `pre` or `code`). The search for each element starts where the previous
/// one ended; when an element is not closed, the rest is copied unchanged.
pub open spec fn tag_pass(s: Seq<char>, pos: int, tag: Seq<char>, g: spec_fn(Seq<char>) -> Seq<char>) -> Seq<char>
    decreases s.len() - pos,
{
    if pos < 0 || pos > s.len() {
        seq![]
    } else {
        match find_from(s, open_tag(tag), pos) {
            None => s.skip(pos),
            Some(start) => match find_from(s, seq!['>'], start) {
                None => s.skip(pos),
                Some(e) => match find_from(s, close_tag(tag), e + 1) {
                    None => s.skip(pos),
                    Some(end) => {
                        proof {
                            lemma_find_from(s, open_tag(tag), pos);
                            lemma_find_from(s, seq!['>'], start);
                            lemma_find_from(s, close_tag(tag), e + 1);
                        }
                        let inner = s.subrange(e + 1, end);
                        let body = if verbatim_tag(tag) {
                            inner
                        } else {
                            g(inner)
                        };
                        s.subrange(pos, e + 1) + body + close_tag(tag) + tag_pass(
                            s,
                            end + close_tag(tag).len(),
                            tag,
                            g,
                        )
                    },
                },
            },
        }
    }
}

/// `f` computes `g` on the characters of its argument.
pub open spec fn implements<F: Fn(&str) -> String>(f: F, g: spec_fn(Seq<char>) -> Seq<char>) -> bool {
    forall|a: &str, o: String| #[trigger] f.ensures((a,), o) ==> o@ == g(a@)
}

fn append(out: &mut Vec<char>, t: &[char])
    ensures
        final(out)@ == old(out)@ + t@,
{
    let mut k: usize = 0;
    while k < t.len()
        invariant
            k <= t@.len(),
            out@ == old(out)@ + t@.take(k as int),
        decreases t@.len() - k,
    {
        out.push(t[k]);
        assert(t@.take(k + 1) =~= t@.take(k as int).push(t@[k as int]));
        k += 1;
    }
    assert(t@.take(k as int) =~= t@);
}

/// The positions `(start, e, end)` of the next element at or after `pos`: the
/// opening `<tag`, the `>` that ends it, and the closing tag.
fn next_element(s: &[char], open: &[char], gt: &[char], close: &[char], pos: usize) -> (r: Option<
    (usize, usize, usize),
>)
    requires
        pos <= s@.len(),
        gt@ == seq!['>'],
    ensures
        match r {
            None => match find_from(s@, open@, pos as int) {
                None => true,
                Some(st) => match find_from(s@, gt@, st) {
                    None => true,
                    Some(e) => find_from(s@, close@, e + 1) is None,
                },
            },
            Some((st, e, end)) => {
                &&& find_from(s@, open@, pos as int) == Some(st as int)
                &&& find_from(s@, gt@, st as int) == Some(e as int)
                &&& find_from(s@, close@, e + 1) == Some(end as int)
                &&& pos <= st <= e < end
                &&& end + close@.len() <= s@.len()
            },
        },
{
    let n = s.len();
    match find_chars_from(s, open, pos) {
        None => None,
        Some(start) => {
            proof {
                lemma_find_from(s@, open@, pos as int);
            }
            match find_chars_from(s, gt, start) {
                None => None,
                Some(e) => {
                    proof {
                        lemma_find_from(s@, gt@, start as int);
                        assert(matches_at(s@, gt@, e as int));
                        assert(gt@.len() == 1);
                    }
                    match find_chars_from(s, close, e + 1) {
                        None => None,
                        Some(end) => {
                            proof {
                                lemma_find_from(s@, close@, e + 1);
                            }
                            Some((start, e, end))
                        },
                    }
                },
            }
        },
    }
}

/// Rewrites the contents of each `<tag ...>...</tag>` element of `html` with
/// `unminifier`, leaving everything else, and the contents of `pre` and
/// `code` elements, unchanged. For every `g` that `unminifier` computes, the
/// result is `tag_pass(html, 0, tag, g)`.
pub fn format_tag_contents<F>(html: &str, tag: &str, unminifier: F) -> (r: String)
    where
        F: Fn(&str) -> String,
    requires
        forall|a: &str| unminifier.requires((a,)),
    ensures
        forall|g: spec_fn(Seq<char>) -> Seq<char>|
            implements(unminifier, g) ==> r@ == #[trigger] tag_pass(html@, 0, tag@, g),
{
    let s = chars_of(html);
    let tg = chars_of(tag);
    let mut open: Vec<char> = Vec::new();
    open.push('<');
    append(&mut open, tg.as_slice());
    let mut close: Vec<char> = Vec::new();
    close.push('<');
    close.push('/');
    append(&mut close, tg.as_slice());
    close.push('>');
    let mut gt: Vec<char> = Vec::new();
    gt.push('>');
    assert(open@ =~= open_tag(tg@));
    assert(close@ =~= close_tag(tg@));
    assert(gt@ =~= seq!['>']);
    let verbatim = eq_ignore_case_lit(tg.as_slice(), "pre") || eq_ignore_case_lit(
        tg.as_slice(),
        "code",
    );
    proof {
        reveal_strlit("pre");
        reveal_strlit("code");
        assert("pre"@ =~= seq!['p', 'r', 'e']);
        assert("code"@ =~= seq!['c', 'o', 'd', 'e']);
    }
    let mut out: Vec<char> = Vec::new();
    let mut pos: usize = 0;
    loop
        invariant
            pos <= s@.len(),
            s@ == html@,
            tg@ == tag@,
            open@ == open_tag(tg@),
            close@ == close_tag(tg@),
            gt@ == seq!['>'],
            verbatim == verbatim_tag(tg@),
            forall|a: &str| unminifier.requires((a,)),
            forall|g: spec_fn(Seq<char>) -> Seq<char>|
                implements(unminifier, g) ==> #[trigger] tag_pass(s@, 0, tg@, g) == out@
                    + tag_pass(s@, pos as int, tg@, g),
        decreases s@.len() - pos,
    {
        let found = next_element(s.as_slice(), open.as_slice(), gt.as_slice(), close.as_slice(), pos);
        match found {
            None => {
                let rest = slice_of(s.as_slice(), pos, s.len());
                let ghost o = out@;
                append(&mut out, rest.as_slice());
                assert forall|g: spec_fn(Seq<char>) -> Seq<char>|
                    implements(unminifier, g) implies #[trigger] tag_pass(s@, 0, tg@, g) == out@ by {
                    assert(tag_pass(s@, pos as int, tg@, g) == s@.skip(pos as int));
                    assert(s@.skip(pos as int) =~= s@.subrange(pos as int, s@.len() as int));
                }
                let r = string_of(out.as_slice());
                return r;
            },
            Some((start, e, end)) => {
                let head = slice_of(s.as_slice(), pos, e + 1);
                let inner = slice_of(s.as_slice(), e + 1, end);
                let ghost o = out@;
                append(&mut out, head.as_slice());
                let ghost body_start = out@;
                if verbatim {
                    append(&mut out, inner.as_slice());
                } else {
                    let inner_s = string_of(inner.as_slice());
                    let arg = inner_s.as_str();
                    let res = unminifier(arg);
                    let rc = chars_of(res.as_str());
                    append(&mut out, rc.as_slice());
                    assert forall|g: spec_fn(Seq<char>) -> Seq<char>|
                        implements(unminifier, g) implies out@ == body_start + g(inner@) by {
                        assert(unminifier.ensures((arg,), res));
                    }
                }
                append(&mut out, close.as_slice());
                let n = s.len();
                assert(end + close@.len() <= n);
                let next = end + close.len();
                assert forall|g: spec_fn(Seq<char>) -> Seq<char>|
                    implements(unminifier, g) implies #[trigger] tag_pass(s@, 0, tg@, g) == out@
                        + tag_pass(s@, next as int, tg@, g) by {
                    let body = if verbatim_tag(tg@) {
                        inner@
                    } else {
                        g(inner@)
                    };
                    assert(tag_pass(s@, pos as int, tg@, g) == head@ + body + close@ + tag_pass(
                        s@,
                        next as int,
                        tg@,
                        g,
                    ));
                }
                pos = next;
            },
        }
    }
}

// ------------------------------------------------------------------
// Minifier
// ------------------------------------------------------------------

/// Scanner state of the HTML minifier (the tag being read is held apart).
#[derive(Clone, Copy, PartialEq, Eq, Structural)]
pub struct HtmlMin {
    pub in_tag: bool,
    pub in_string: bool,
    pub delim: char,
    pub verbatim: bool,
}

/// `<pre>` or `<code>`, in any case.
pub open spec fn opens_verbatim(t: Seq<char>) -> bool {
    eq_ignore_case(t, seq!['<', 'p', 'r', 'e', '>']) || eq_ignore_case(
        t,
        seq!['<', 'c', 'o', 'd', 'e', '>'],
    )
}

/// `</pre>` or `</code>`, in any case.
pub open spec fn closes_verbatim(t: Seq<char>) -> bool {
    eq_ignore_case(t, seq!['<', '/', 'p', 'r', 'e', '>']) || eq_ignore_case(
        t,
        seq!['<', '/', 'c', 'o', 'd', 'e', '>'],
    )
}

/// One step of the HTML minifier at position `i`: the next position, state,
/// tag buffer and output.
pub open spec fn html_min_step(
    s: Seq<char>,
    i: int,
    st: HtmlMin,
    buf: Seq<char>,
    out: Seq<char>,
) -> (int, HtmlMin, Seq<char>, Seq<char>) {
    let c = s[i];
    if st.in_string {
        let b = buf.push(c);
        if c == '\\' {
            if i + 1 < s.len() {
                (i + 2, st, b.push(s[i + 1]), out)
            } else {
                (i + 1, st, b, out)
            }
        } else if c == st.delim {
            (i + 1, HtmlMin { in_string: false, ..st }, b, out)
        } else {
            (i + 1, st, b, out)
        }
    } else if st.in_tag && (c == '"' || c == '\'') {
        (i + 1, HtmlMin { in_string: true, delim: c, ..st }, buf.push(c), out)
    } else if c == '<' {
        let o = if buf.len() > 0 {
            out + trim(buf)
        } else {
            out
        };
        (i + 1, HtmlMin { in_tag: true, ..st }, seq!['<'], o)
    } else if c == '>' && st.in_tag {
        let t = trim(buf.push('>'));
        let v = if closes_verbatim(t) {
            false
        } else if opens_verbatim(t) {
            true
        } else {
            st.verbatim
        };
        (i + 1, HtmlMin { in_tag: false, verbatim: v, ..st }, seq![], out + t)
    } else if st.in_tag {
        (i + 1, st, buf.push(c), out)
    } else if st.verbatim {
        (i + 1, st, buf, out.push(c))
    } else if !is_ws(c) || !ends_in(out, ' ') {
        (i + 1, st, buf, out.push(c))
    } else {
        (i + 1, st, buf, out)
    }
}

/// Runs the HTML minifier's scan from position `i` to the end of `s`.
pub open spec fn html_min_from(
    s: Seq<char>,
    i: int,
    st: HtmlMin,
    buf: Seq<char>,
    out: Seq<char>,
) -> Seq<char>
    decreases s.len() - i,
{
    if 0 <= i < s.len() {
        let (j, st2, b2, o2) = html_min_step(s, i, st, buf, out);
        if i < j {
            html_min_from(s, j, st2, b2, o2)
        } else {
            out
        }
    } else {
        out
    }
}

/// The initial state: in text, outside `<pre>` and `<code>`.
pub open spec fn html_min_start() -> HtmlMin {
    HtmlMin { in_tag: false, in_string: false, delim: '\0', verbatim: false }
}

/// What `minify_html` returns for `s`: the scan, then the contents of
/// `<style>` minified as CSS and of `<script>` as JavaScript, then trimmed.
pub open spec fn minified_html(s: Seq<char>) -> Seq<char> {
    let scanned = html_min_from(s, 0, html_min_start(), seq![], seq![]);
    let styled = tag_pass(scanned, 0, seq!['s', 't', 'y', 'l', 'e'], |x: Seq<char>| minified_css(x));
    trim(tag_pass(styled, 0, seq!['s', 'c', 'r', 'i', 'p', 't'], |x: Seq<char>| minified_js(x)))
}

fn opens_verbatim_exec(t: &[char]) -> (b: bool)
    ensures
        b == opens_verbatim(t@),
{
    let r = eq_ignore_case_lit(t, "<pre>") || eq_ignore_case_lit(t, "<code>");
    proof {
        reveal_strlit("<pre>");
        reveal_strlit("<code>");
        assert("<pre>"@ =~= seq!['<', 'p', 'r', 'e', '>']);
        assert("<code>"@ =~= seq!['<', 'c', 'o', 'd', 'e', '>']);
    }
    r
}

fn closes_verbatim_exec(t: &[char]) -> (b: bool)
    ensures
        b == closes_verbatim(t@),
{
    let r = eq_ignore_case_lit(t, "</pre>") || eq_ignore_case_lit(t, "</code>");
    proof {
        reveal_strlit("</pre>");
        reveal_strlit("</code>");
        assert("</pre>"@ =~= seq!['<', '/', 'p', 'r', 'e', '>']);
        assert("</code>"@ =~= seq!['<', '/', 'c', 'o', 'd', 'e', '>']);
    }
    r
}

fn html_min_step_exec(
    s: &[char],
    i: usize,
    st: HtmlMin,
    buf: &mut Vec<char>,
    out: &mut Vec<char>,
) -> (r: (usize, HtmlMin))
    requires
        i < s@.len(),
    ensures
        html_min_step(s@, i as int, st, old(buf)@, old(out)@) == (
            r.0 as int,
            r.1,
            final(buf)@,
            final(out)@,
        ),
        i < r.0 <= s@.len(),
{
    let c = s[i];
    if st.in_string {
        buf.push(c);
        if c == '\\' {
            if i + 1 < s.len() {
                buf.push(s[i + 1]);
                (i + 2, st)
            } else {
                (i + 1, st)
            }
        } else if c == st.delim {
            (i + 1, HtmlMin { in_string: false, ..st })
        } else {
            (i + 1, st)
        }
    } else if st.in_tag && (c == '"' || c == '\'') {
        buf.push(c);
        (i + 1, HtmlMin { in_string: true, delim: c, ..st })
    } else if c == '<' {
        if buf.len() > 0 {
            let t = trimmed(buf.as_slice());
            append(out, t.as_slice());
        }
        buf.clear();
        buf.push('<');
        assert(buf@ =~= seq!['<']);
        (i + 1, HtmlMin { in_tag: true, ..st })
    } else if c == '>' && st.in_tag {
        buf.push('>');
        let t = trimmed(buf.as_slice());
        let v = if closes_verbatim_exec(t.as_slice()) {
            false
        } else if opens_verbatim_exec(t.as_slice()) {
            true
        } else {
            st.verbatim
        };
        append(out, t.as_slice());
        buf.clear();
        assert(buf@ =~= seq![]);
        (i + 1, HtmlMin { in_tag: false, verbatim: v, ..st })
    } else if st.in_tag {
        buf.push(c);
        (i + 1, st)
    } else if st.verbatim {
        out.push(c);
        (i + 1, st)
    } else {
        if !is_whitespace(c) || !last_is(out, ' ') {
            out.push(c);
        }
        (i + 1, st)
    }
}

/// Minifies an HTML document: collapses runs of whitespace after a space in
/// text (text inside `<pre>` and `<code>` is kept), trims each tag, minifies
/// the contents of `<style>` and `<script>` elements, and trims the result.
pub fn minify_html(code: &str) -> (r: String)
    ensures
        r@ == minified_html(code@),
{
    let s = chars_of(code);
    let mut buf: Vec<char> = Vec::new();
    let mut out: Vec<char> = Vec::new();
    let mut st = HtmlMin { in_tag: false, in_string: false, delim: '\0', verbatim: false };
    let mut i: usize = 0;
    while i < s.len()
        invariant
            i <= s@.len(),
            html_min_from(s@, i as int, st, buf@, out@) == html_min_from(
                s@,
                0,
                html_min_start(),
                seq![],
                seq![],
            ),
        decreases s@.len() - i,
    {
        let ghost (gi, gst, gbuf, gout) = (i as int, st, buf@, out@);
        let (j, st2) = html_min_step_exec(s.as_slice(), i, st, &mut buf, &mut out);
        assert(html_min_from(s@, gi, gst, gbuf, gout) == html_min_from(
            s@,
            j as int,
            st2,
            buf@,
            out@,
        ));
        i = j;
        st = st2;
    }
    let scanned = string_of(out.as_slice());
    let styled = format_tag_contents(scanned.as_str(), "style", minify_css);
    let scripted = format_tag_contents(styled.as_str(), "script", minify_js);
    proof {
        reveal_strlit("style");
        reveal_strlit("script");
        let gc = |x: Seq<char>| minified_css(x);
        let gj = |x: Seq<char>| minified_js(x);
        assert(implements(minify_css, gc));
        assert(implements(minify_js, gj));
        assert("style"@ =~= seq!['s', 't', 'y', 'l', 'e']);
        assert("script"@ =~= seq!['s', 'c', 'r', 'i', 'p', 't']);
        assert(styled@ == tag_pass(scanned@, 0, "style"@, gc));
        assert(scripted@ == tag_pass(styled@, 0, "script"@, gj));
    }
    let sc = chars_of(scripted.as_str());
    let t = trimmed(sc.as_slice());
    string_of(t.as_slice())
}

// ------------------------------------------------------------------
// Formatter
// ------------------------------------------------------------------

/// Scanner state of the HTML formatter (the tag and the text being read are
/// held apart).
#[derive(Clone, Copy, PartialEq, Eq, Structural)]
pub struct HtmlFmt {
    pub in_tag: bool,
    pub in_string: bool,
    pub delim: char,
    pub verbatim: bool,
    pub level: usize,
}

/// Lower-cased tags that open no nesting level: those ending in `/>` and the
/// void elements `meta`, `link`, `br`, `hr`, `img`, `input`.
pub open spec fn self_closing(lower: Seq<char>) -> bool {
    ||| ends_with(lower, seq!['/', '>'])
    ||| starts_with(lower, seq!['<', 'm', 'e', 't', 'a'])
    ||| starts_with(lower, seq!['<', 'l', 'i', 'n', 'k'])
    ||| starts_with(lower, seq!['<', 'b', 'r'])
    ||| starts_with(lower, seq!['<', 'h', 'r'])
    ||| starts_with(lower, seq!['<', 'i', 'm', 'g'])
    ||| starts_with(lower, seq!['<', 'i', 'n', 'p', 'u', 't'])
}

/// Lower-cased tags printed without indentation: `<!doctype...` and `<!--...`.
pub open spec fn unindented(lower: Seq<char>) -> bool {
    starts_with(lower, seq!['<', '!', 'd', 'o', 'c', 't', 'y', 'p', 'e'])
        || starts_with(lower, seq!['<', '!', '-', '-'])
}

/// What the formatter emits for a complete tag `t` (already trimmed): the new
/// level, the new verbatim flag and the output.
pub open spec fn html_fmt_tag(t: Seq<char>, st: HtmlFmt, out: Seq<char>) -> (HtmlFmt, Seq<char>) {
    let lower = ascii_lower_all(t);
    if unindented(lower) {
        (st, out + seq!['\n'] + t)
    } else if starts_with(lower, seq!['<', '/']) {
        let level = if st.level > 0 {
            (st.level - 1) as usize
        } else {
            0
        };
        let v = if lower == seq!['<', '/', 'p', 'r', 'e', '>'] || lower == seq![
            '<',
            '/',
            'c',
            'o',
            'd',
            'e',
            '>',
        ] {
            false
        } else {
            st.verbatim
        };
        (HtmlFmt { level, verbatim: v, ..st }, out + seq!['\n'] + indent(level as nat) + t)
    } else {
        let v = if lower == seq!['<', 'p', 'r', 'e', '>'] || lower == seq![
            '<',
            'c',
            'o',
            'd',
            'e',
            '>',
        ] {
            true
        } else {
            st.verbatim
        };
        let level = if self_closing(lower) {
            st.level
        } else {
            (st.level + 1) as usize
        };
        (HtmlFmt { level, verbatim: v, ..st }, out + seq!['\n'] + indent(st.level as nat) + t)
    }
}

/// One step of the HTML formatter at position `i`: the next position, state,
/// tag buffer, text buffer and output.
pub open spec fn html_fmt_step(
    s: Seq<char>,
    i: int,
    st: HtmlFmt,
    buf: Seq<char>,
    text: Seq<char>,
    out: Seq<char>,
) -> (int, HtmlFmt, Seq<char>, Seq<char>, Seq<char>) {
    let c = s[i];
    if st.in_string {
        let b = buf.push(c);
        if c == '\\' {
            if i + 1 < s.len() {
                (i + 2, st, b.push(s[i + 1]), text, out)
            } else {
                (i + 1, st, b, text, out)
            }
        } else if c == st.delim {
            (i + 1, HtmlFmt { in_string: false, ..st }, b, text, out)
        } else {
            (i + 1, st, b, text, out)
        }
    } else if st.in_tag && (c == '"' || c == '\'') {
        (i + 1, HtmlFmt { in_string: true, delim: c, ..st }, buf.push(c), text, out)
    } else if c == '<' {
        let o = if trim(text).len() > 0 {
            out + seq!['\n'] + indent(st.level as nat) + trim(text)
        } else {
            out
        };
        (i + 1, HtmlFmt { in_tag: true, ..st }, buf.push('<'), seq![], o)
    } else if c == '>' && st.in_tag {
        let t = trim(buf.push('>'));
        let (st2, o) = html_fmt_tag(t, HtmlFmt { in_tag: false, ..st }, out);
        (i + 1, st2, seq![], text, o)
    } else if st.in_tag {
        (i + 1, st, buf.push(c), text, out)
    } else if st.verbatim {
        (i + 1, st, buf, text, out.push(c))
    } else {
        (i + 1, st, buf, text.push(c), out)
    }
}

/// Runs the HTML formatter's scan from position `i` to the end of `s`.
pub open spec fn html_fmt_from(
    s: Seq<char>,
    i: int,
    st: HtmlFmt,
    buf: Seq<char>,
    text: Seq<char>,
    out: Seq<char>,
) -> Seq<char>
    decreases s.len() - i,
{
    if 0 <= i < s.len() {
        let (j, st2, b2, t2, o2) = html_fmt_step(s, i, st, buf, text, out);
        if i < j {
            html_fmt_from(s, j, st2, b2, t2, o2)
        } else {
            out
        }
    } else {
        out
    }
}

/// The initial state: in text at level 0, outside `<pre>` and `<code>`.
pub open spec fn html_fmt_start() -> HtmlFmt {
    HtmlFmt { in_tag: false, in_string: false, delim: '\0', verbatim: false, level: 0 }
}

/// What `format_html` returns for `s`: the scan, then the contents of
/// `<style>` formatted as CSS and of `<script>` as JavaScript, then the
/// leading whitespace removed.
pub open spec fn formatted_html(s: Seq<char>) -> Seq<char> {
    let scanned = html_fmt_from(s, 0, html_fmt_start(), seq![], seq![], seq![]);
    let styled = tag_pass(scanned, 0, seq!['s', 't', 'y', 'l', 'e'], |x: Seq<char>| formatted_css(x));
    trim_start(tag_pass(styled, 0, seq!['s', 'c', 'r', 'i', 'p', 't'], |x: Seq<char>| formatted_js(x)))
}

fn html_fmt_tag_exec(t: &[char], st: HtmlFmt, out: &mut Vec<char>) -> (r: HtmlFmt)
    requires
        st.level < usize::MAX,
    ensures
        html_fmt_tag(t@, st, old(out)@) == (r, final(out)@),
        r.level <= st.level + 1,
{
    let lower = lower_ascii(t);
    let l = lower.as_slice();
    proof {
        reveal_strlit("<!doctype");
        reveal_strlit("<!--");
        reveal_strlit("</");
        reveal_strlit("</pre>");
        reveal_strlit("</code>");
        reveal_strlit("<pre>");
        reveal_strlit("<code>");
        reveal_strlit("/>");
        reveal_strlit("<meta");
        reveal_strlit("<link");
        reveal_strlit("<br");
        reveal_strlit("<hr");
        reveal_strlit("<img");
        reveal_strlit("<input");
        assert("<!doctype"@ =~= seq!['<', '!', 'd', 'o', 'c', 't', 'y', 'p', 'e']);
        assert("<!--"@ =~= seq!['<', '!', '-', '-']);
        assert("</"@ =~= seq!['<', '/']);
        assert("</pre>"@ =~= seq!['<', '/', 'p', 'r', 'e', '>']);
        assert("</code>"@ =~= seq!['<', '/', 'c', 'o', 'd', 'e', '>']);
        assert("<pre>"@ =~= seq!['<', 'p', 'r', 'e', '>']);
        assert("<code>"@ =~= seq!['<', 'c', 'o', 'd', 'e', '>']);
        assert("/>"@ =~= seq!['/', '>']);
        assert("<meta"@ =~= seq!['<', 'm', 'e', 't', 'a']);
        assert("<link"@ =~= seq!['<', 'l', 'i', 'n', 'k']);
        assert("<br"@ =~= seq!['<', 'b', 'r']);
        assert("<hr"@ =~= seq!['<', 'h', 'r']);
        assert("<img"@ =~= seq!['<', 'i', 'm', 'g']);
        assert("<input"@ =~= seq!['<', 'i', 'n', 'p', 'u', 't']);
    }
    if starts_with_lit(l, "<!doctype") || starts_with_lit(l, "<!--") {
        out.push('\n');
        append(out, t);
        st
    } else if starts_with_lit(l, "</") {
        let level = if st.level > 0 {
            st.level - 1
        } else {
            0
        };
        let v = if eq_lit(l, "</pre>") || eq_lit(l, "</code>") {
            false
        } else {
            st.verbatim
        };
        out.push('\n');
        push_indent(out, level);
        append(out, t);
        HtmlFmt { level, verbatim: v, ..st }
    } else {
        let v = if eq_lit(l, "<pre>") || eq_lit(l, "<code>") {
            true
        } else {
            st.verbatim
        };
        let closing = ends_with_lit(l, "/>") || starts_with_lit(l, "<meta") || starts_with_lit(l, "<link")
            || starts_with_lit(l, "<br") || starts_with_lit(l, "<hr") || starts_with_lit(l, "<img") || starts_with_lit(
            l,
            "<input",
        );
        out.push('\n');
        push_indent(out, st.level);
        append(out, t);
        let level = if closing {
            st.level
        } else {
            st.level + 1
        };
        HtmlFmt { level, verbatim: v, ..st }
    }
}

fn html_fmt_step_exec(
    s: &[char],
    i: usize,
    st: HtmlFmt,
    buf: &mut Vec<char>,
    text: &mut Vec<char>,
    out: &mut Vec<char>,
) -> (r: (usize, HtmlFmt))
    requires
        i < s@.len(),
        st.level <= i,
    ensures
        html_fmt_step(s@, i as int, st, old(buf)@, old(text)@, old(out)@) == (
            r.0 as int,
            r.1,
            final(buf)@,
            final(text)@,
            final(out)@,
        ),
        i < r.0 <= s@.len(),
        r.1.level <= r.0,
{
    let c = s[i];
    if st.in_string {
        buf.push(c);
        if c == '\\' {
            if i + 1 < s.len() {
                buf.push(s[i + 1]);
                (i + 2, st)
            } else {
                (i + 1, st)
            }
        } else if c == st.delim {
            (i + 1, HtmlFmt { in_string: false, ..st })
        } else {
            (i + 1, st)
        }
    } else if st.in_tag && (c == '"' || c == '\'') {
        buf.push(c);
        (i + 1, HtmlFmt { in_string: true, delim: c, ..st })
    } else if c == '<' {
        let tt = trimmed(text.as_slice());
        if tt.len() > 0 {
            out.push('\n');
            push_indent(out, st.level);
            append(out, tt.as_slice());
        }
        text.clear();
        assert(text@ =~= seq![]);
        buf.push('<');
        (i + 1, HtmlFmt { in_tag: true, ..st })
    } else if c == '>' && st.in_tag {
        buf.push('>');
        let t = trimmed(buf.as_slice());
        buf.clear();
        assert(buf@ =~= seq![]);
        let st2 = html_fmt_tag_exec(t.as_slice(), HtmlFmt { in_tag: false, ..st }, out);
        (i + 1, st2)
    } else if st.in_tag {
        buf.push(c);
        (i + 1, st)
    } else if st.verbatim {
        out.push(c);
        (i + 1, st)
    } else {
        text.push(c);
        (i + 1, st)
    }
}

/// Pretty-prints an HTML document: each tag and each non-blank run of text
/// on its own line, indented by four spaces per open element (text inside
/// `<pre>` and `<code>` is kept as it is), the contents of `<style>` and
/// `<script>` formatted as CSS and JavaScript, and leading whitespace removed.
pub fn format_html(code: &str) -> (r: String)
    ensures
        r@ == formatted_html(code@),
{
    let s = chars_of(code);
    let mut buf: Vec<char> = Vec::new();
    let mut text: Vec<char> = Vec::new();
    let mut out: Vec<char> = Vec::new();
    let mut st = HtmlFmt { in_tag: false, in_string: false, delim: '\0', verbatim: false, level: 0 };
    let mut i: usize = 0;
    while i < s.len()
        invariant
            i <= s@.len(),
            st.level <= i,
            html_fmt_from(s@, i as int, st, buf@, text@, out@) == html_fmt_from(
                s@,
                0,
                html_fmt_start(),
                seq![],
                seq![],
                seq![],
            ),
        decreases s@.len() - i,
    {
        let ghost (gi, gst, gbuf, gtext, gout) = (i as int, st, buf@, text@, out@);
        let (j, st2) = html_fmt_step_exec(s.as_slice(), i, st, &mut buf, &mut text, &mut out);
        assert(html_fmt_from(s@, gi, gst, gbuf, gtext, gout) == html_fmt_from(
            s@,
            j as int,
            st2,
            buf@,
            text@,
            out@,
        ));
        i = j;
        st = st2;
    }
    let scanned = string_of(out.as_slice());
    let styled = format_tag_contents(scanned.as_str(), "style", format_css);
    let scripted = format_tag_contents(styled.as_str(), "script", format_js);
    proof {
        reveal_strlit("style");
        reveal_strlit("script");
        let gc = |x: Seq<char>| formatted_css(x);
        let gj = |x: Seq<char>| formatted_js(x);
        assert(implements(format_css, gc));
        assert(implements(format_js, gj));
        assert("style"@ =~= seq!['s', 't', 'y', 'l', 'e']);
        assert("script"@ =~= seq!['s', 'c', 'r', 'i', 'p', 't']);
        assert(styled@ == tag_pass(scanned@, 0, "style"@, gc));
        assert(scripted@ == tag_pass(styled@, 0, "script"@, gj));
    }
    let sc = chars_of(scripted.as_str());
    let t = trimmed_start(sc.as_slice());
    string_of(t.as_slice())
}

} // verus!
