//! CSS minifier and formatter.
use vstd::prelude::*;
use crate::text::{chars_of, is_whitespace, is_ws, string_of, trim, trimmed};
use crate::minify::scan::{
    ends_in, indent, last_is, next_is, peek_is, pop_spaces, push_indent, push_lit, strip_spaces,
};

verus! {

// ------------------------------------------------------------------
// Minifier
// ------------------------------------------------------------------

/// Scanner state of the CSS minifier.
#[derive(Clone, Copy, PartialEq, Eq, Structural)]
pub struct CssMin {
    pub in_string: bool,
    pub delim: char,
    pub in_comment: bool,
}

/// Characters before which spaces are dropped: `{ } : ; ,`.
pub open spec fn css_punct(c: char) -> bool {
    c == '{' || c == '}' || c == ':' || c == ';' || c == ','
}

/// Characters after which whitespace is dropped: `{ } : ; ,` and a space.
pub open spec fn css_tight(c: char) -> bool {
    css_punct(c) || c == ' '
}

/// One step of the CSS minifier at position `i`: the next position, the next
/// state and the output so far.
pub open spec fn css_min_step(s: Seq<char>, i: int, st: CssMin, out: Seq<char>) -> (
    int,
    CssMin,
    Seq<char>,
) {
    let c = s[i];
    if st.in_comment {
        if c == '*' && next_is(s, i, '/') {
            (i + 2, CssMin { in_string: st.in_string, delim: st.delim, in_comment: false }, out)
        } else {
            (i + 1, st, out)
        }
    } else if !st.in_string && c == '/' && next_is(s, i, '*') {
        (i + 2, CssMin { in_string: st.in_string, delim: st.delim, in_comment: true }, out)
    } else if st.in_string {
        let o = out.push(c);
        if c == '\\' {
            if i + 1 < s.len() {
                (i + 2, st, o.push(s[i + 1]))
            } else {
                (i + 1, st, o)
            }
        } else if c == st.delim {
            (i + 1, CssMin { in_string: false, delim: st.delim, in_comment: st.in_comment }, o)
        } else {
            (i + 1, st, o)
        }
    } else if c == '"' || c == '\'' {
        (i + 1, CssMin { in_string: true, delim: c, in_comment: st.in_comment }, out.push(c))
    } else if css_punct(c) {
        let o = strip_spaces(out);
        let o2 = if c == '}' && ends_in(o, ';') {
            o.drop_last()
        } else {
            o
        };
        (i + 1, st, o2.push(c))
    } else if is_ws(c) {
        if out.len() > 0 && css_tight(out.last()) {
            (i + 1, st, out)
        } else {
            (i + 1, st, out.push(' '))
        }
    } else {
        (i + 1, st, out.push(c))
    }
}

/// Runs the CSS minifier from position `i` to the end of `s`.
pub open spec fn css_min_from(s: Seq<char>, i: int, st: CssMin, out: Seq<char>) -> Seq<char>
    decreases s.len() - i,
{
    if 0 <= i < s.len() {
        let (j, st2, o2) = css_min_step(s, i, st, out);
        if i < j {
            css_min_from(s, j, st2, o2)
        } else {
            out
        }
    } else {
        out
    }
}

/// The initial state: outside strings and comments.
pub open spec fn css_min_start() -> CssMin {
    CssMin { in_string: false, delim: '\0', in_comment: false }
}

/// What `minify_css` returns for `s`.
pub open spec fn minified_css(s: Seq<char>) -> Seq<char> {
    trim(css_min_from(s, 0, css_min_start(), seq![]))
}

fn css_min_step_exec(s: &[char], i: usize, st: CssMin, out: &mut Vec<char>) -> (r: (usize, CssMin))
    requires
        i < s@.len(),
    ensures
        css_min_step(s@, i as int, st, old(out)@) == (r.0 as int, r.1, final(out)@),
        i < r.0 <= s@.len(),
{
    let c = s[i];
    if st.in_comment {
        if c == '*' && peek_is(s, i, '/') {
            (i + 2, CssMin { in_string: st.in_string, delim: st.delim, in_comment: false })
        } else {
            (i + 1, st)
        }
    } else if !st.in_string && c == '/' && peek_is(s, i, '*') {
        (i + 2, CssMin { in_string: st.in_string, delim: st.delim, in_comment: true })
    } else if st.in_string {
        out.push(c);
        if c == '\\' {
            if i + 1 < s.len() {
                out.push(s[i + 1]);
                (i + 2, st)
            } else {
                (i + 1, st)
            }
        } else if c == st.delim {
            (i + 1, CssMin { in_string: false, delim: st.delim, in_comment: st.in_comment })
        } else {
            (i + 1, st)
        }
    } else if c == '"' || c == '\'' {
        out.push(c);
        (i + 1, CssMin { in_string: true, delim: c, in_comment: st.in_comment })
    } else if c == '{' || c == '}' || c == ':' || c == ';' || c == ',' {
        pop_spaces(out);
        if c == '}' && last_is(out, ';') {
            out.pop();
        }
        out.push(c);
        (i + 1, st)
    } else if is_whitespace(c) {
        if out.len() > 0 {
            let l = out[out.len() - 1];
            if !(l == '{' || l == '}' || l == ':' || l == ';' || l == ',' || l == ' ') {
                out.push(' ');
            }
        } else {
            out.push(' ');
        }
        (i + 1, st)
    } else {
        out.push(c);
        (i + 1, st)
    }
}

/// Minifies a CSS stylesheet: drops comments, collapses whitespace, removes
/// spaces around `{ } : ; ,` and the `;` before `}`, and trims the result.
/// Quoted strings are copied unchanged.
pub fn minify_css(code: &str) -> (r: String)
    ensures
        r@ == minified_css(code@),
{
    let s = chars_of(code);
    let mut out: Vec<char> = Vec::new();
    let mut st = CssMin { in_string: false, delim: '\0', in_comment: false };
    let mut i: usize = 0;
    while i < s.len()
        invariant
            i <= s@.len(),
            css_min_from(s@, i as int, st, out@) == css_min_from(s@, 0, css_min_start(), seq![]),
        decreases s@.len() - i,
    {
        let ghost (gi, gst, gout) = (i as int, st, out@);
        let (j, st2) = css_min_step_exec(s.as_slice(), i, st, &mut out);
        assert(css_min_from(s@, gi, gst, gout) == css_min_from(s@, j as int, st2, out@));
        i = j;
        st = st2;
    }
    let t = trimmed(out.as_slice());
    string_of(t.as_slice())
}

// ------------------------------------------------------------------
// Formatter
// ------------------------------------------------------------------

/// Scanner state of the CSS formatter.
#[derive(Clone, Copy, PartialEq, Eq, Structural)]
pub struct CssFmt {
    pub in_string: bool,
    pub delim: char,
    pub in_selector: bool,
    pub level: usize,
}

/// One step of the CSS formatter at position `i`.
pub open spec fn css_fmt_step(s: Seq<char>, i: int, st: CssFmt, out: Seq<char>) -> (
    int,
    CssFmt,
    Seq<char>,
) {
    let c = s[i];
    if st.in_string {
        let o = out.push(c);
        if c == '\\' {
            if i + 1 < s.len() {
                (i + 2, st, o.push(s[i + 1]))
            } else {
                (i + 1, st, o)
            }
        } else if c == st.delim {
            (i + 1, CssFmt { in_string: false, ..st }, o)
        } else {
            (i + 1, st, o)
        }
    } else if c == '"' || c == '\'' {
        (i + 1, CssFmt { in_string: true, delim: c, ..st }, out.push(c))
    } else if c == '{' {
        let o = if ends_in(out, ' ') {
            out
        } else {
            out.push(' ')
        };
        let level = (st.level + 1) as usize;
        (
            i + 1,
            CssFmt { in_selector: false, level, ..st },
            o + seq!['{', '\n'] + indent(level as nat),
        )
    } else if c == '}' {
        let level = if st.level > 0 {
            (st.level - 1) as usize
        } else {
            0
        };
        (
            i + 1,
            CssFmt { in_selector: true, level, ..st },
            out + seq!['\n'] + indent(level as nat) + seq!['}', '\n'] + indent(level as nat),
        )
    } else if c == ';' {
        (i + 1, st, out + seq![';', '\n'] + indent(st.level as nat))
    } else if c == ',' {
        (i + 1, st, out + seq![',', ' '])
    } else if c == ':' {
        if st.in_selector {
            (i + 1, st, out.push(':'))
        } else {
            (i + 1, st, out + seq![':', ' '])
        }
    } else if is_ws(c) {
        if st.in_selector && !ends_in(out, ' ') {
            (i + 1, st, out.push(' '))
        } else {
            (i + 1, st, out)
        }
    } else {
        (i + 1, st, out.push(c))
    }
}

/// Runs the CSS formatter from position `i` to the end of `s`.
pub open spec fn css_fmt_from(s: Seq<char>, i: int, st: CssFmt, out: Seq<char>) -> Seq<char>
    decreases s.len() - i,
{
    if 0 <= i < s.len() {
        let (j, st2, o2) = css_fmt_step(s, i, st, out);
        if i < j {
            css_fmt_from(s, j, st2, o2)
        } else {
            out
        }
    } else {
        out
    }
}

/// The initial state: in a selector, at nesting level 0.
pub open spec fn css_fmt_start() -> CssFmt {
    CssFmt { in_string: false, delim: '\0', in_selector: true, level: 0 }
}

/// What `format_css` returns for `s`.
pub open spec fn formatted_css(s: Seq<char>) -> Seq<char> {
    trim(css_fmt_from(s, 0, css_fmt_start(), seq![]))
}

fn css_fmt_step_exec(s: &[char], i: usize, st: CssFmt, out: &mut Vec<char>) -> (r: (usize, CssFmt))
    requires
        i < s@.len(),
        st.level <= i,
    ensures
        css_fmt_step(s@, i as int, st, old(out)@) == (r.0 as int, r.1, final(out)@),
        i < r.0 <= s@.len(),
        r.1.level <= r.0,
{
    let c = s[i];
    if st.in_string {
        out.push(c);
        if c == '\\' {
            if i + 1 < s.len() {
                out.push(s[i + 1]);
                (i + 2, st)
            } else {
                (i + 1, st)
            }
        } else if c == st.delim {
            (i + 1, CssFmt { in_string: false, ..st })
        } else {
            (i + 1, st)
        }
    } else if c == '"' || c == '\'' {
        out.push(c);
        (i + 1, CssFmt { in_string: true, delim: c, ..st })
    } else if c == '{' {
        if !last_is(out, ' ') {
            out.push(' ');
        }
        push_lit(out, "{\n");
        let level = st.level + 1;
        push_indent(out, level);
        proof {
            reveal_strlit("{\n");
        }
        (i + 1, CssFmt { in_selector: false, level, ..st })
    } else if c == '}' {
        let level = if st.level > 0 {
            st.level - 1
        } else {
            0
        };
        out.push('\n');
        push_indent(out, level);
        out.push('}');
        out.push('\n');
        push_indent(out, level);
        (i + 1, CssFmt { in_selector: true, level, ..st })
    } else if c == ';' {
        out.push(';');
        out.push('\n');
        push_indent(out, st.level);
        (i + 1, st)
    } else if c == ',' {
        out.push(',');
        out.push(' ');
        (i + 1, st)
    } else if c == ':' {
        out.push(':');
        if !st.in_selector {
            out.push(' ');
        }
        (i + 1, st)
    } else if is_whitespace(c) {
        if st.in_selector && !last_is(out, ' ') {
            out.push(' ');
        }
        (i + 1, st)
    } else {
        out.push(c);
        (i + 1, st)
    }
}

/// Pretty-prints a CSS stylesheet: one declaration per line, four spaces of
/// indentation per nesting level, `": "` after property names, `", "` between
/// selectors, and the result trimmed. Quoted strings are copied unchanged.
pub fn format_css(code: &str) -> (r: String)
    ensures
        r@ == formatted_css(code@),
{
    let s = chars_of(code);
    let mut out: Vec<char> = Vec::new();
    let mut st = CssFmt { in_string: false, delim: '\0', in_selector: true, level: 0 };
    let mut i: usize = 0;
    while i < s.len()
        invariant
            i <= s@.len(),
            st.level <= i,
            css_fmt_from(s@, i as int, st, out@) == css_fmt_from(s@, 0, css_fmt_start(), seq![]),
        decreases s@.len() - i,
    {
        let ghost (gi, gst, gout) = (i as int, st, out@);
        let (j, st2) = css_fmt_step_exec(s.as_slice(), i, st, &mut out);
        assert(css_fmt_from(s@, gi, gst, gout) == css_fmt_from(s@, j as int, st2, out@));
        i = j;
        st = st2;
    }
    let t = trimmed(out.as_slice());
    string_of(t.as_slice())
}

} // verus!
