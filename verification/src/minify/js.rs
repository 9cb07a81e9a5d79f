//! JavaScript minifier and formatter.
use vstd::prelude::*;
use crate::text::{
    alnum_char, chars_of, is_alphanumeric, is_whitespace, is_ws, lines, lines_of, string_of, trim,
    trim_end, trimmed, trimmed_end, views,
};
use crate::minify::scan::{ends_in, indent, join_nl, last_is, next_is, peek_is, push_indent};

verus! {

// ------------------------------------------------------------------
// Minifier
// ------------------------------------------------------------------

/// Scanner state of the JavaScript minifier.
#[derive(Clone, Copy, PartialEq, Eq, Structural)]
pub struct JsMin {
    pub in_string: bool,
    pub delim: char,
    pub in_line_comment: bool,
    pub in_block_comment: bool,
    pub prev: Option<char>,
}

/// Characters of `{}[]();,:+-*/%=<>!&|^~?`, before which a space is dropped.
pub open spec fn js_punct(c: char) -> bool {
    ||| c == '{' || c == '}' || c == '[' || c == ']' || c == '(' || c == ')'
    ||| c == ';' || c == ',' || c == ':' || c == '+' || c == '-' || c == '*'
    ||| c == '/' || c == '%' || c == '=' || c == '<' || c == '>' || c == '!'
    ||| c == '&' || c == '|' || c == '^' || c == '~' || c == '?'
}

/// Characters that can continue an identifier or a number.
pub open spec fn word_char(c: char) -> bool {
    alnum_char(c) || c == '_'
}

/// One step of the JavaScript minifier at position `i`.
pub open spec fn js_min_step(s: Seq<char>, i: int, st: JsMin, out: Seq<char>) -> (
    int,
    JsMin,
    Seq<char>,
) {
    let c = s[i];
    if st.in_line_comment {
        if c == '\n' {
            (i + 1, JsMin { in_line_comment: false, ..st }, out)
        } else {
            (i + 1, st, out)
        }
    } else if st.in_block_comment {
        if c == '*' && next_is(s, i, '/') {
            (i + 2, JsMin { in_block_comment: false, ..st }, out)
        } else {
            (i + 1, st, out)
        }
    } else if st.in_string {
        let o = out.push(c);
        if c == '\\' {
            if i + 1 < s.len() {
                (i + 2, st, o.push(s[i + 1]))
            } else {
                (i + 1, st, o)
            }
        } else if c == st.delim {
            (i + 1, JsMin { in_string: false, prev: Some(c), ..st }, o)
        } else {
            (i + 1, JsMin { prev: Some(c), ..st }, o)
        }
    } else if c == '"' || c == '\'' || c == '`' {
        (i + 1, JsMin { in_string: true, delim: c, prev: Some(c), ..st }, out.push(c))
    } else if c == '/' && next_is(s, i, '/') {
        (i + 2, JsMin { in_line_comment: true, ..st }, out)
    } else if c == '/' && next_is(s, i, '*') {
        (i + 2, JsMin { in_block_comment: true, ..st }, out)
    } else if is_ws(c) {
        if i + 1 < s.len() && st.prev is Some && word_char(st.prev->0) && word_char(s[i + 1]) {
            (i + 1, JsMin { prev: Some(' '), ..st }, out.push(' '))
        } else {
            (i + 1, st, out)
        }
    } else {
        let o = if js_punct(c) && ends_in(out, ' ') {
            out.drop_last()
        } else {
            out
        };
        (i + 1, JsMin { prev: Some(c), ..st }, o.push(c))
    }
}

/// Runs the JavaScript minifier from position `i` to the end of `s`.
pub open spec fn js_min_from(s: Seq<char>, i: int, st: JsMin, out: Seq<char>) -> Seq<char>
    decreases s.len() - i,
{
    if 0 <= i < s.len() {
        let (j, st2, o2) = js_min_step(s, i, st, out);
        if i < j {
            js_min_from(s, j, st2, o2)
        } else {
            out
        }
    } else {
        out
    }
}

/// The initial state: outside strings and comments, nothing emitted yet.
pub open spec fn js_min_start() -> JsMin {
    JsMin {
        in_string: false,
        delim: '\0',
        in_line_comment: false,
        in_block_comment: false,
        prev: None,
    }
}

/// What `minify_js` returns for `s`.
pub open spec fn minified_js(s: Seq<char>) -> Seq<char> {
    trim(js_min_from(s, 0, js_min_start(), seq![]))
}

fn is_js_punct(c: char) -> (b: bool)
    ensures
        b == js_punct(c),
{
    c == '{' || c == '}' || c == '[' || c == ']' || c == '(' || c == ')' || c == ';' || c == ','
        || c == ':' || c == '+' || c == '-' || c == '*' || c == '/' || c == '%' || c == '='
        || c == '<' || c == '>' || c == '!' || c == '&' || c == '|' || c == '^' || c == '~'
        || c == '?'
}

fn is_word_char(c: char) -> (b: bool)
    ensures
        b == word_char(c),
{
    is_alphanumeric(c) || c == '_'
}

fn js_min_step_exec(s: &[char], i: usize, st: JsMin, out: &mut Vec<char>) -> (r: (usize, JsMin))
    requires
        i < s@.len(),
    ensures
        js_min_step(s@, i as int, st, old(out)@) == (r.0 as int, r.1, final(out)@),
        i < r.0 <= s@.len(),
{
    let c = s[i];
    if st.in_line_comment {
        if c == '\n' {
            (i + 1, JsMin { in_line_comment: false, ..st })
        } else {
            (i + 1, st)
        }
    } else if st.in_block_comment {
        if c == '*' && peek_is(s, i, '/') {
            (i + 2, JsMin { in_block_comment: false, ..st })
        } else {
            (i + 1, st)
        }
    } else if st.in_string {
        out.push(c);
        if c == '\\' {
            if i + 1 < s.len() {
                out.push(s[i + 1]);
                (i + 2, st)
            } else {
                (i + 1, st)
            }
        } else if c == st.delim {
            (i + 1, JsMin { in_string: false, prev: Some(c), ..st })
        } else {
            (i + 1, JsMin { prev: Some(c), ..st })
        }
    } else if c == '"' || c == '\'' || c == '`' {
        out.push(c);
        (i + 1, JsMin { in_string: true, delim: c, prev: Some(c), ..st })
    } else if c == '/' && peek_is(s, i, '/') {
        (i + 2, JsMin { in_line_comment: true, ..st })
    } else if c == '/' && peek_is(s, i, '*') {
        (i + 2, JsMin { in_block_comment: true, ..st })
    } else if is_whitespace(c) {
        let keep = match st.prev {
            Some(p) => i + 1 < s.len() && is_word_char(p) && is_word_char(s[i + 1]),
            None => false,
        };
        if keep {
            out.push(' ');
            (i + 1, JsMin { prev: Some(' '), ..st })
        } else {
            (i + 1, st)
        }
    } else {
        if is_js_punct(c) && last_is(out, ' ') {
            out.pop();
        }
        out.push(c);
        (i + 1, JsMin { prev: Some(c), ..st })
    }
}

/// Minifies JavaScript: drops `//` and `/* */` comments, drops whitespace
/// except a single space between two identifier or number characters,
/// removes a space before punctuation, and trims the result. String and
/// template literals are copied unchanged.
pub fn minify_js(code: &str) -> (r: String)
    ensures
        r@ == minified_js(code@),
{
    let s = chars_of(code);
    let mut out: Vec<char> = Vec::new();
    let mut st = JsMin {
        in_string: false,
        delim: '\0',
        in_line_comment: false,
        in_block_comment: false,
        prev: None,
    };
    let mut i: usize = 0;
    while i < s.len()
        invariant
            i <= s@.len(),
            js_min_from(s@, i as int, st, out@) == js_min_from(s@, 0, js_min_start(), seq![]),
        decreases s@.len() - i,
    {
        let ghost (gi, gst, gout) = (i as int, st, out@);
        let (j, st2) = js_min_step_exec(s.as_slice(), i, st, &mut out);
        assert(js_min_from(s@, gi, gst, gout) == js_min_from(s@, j as int, st2, out@));
        i = j;
        st = st2;
    }
    let t = trimmed(out.as_slice());
    string_of(t.as_slice())
}

// ------------------------------------------------------------------
// Formatter
// ------------------------------------------------------------------

/// Scanner state of the JavaScript formatter.
#[derive(Clone, Copy, PartialEq, Eq, Structural)]
pub struct JsFmt {
    pub level: usize,
    pub in_string: bool,
    pub delim: char,
    pub in_template: bool,
    pub in_comment: bool,
    pub depth: i64,
}

/// Inside a string or template literal: copies the character at `i`, and the
/// one after it when it is a backslash.
pub open spec fn js_quoted(s: Seq<char>, i: int, out: Seq<char>) -> (int, Seq<char>) {
    let o = out.push(s[i]);
    if s[i] == '\\' {
        if i + 1 < s.len() {
            (i + 2, o.push(s[i + 1]))
        } else {
            (i + 1, o)
        }
    } else {
        (i + 1, o)
    }
}

/// One step of the JavaScript formatter at position `i`.
pub open spec fn js_fmt_step(s: Seq<char>, i: int, st: JsFmt, out: Seq<char>) -> (
    int,
    JsFmt,
    Seq<char>,
) {
    let c = s[i];
    let lv = st.level as nat;
    if st.in_comment {
        if c == '\n' {
            (i + 1, JsFmt { in_comment: false, ..st }, out.push(c) + indent(lv))
        } else {
            (i + 1, st, out.push(c))
        }
    } else if c == '/' && next_is(s, i, '/') {
        (i + 2, JsFmt { in_comment: true, ..st }, out + seq!['/', '/'])
    } else if st.in_string {
        let (j, o) = js_quoted(s, i, out);
        if c != '\\' && c == st.delim {
            (j, JsFmt { in_string: false, ..st }, o)
        } else {
            (j, st, o)
        }
    } else if st.in_template {
        let (j, o) = js_quoted(s, i, out);
        if c == '`' {
            (j, JsFmt { in_template: false, ..st }, o)
        } else {
            (j, st, o)
        }
    } else if c == '"' || c == '\'' {
        (i + 1, JsFmt { in_string: true, delim: c, ..st }, out.push(c))
    } else if c == '`' {
        (i + 1, JsFmt { in_template: true, ..st }, out.push(c))
    } else if c == '=' {
        if next_is(s, i, '>') {
            (i + 2, st, out + seq!['=', '>'])
        } else if next_is(s, i, '=') {
            if next_is(s, i + 1, '=') {
                (i + 3, st, out + seq!['=', '=', '='])
            } else {
                (i + 2, st, out + seq!['=', '='])
            }
        } else {
            (i + 1, st, out + seq![' ', '=', ' '])
        }
    } else if c == '!' {
        if next_is(s, i, '=') {
            if next_is(s, i + 1, '=') {
                (i + 3, st, out + seq!['!', '=', '='])
            } else {
                (i + 2, st, out + seq!['!', '='])
            }
        } else {
            (i + 1, st, out.push('!'))
        }
    } else if c == '{' {
        let level = (st.level + 1) as usize;
        (i + 1, JsFmt { level, ..st }, out + seq![' ', '{', '\n'] + indent(level as nat))
    } else if c == '}' {
        let level = if st.level > 0 {
            (st.level - 1) as usize
        } else {
            0
        };
        let o = out + seq!['\n'] + indent(level as nat) + seq!['}'];
        if next_is(s, i, ';') {
            (i + 1, JsFmt { level, ..st }, o)
        } else {
            (i + 1, JsFmt { level, ..st }, o + seq!['\n'] + indent(level as nat))
        }
    } else if c == '(' {
        let depth = if st.depth < i64::MAX {
            (st.depth + 1) as i64
        } else {
            st.depth
        };
        (i + 1, JsFmt { depth, ..st }, out.push('('))
    } else if c == ')' {
        let depth = if st.depth > i64::MIN {
            (st.depth - 1) as i64
        } else {
            st.depth
        };
        (i + 1, JsFmt { depth, ..st }, out.push(')'))
    } else if c == ';' {
        if st.depth == 0 {
            (i + 1, st, out + seq![';', '\n'] + indent(lv))
        } else {
            (i + 1, st, out + seq![';', ' '])
        }
    } else if c == ',' {
        (i + 1, st, out + seq![',', ' '])
    } else if is_ws(c) {
        if !ends_in(out, ' ') && !ends_in(out, '\n') {
            (i + 1, st, out.push(' '))
        } else {
            (i + 1, st, out)
        }
    } else {
        (i + 1, st, out.push(c))
    }
}

/// Runs the JavaScript formatter from position `i` to the end of `s`.
pub open spec fn js_fmt_from(s: Seq<char>, i: int, st: JsFmt, out: Seq<char>) -> Seq<char>
    decreases s.len() - i,
{
    if 0 <= i < s.len() {
        let (j, st2, o2) = js_fmt_step(s, i, st, out);
        if i < j {
            js_fmt_from(s, j, st2, o2)
        } else {
            out
        }
    } else {
        out
    }
}

/// The initial state: top level, outside literals and comments.
pub open spec fn js_fmt_start() -> JsFmt {
    JsFmt {
        level: 0,
        in_string: false,
        delim: '\0',
        in_template: false,
        in_comment: false,
        depth: 0,
    }
}

/// Each line with its trailing whitespace removed, joined with `'\n'`.
pub open spec fn tidy_lines(t: Seq<char>) -> Seq<char> {
    join_nl(lines(t).map_values(|l: Seq<char>| trim_end(l)))
}

/// What `format_js` returns for `s`.
pub open spec fn formatted_js(s: Seq<char>) -> Seq<char> {
    tidy_lines(js_fmt_from(s, 0, js_fmt_start(), seq![]))
}

fn js_quoted_exec(s: &[char], i: usize, out: &mut Vec<char>) -> (j: usize)
    requires
        i < s@.len(),
    ensures
        js_quoted(s@, i as int, old(out)@) == (j as int, final(out)@),
        i < j <= s@.len(),
{
    out.push(s[i]);
    if s[i] == '\\' && i + 1 < s.len() {
        out.push(s[i + 1]);
        i + 2
    } else {
        i + 1
    }
}

fn js_fmt_step_exec(s: &[char], i: usize, st: JsFmt, out: &mut Vec<char>) -> (r: (usize, JsFmt))
    requires
        i < s@.len(),
        st.level <= i,
    ensures
        js_fmt_step(s@, i as int, st, old(out)@) == (r.0 as int, r.1, final(out)@),
        i < r.0 <= s@.len(),
        r.1.level <= r.0,
{
    let c = s[i];
    if st.in_comment {
        out.push(c);
        if c == '\n' {
            push_indent(out, st.level);
            (i + 1, JsFmt { in_comment: false, ..st })
        } else {
            (i + 1, st)
        }
    } else if c == '/' && peek_is(s, i, '/') {
        out.push('/');
        out.push('/');
        (i + 2, JsFmt { in_comment: true, ..st })
    } else if st.in_string {
        let j = js_quoted_exec(s, i, out);
        if c != '\\' && c == st.delim {
            (j, JsFmt { in_string: false, ..st })
        } else {
            (j, st)
        }
    } else if st.in_template {
        let j = js_quoted_exec(s, i, out);
        if c == '`' {
            (j, JsFmt { in_template: false, ..st })
        } else {
            (j, st)
        }
    } else if c == '"' || c == '\'' {
        out.push(c);
        (i + 1, JsFmt { in_string: true, delim: c, ..st })
    } else if c == '`' {
        out.push(c);
        (i + 1, JsFmt { in_template: true, ..st })
    } else if c == '=' {
        if peek_is(s, i, '>') {
            out.push('=');
            out.push('>');
            (i + 2, st)
        } else if peek_is(s, i, '=') {
            out.push('=');
            out.push('=');
            if peek_is(s, i + 1, '=') {
                out.push('=');
                (i + 3, st)
            } else {
                (i + 2, st)
            }
        } else {
            out.push(' ');
            out.push('=');
            out.push(' ');
            (i + 1, st)
        }
    } else if c == '!' {
        out.push('!');
        if peek_is(s, i, '=') {
            out.push('=');
            if peek_is(s, i + 1, '=') {
                out.push('=');
                (i + 3, st)
            } else {
                (i + 2, st)
            }
        } else {
            (i + 1, st)
        }
    } else if c == '{' {
        let level = st.level + 1;
        out.push(' ');
        out.push('{');
        out.push('\n');
        push_indent(out, level);
        (i + 1, JsFmt { level, ..st })
    } else if c == '}' {
        let level = if st.level > 0 {
            st.level - 1
        } else {
            0
        };
        out.push('\n');
        push_indent(out, level);
        out.push('}');
        if !peek_is(s, i, ';') {
            out.push('\n');
            push_indent(out, level);
        }
        (i + 1, JsFmt { level, ..st })
    } else if c == '(' {
        out.push('(');
        let depth = if st.depth < i64::MAX {
            st.depth + 1
        } else {
            st.depth
        };
        (i + 1, JsFmt { depth, ..st })
    } else if c == ')' {
        out.push(')');
        let depth = if st.depth > i64::MIN {
            st.depth - 1
        } else {
            st.depth
        };
        (i + 1, JsFmt { depth, ..st })
    } else if c == ';' {
        out.push(';');
        if st.depth == 0 {
            out.push('\n');
            push_indent(out, st.level);
        } else {
            out.push(' ');
        }
        (i + 1, st)
    } else if c == ',' {
        out.push(',');
        out.push(' ');
        (i + 1, st)
    } else if is_whitespace(c) {
        if !last_is(out, ' ') && !last_is(out, '\n') {
            out.push(' ');
        }
        (i + 1, st)
    } else {
        out.push(c);
        (i + 1, st)
    }
}

fn tidy_lines_exec(t: &[char]) -> (r: Vec<char>)
    ensures
        r@ == tidy_lines(t@),
{
    let ls = lines_of(t);
    let ghost lv = views(ls@);
    let ghost tl = lv.map_values(|l: Seq<char>| trim_end(l));
    let mut r: Vec<char> = Vec::new();
    let mut k: usize = 0;
    while k < ls.len()
        invariant
            k <= ls@.len(),
            lv == views(ls@),
            lv == lines(t@),
            tl == lv.map_values(|l: Seq<char>| trim_end(l)),
            r@ == join_nl(tl.take(k as int)),
        decreases ls@.len() - k,
    {
        let ghost before = r@;
        if k > 0 {
            r.push('\n');
        }
        let line = trimmed_end(ls[k].as_slice());
        let mut m: usize = 0;
        let ghost mid = r@;
        while m < line.len()
            invariant
                m <= line@.len(),
                r@ == mid + line@.take(m as int),
            decreases line@.len() - m,
        {
            r.push(line[m]);
            assert(line@.take(m + 1) =~= line@.take(m as int).push(line@[m as int]));
            m += 1;
        }
        assert(line@.take(m as int) =~= line@);
        assert(line@ == tl[k as int]);
        assert(tl.take(k + 1).drop_last() =~= tl.take(k as int));
        if k == 0 {
            assert(r@ =~= join_nl(tl.take(1)));
        }
        k += 1;
    }
    assert(tl.take(k as int) =~= tl);
    r
}

/// Pretty-prints JavaScript: a line break and four spaces of indentation per
/// level after `{`, `}` and top-level `;`, spaces around `=` and after `,`,
/// `==`, `===`, `!=`, `!==` and `=>` kept together, and trailing whitespace
/// removed from every line. Strings, template literals and `//` comments are
/// copied unchanged.
pub fn format_js(code: &str) -> (r: String)
    ensures
        r@ == formatted_js(code@),
{
    let s = chars_of(code);
    let mut out: Vec<char> = Vec::new();
    let mut st = JsFmt {
        level: 0,
        in_string: false,
        delim: '\0',
        in_template: false,
        in_comment: false,
        depth: 0,
    };
    let mut i: usize = 0;
    while i < s.len()
        invariant
            i <= s@.len(),
            st.level <= i,
                js_fmt_from(s@, i as int, st, out@) == js_fmt_from(s@, 0, js_fmt_start(), seq![]),
        decreases s@.len() - i,
    {
        let ghost (gi, gst, gout) = (i as int, st, out@);
        let (j, st2) = js_fmt_step_exec(s.as_slice(), i, st, &mut out);
        assert(js_fmt_from(s@, gi, gst, gout) == js_fmt_from(s@, j as int, st2, out@));
        i = j;
        st = st2;
    }
    let t = tidy_lines_exec(out.as_slice());
    string_of(t.as_slice())
}

} // verus!
