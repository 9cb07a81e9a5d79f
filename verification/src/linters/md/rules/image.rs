//! Markdown rules on images: `![alt](url "title")`.
use vstd::prelude::*;
use crate::lint::config::{LintConfig, enabled};
use crate::lint::error::{ErrorView, LintError, Severity, opt_str_view, opt_view};
use crate::lint::registry::LintRule;
use crate::lint::report::{LintReport, error_views};
use crate::lint::rule::{Rule, kept, lemma_kept_push, reports_some};
use crate::lint::support::{Tmpl, at, col_errors, tmpl, finding, make_error, report_cols, lemma_lines_bounds, lemma_line_fits};
use crate::text::{
    chars_of, contains, decimal, decimal_chars, ends_with, find, find_chars, find_chars_from,
    find_from, fits, lemma_find, lemma_find_from, lemma_utf8_len_take, lines, lines_of_str, owned,
    prefix_bytes, slice_of, starts_with, string_of, trim, trimmed, utf8_len, views,
    contains_char, starts_with_lit, ends_with_lit,
};

verus! {

// ------------------------------------------------------------------
// Locating the parts of an image
// ------------------------------------------------------------------

/// `](` at `start` and the first `)` after it at `end`: the link part.
pub open spec fn link_span(l: Seq<char>) -> Option<(int, int)> {
    match find(l, seq![']', '(']) {
        Some(start) => match find_from(l, seq![')'], start + 2) {
            Some(end) => Some((start, end)),
            None => None,
        },
        None => None,
    }
}

/// `![` at `start` and the first `]` after it at `end`: the alt part.
pub open spec fn alt_span(l: Seq<char>) -> Option<(int, int)> {
    match find(l, seq!['!', '[']) {
        Some(start) => match find_from(l, seq![']'], start) {
            Some(end) => Some((start, end)),
            None => None,
        },
        None => None,
    }
}

/// The 1-based byte column of character `k` of `l`.
pub open spec fn byte_col(l: Seq<char>, k: int) -> int {
    utf8_len(l.take(k)) + 1int
}

/// A one-character pattern.
fn pat1(c: char) -> (v: Vec<char>)
    ensures
        v@ == seq![c],
{
    let mut v: Vec<char> = Vec::new();
    v.push(c);
    v
}

/// A two-character pattern.
fn pat2(a: char, b: char) -> (v: Vec<char>)
    ensures
        v@ == seq![a, b],
{
    let mut v: Vec<char> = Vec::new();
    v.push(a);
    v.push(b);
    v
}

fn link_span_exec(l: &[char]) -> (r: Option<(usize, usize)>)
    ensures
        match r {
            Some((a, b)) => link_span(l@) == Some((a as int, b as int)) && a + 2 <= b < l@.len(),
            None => link_span(l@) is None,
        },
{
    let n = l.len();
    let p = pat2(']', '(');
    match find_chars(l, p.as_slice()) {
        None => None,
        Some(start) => {
            proof {
                lemma_find(l@, seq![']', '(']);
            }
            let q = pat1(')');
            match find_chars_from(l, q.as_slice(), start + 2) {
                None => None,
                Some(end) => {
                    proof {
                        lemma_find_from(l@, seq![')'], start + 2);
                    }
                    Some((start, end))
                },
            }
        },
    }
}

fn alt_span_exec(l: &[char]) -> (r: Option<(usize, usize)>)
    ensures
        match r {
            Some((a, b)) => alt_span(l@) == Some((a as int, b as int)) && a + 2 <= b < l@.len(),
            None => alt_span(l@) is None,
        },
{
    let p = pat2('!', '[');
    match find_chars(l, p.as_slice()) {
        None => None,
        Some(start) => {
            proof {
                lemma_find(l@, seq!['!', '[']);
            }
            let q = pat1(']');
            match find_chars_from(l, q.as_slice(), start) {
                None => None,
                Some(end) => {
                    proof {
                        lemma_find_from(l@, seq![']'], start as int);
                        assert(l@.subrange(start as int, start + 2)[1] == '[');
                        if end < start + 2 {
                            assert(l@.subrange(end as int, end + 1)[0] == ']');
                            assert(l@.subrange(start as int, start + 2)[end - start] == l@[end as int]);
                        }
                    }
                    Some((start, end))
                },
            }
        },
    }
}

/// The byte column of character `k` of a line that fits.
fn contains_char2(l: &[char], a: char, b: char) -> (r: bool)
    ensures
        r == contains(l@, seq![a, b]),
{
    let p = pat2(a, b);
    find_chars(l, p.as_slice()).is_some()
}

fn byte_col_exec(l: &[char], k: usize) -> (c: usize)
    requires
        k <= l@.len(),
        fits(l@),
    ensures
        c == byte_col(l@, k as int),
{
    proof {
        lemma_utf8_len_take(l@, k as int);
    }
    prefix_bytes(l, k) + 1
}

/// The column of the MD005 finding on line `l`, if any: column 1 when the line has `![` but no `)`.
pub open spec fn md005_col(l: Seq<char>) -> Option<usize> {
    if contains(l, seq!['!', '[']) && !contains(l, seq![')']) {
        Some(1usize)
    } else {
        None
    }
}

fn md005_test(l: &[char]) -> (c: Option<usize>)
    requires
        fits(l@),
    ensures
        c == md005_col(l@),
{
    if contains_char2(l, '!', '[') && !contains_char(l, ')') {
        Some(1)
    } else {
        None
    }
}

/// MD005: Malformed image syntax.
#[derive(Clone, Copy, Debug)]
pub struct IncorrectImageSyntax;

impl Rule for IncorrectImageSyntax {
    open spec fn spec_id(&self) -> Seq<char> {
        "MD005"@
    }

    open spec fn spec_severity(&self) -> Severity {
        Severity::Error
    }

    open spec fn is_pure(&self) -> bool {
        true
    }

    open spec fn accepts(&self, source: Seq<char>, disabled: Seq<Seq<char>>) -> bool {
        true
    }

    open spec fn findings(&self, file: Option<Seq<char>>, source: Seq<char>, disabled: Seq<Seq<char>>) -> Seq<ErrorView> {
        if enabled(disabled, "MD005"@) {
            col_errors(
                lines(source).map_values(|l: Seq<char>| md005_col(l)),
                tmpl(file, Severity::Error, "MD005"@, "Malformed image syntax"@, "Use ![alt text](url)"@),
            )
        } else {
            seq![]
        }
    }

    fn id(&self) -> (r: &'static str) {
        "MD005"
    }

    fn severity(&self) -> (s: Severity) {
        Severity::Error
    }

    fn admits(&self, source: &str, config: &LintConfig) -> (b: bool) {
        true
    }

    fn check(&self, file: Option<&str>, source: &str, report: &mut LintReport, config: &LintConfig) {
        if !config.is_enabled(self.id()) {
            return;
        }
        let ls = lines_of_str(source);
        proof {
            lemma_lines_bounds(source@);
        }
        let mut cols: Vec<Option<usize>> = Vec::new();
        let mut i: usize = 0;
        while i < ls.len()
            invariant
                i <= ls@.len(),
                cols@.len() == i,
                fits(source@),
                views(ls@) == lines(source@),
                forall|j: int| 0 <= j < i ==> cols@[j] == md005_col(lines(source@)[j]),
            decreases ls@.len() - i,
        {
            assert(views(ls@)[i as int] == ls@[i as int]@);
            proof {
                lemma_line_fits(source@, i as int);
            }
            cols.push(md005_test(ls[i].as_slice()));
            i += 1;
        }
        assert(cols@ =~= lines(source@).map_values(|l: Seq<char>| md005_col(l)));
        report_cols(report, file, &cols, Severity::Error, "MD005", "Malformed image syntax", "Use ![alt text](url)");
    }
}

/// The column of the MD016 finding on line `l`, if any: the column of `![` when the text up to the next `]` is blank.
pub open spec fn md016_col(l: Seq<char>) -> Option<usize> {
    match alt_span(l) {
        Some((s, e)) => if trim(l.subrange(s + 2, e)).len() == 0 {
            Some(byte_col(l, s) as usize)
        } else {
            None
        },
        None => None,
    }
}

fn md016_test(l: &[char]) -> (c: Option<usize>)
    requires
        fits(l@),
    ensures
        c == md016_col(l@),
{
    match alt_span_exec(l) {
        Some((s, e)) => {
            let alt = slice_of(l, s + 2, e);
            if trimmed(alt.as_slice()).len() == 0 {
                Some(byte_col_exec(l, s))
            } else {
                None
            }
        },
        None => None,
    }
}

/// MD016: Image missing alt text.
#[derive(Clone, Copy, Debug)]
pub struct MissingAltText;

impl Rule for MissingAltText {
    open spec fn spec_id(&self) -> Seq<char> {
        "MD016"@
    }

    open spec fn spec_severity(&self) -> Severity {
        Severity::Warning
    }

    open spec fn is_pure(&self) -> bool {
        true
    }

    open spec fn accepts(&self, source: Seq<char>, disabled: Seq<Seq<char>>) -> bool {
        true
    }

    open spec fn findings(&self, file: Option<Seq<char>>, source: Seq<char>, disabled: Seq<Seq<char>>) -> Seq<ErrorView> {
        if enabled(disabled, "MD016"@) {
            col_errors(
                lines(source).map_values(|l: Seq<char>| md016_col(l)),
                tmpl(file, Severity::Warning, "MD016"@, "Image missing alt text"@, "Add descriptive alt text"@),
            )
        } else {
            seq![]
        }
    }

    fn id(&self) -> (r: &'static str) {
        "MD016"
    }

    fn severity(&self) -> (s: Severity) {
        Severity::Warning
    }

    fn admits(&self, source: &str, config: &LintConfig) -> (b: bool) {
        true
    }

    fn check(&self, file: Option<&str>, source: &str, report: &mut LintReport, config: &LintConfig) {
        if !config.is_enabled(self.id()) {
            return;
        }
        let ls = lines_of_str(source);
        proof {
            lemma_lines_bounds(source@);
        }
        let mut cols: Vec<Option<usize>> = Vec::new();
        let mut i: usize = 0;
        while i < ls.len()
            invariant
                i <= ls@.len(),
                cols@.len() == i,
                fits(source@),
                views(ls@) == lines(source@),
                forall|j: int| 0 <= j < i ==> cols@[j] == md016_col(lines(source@)[j]),
            decreases ls@.len() - i,
        {
            assert(views(ls@)[i as int] == ls@[i as int]@);
            proof {
                lemma_line_fits(source@, i as int);
            }
            cols.push(md016_test(ls[i].as_slice()));
            i += 1;
        }
        assert(cols@ =~= lines(source@).map_values(|l: Seq<char>| md016_col(l)));
        report_cols(report, file, &cols, Severity::Warning, "MD016", "Image missing alt text", "Add descriptive alt text");
    }
}

/// The column of the MD017 finding on line `l`, if any: the column of `](` when the link is not empty and does not start with `https://`.
pub open spec fn md017_col(l: Seq<char>) -> Option<usize> {
    match link_span(l) {
        Some((s, e)) => {
            let u = l.subrange(s + 2, e);
            if !starts_with(u, "https://"@) && u.len() > 0 {
                Some(byte_col(l, s) as usize)
            } else {
                None
            }
        },
        None => None,
    }
}

fn md017_test(l: &[char]) -> (c: Option<usize>)
    requires
        fits(l@),
    ensures
        c == md017_col(l@),
{
    match link_span_exec(l) {
        Some((s, e)) => {
            let uv = slice_of(l, s + 2, e);
            let u = uv.as_slice();
            if !starts_with_lit(u, "https://") && u.len() > 0 {
                Some(byte_col_exec(l, s))
            } else {
                None
            }
        },
        None => None,
    }
}

/// MD017: Image URL is not HTTPS.
#[derive(Clone, Copy, Debug)]
pub struct ImageUrlNotHttps;

impl Rule for ImageUrlNotHttps {
    open spec fn spec_id(&self) -> Seq<char> {
        "MD017"@
    }

    open spec fn spec_severity(&self) -> Severity {
        Severity::Warning
    }

    open spec fn is_pure(&self) -> bool {
        true
    }

    open spec fn accepts(&self, source: Seq<char>, disabled: Seq<Seq<char>>) -> bool {
        true
    }

    open spec fn findings(&self, file: Option<Seq<char>>, source: Seq<char>, disabled: Seq<Seq<char>>) -> Seq<ErrorView> {
        if enabled(disabled, "MD017"@) {
            col_errors(
                lines(source).map_values(|l: Seq<char>| md017_col(l)),
                tmpl(file, Severity::Warning, "MD017"@, "Image URL is not HTTPS"@, "Use https:// URL"@),
            )
        } else {
            seq![]
        }
    }

    fn id(&self) -> (r: &'static str) {
        "MD017"
    }

    fn severity(&self) -> (s: Severity) {
        Severity::Warning
    }

    fn admits(&self, source: &str, config: &LintConfig) -> (b: bool) {
        true
    }

    fn check(&self, file: Option<&str>, source: &str, report: &mut LintReport, config: &LintConfig) {
        if !config.is_enabled(self.id()) {
            return;
        }
        let ls = lines_of_str(source);
        proof {
            lemma_lines_bounds(source@);
        }
        let mut cols: Vec<Option<usize>> = Vec::new();
        let mut i: usize = 0;
        while i < ls.len()
            invariant
                i <= ls@.len(),
                cols@.len() == i,
                fits(source@),
                views(ls@) == lines(source@),
                forall|j: int| 0 <= j < i ==> cols@[j] == md017_col(lines(source@)[j]),
            decreases ls@.len() - i,
        {
            assert(views(ls@)[i as int] == ls@[i as int]@);
            proof {
                lemma_line_fits(source@, i as int);
            }
            cols.push(md017_test(ls[i].as_slice()));
            i += 1;
        }
        assert(cols@ =~= lines(source@).map_values(|l: Seq<char>| md017_col(l)));
        report_cols(report, file, &cols, Severity::Warning, "MD017", "Image URL is not HTTPS", "Use https:// URL");
    }
}

/// The alt text is padded with a space at either end.
pub open spec fn padded(t: Seq<char>) -> bool {
    starts_with(t, seq![' ']) || ends_with(t, seq![' '])
}

/// The positions used by MD018 on line `l`: `![`, then the first `]`, `(`
/// and `)` after it.
pub open spec fn md018_parts(l: Seq<char>) -> Option<(int, int, int, int)> {
    match find(l, seq!['!', '[']) {
        Some(s) => match (
            find_from(l, seq![']'], s),
            find_from(l, seq!['('], s),
            find_from(l, seq![')'], s),
        ) {
            (Some(eb), Some(sp), Some(ep)) => Some((s, eb, sp, ep)),
            _ => None,
        },
        None => None,
    }
}

/// The `)` does not come before the `(` (otherwise slicing would panic).
pub open spec fn md018_ok(l: Seq<char>) -> bool {
    match md018_parts(l) {
        Some((s, eb, sp, ep)) => sp < ep,
        None => true,
    }
}

/// The findings of MD018 on line `l`, the `i`-th (0-based).
pub open spec fn md018_line(l: Seq<char>, i: int, t1: Tmpl, t2: Tmpl) -> Seq<ErrorView> {
    match md018_parts(l) {
        Some((s, eb, sp, ep)) => (if padded(l.subrange(s + 2, eb)) {
            seq![at(t1, i + 1, byte_col(l, s) + 2, None)]
        } else {
            seq![]
        }) + (if padded(l.subrange(sp + 1, ep)) {
            seq![at(t2, i + 1, byte_col(l, sp) + 1, None)]
        } else {
            seq![]
        }),
        None => seq![],
    }
}

/// The findings of MD018 on the first `n` lines.
pub open spec fn md018_errors(ls: Seq<Seq<char>>, n: int, t1: Tmpl, t2: Tmpl) -> Seq<ErrorView>
    decreases n,
{
    if n <= 0 || n > ls.len() {
        seq![]
    } else {
        md018_errors(ls, n - 1, t1, t2) + md018_line(ls[n - 1], n - 1, t1, t2)
    }
}

fn md018_parts_exec(l: &[char]) -> (r: Option<(usize, usize, usize, usize)>)
    ensures
        match r {
            Some((s, eb, sp, ep)) => md018_parts(l@) == Some((s as int, eb as int, sp as int, ep as int))
                && s + 2 <= eb < l@.len() && s <= sp < l@.len() && s <= ep < l@.len(),
            None => md018_parts(l@) is None,
        },
{
    let p = pat2('!', '[');
    match find_chars(l, p.as_slice()) {
        None => None,
        Some(s) => {
            proof {
                lemma_find(l@, seq!['!', '[']);
                lemma_find_from(l@, seq![']'], s as int);
                lemma_find_from(l@, seq!['('], s as int);
                lemma_find_from(l@, seq![')'], s as int);
            }
            let a = find_chars_from(l, pat1(']').as_slice(), s);
            let b = find_chars_from(l, pat1('(').as_slice(), s);
            let c = find_chars_from(l, pat1(')').as_slice(), s);
            match (a, b, c) {
                (Some(eb), Some(sp), Some(ep)) => {
                    proof {
                        assert(l@.subrange(s as int, s + 2)[1] == '[');
                        if eb < s + 2 {
                            assert(l@.subrange(eb as int, eb + 1)[0] == ']');
                            assert(l@.subrange(s as int, s + 2)[eb - s] == l@[eb as int]);
                        }
                    }
                    Some((s, eb, sp, ep))
                },
                _ => None,
            }
        },
    }
}

fn padded_exec(t: &[char]) -> (b: bool)
    ensures
        b == padded(t@),
{
    proof {
        reveal_strlit(" ");
        assert(" "@ =~= seq![' ']);
    }
    starts_with_lit(t, " ") || ends_with_lit(t, " ")
}

/// MD018: Spaces inside image alt brackets or URL parentheses.
#[derive(Clone, Copy, Debug)]
pub struct SpacesInImageSyntax;

impl Rule for SpacesInImageSyntax {
    open spec fn spec_id(&self) -> Seq<char> {
        "MD018"@
    }

    open spec fn spec_severity(&self) -> Severity {
        Severity::Info
    }

    open spec fn is_pure(&self) -> bool {
        true
    }

    open spec fn accepts(&self, source: Seq<char>, disabled: Seq<Seq<char>>) -> bool {
        !enabled(disabled, "MD018"@) || (forall|i: int| 0 <= i < lines(source).len() ==> #[trigger] md018_ok(lines(source)[i]))
    }

    open spec fn findings(&self, file: Option<Seq<char>>, source: Seq<char>, disabled: Seq<Seq<char>>) -> Seq<ErrorView> {
        if enabled(disabled, "MD018"@) {
            md018_errors(
                lines(source),
                lines(source).len() as int,
                tmpl(file, Severity::Info, "MD018"@, "Spaces inside image alt brackets"@, "Remove spaces inside brackets"@),
                tmpl(file, Severity::Info, "MD018"@, "Spaces inside image URL parentheses"@, "Remove spaces inside parentheses"@),
            )
        } else {
            seq![]
        }
    }

    fn id(&self) -> (r: &'static str) {
        "MD018"
    }

    fn severity(&self) -> (s: Severity) {
        Severity::Info
    }

    fn admits(&self, source: &str, config: &LintConfig) -> (b: bool) {
        if !config.is_enabled(self.id()) {
            return true;
        }
        let ls = lines_of_str(source);
        let mut i: usize = 0;
        while i < ls.len()
            invariant
                enabled(config@, "MD018"@),
                i <= ls@.len(),
                views(ls@) == lines(source@),
                forall|j: int| 0 <= j < i ==> #[trigger] md018_ok(lines(source@)[j]),
            decreases ls@.len() - i,
        {
            assert(views(ls@)[i as int] == ls@[i as int]@);
            match md018_parts_exec(ls[i].as_slice()) {
                Some((s, eb, sp, ep)) => {
                    if sp >= ep {
                        assert(!md018_ok(lines(source@)[i as int]));
                        return false;
                    }
                },
                None => {},
            }
            i += 1;
        }
        true
    }

    fn check(&self, file: Option<&str>, source: &str, report: &mut LintReport, config: &LintConfig) {
        if !config.is_enabled(self.id()) {
            return;
        }
        let ls = lines_of_str(source);
        proof {
            lemma_lines_bounds(source@);
        }
        let ghost lv = views(ls@);
        let ghost t1 = tmpl(opt_str_view(file), Severity::Info, "MD018"@, "Spaces inside image alt brackets"@, "Remove spaces inside brackets"@);
        let ghost t2 = tmpl(opt_str_view(file), Severity::Info, "MD018"@, "Spaces inside image URL parentheses"@, "Remove spaces inside parentheses"@);
        let mut i: usize = 0;
        while i < ls.len()
            invariant
                i <= ls@.len(),
                fits(source@),
                lv == views(ls@),
                lv == lines(source@),
                lines(source@).len() <= source@.len(),
                forall|j: int| 0 <= j < lv.len() ==> #[trigger] md018_ok(lv[j]),
                t1 == tmpl(opt_str_view(file), Severity::Info, "MD018"@, "Spaces inside image alt brackets"@, "Remove spaces inside brackets"@),
                t2 == tmpl(opt_str_view(file), Severity::Info, "MD018"@, "Spaces inside image URL parentheses"@, "Remove spaces inside parentheses"@),
                report@ == old(report)@ + md018_errors(lv, i as int, t1, t2),
            decreases ls@.len() - i,
        {
            assert(lv[i as int] == ls@[i as int]@);
            proof {
                lemma_line_fits(source@, i as int);
            }
            let l = ls[i].as_slice();
            let ghost before = report@;
            match md018_parts_exec(l) {
                Some((s, eb, sp, ep)) => {
                    assert(md018_ok(lv[i as int]));
                    let alt = slice_of(l, s + 2, eb);
                    if padded_exec(alt.as_slice()) {
                        let c = byte_col_exec(l, s);
                        proof {
                            crate::text::lemma_utf8_len_take(l@, s as int);
                            crate::text::lemma_utf8_len_subrange(l@, s as int, s + 2);
                            crate::text::lemma_utf8_len_bounds(l@.subrange(s as int, s + 2));
                        }
                        report.push(finding(file, i + 1, c + 2, Severity::Info, "MD018", "Spaces inside image alt brackets", "Remove spaces inside brackets", None));
                    }
                    let ghost mid = report@;
                    let inner = slice_of(l, sp + 1, ep);
                    if padded_exec(inner.as_slice()) {
                        let c = byte_col_exec(l, sp);
                        proof {
                            crate::text::lemma_utf8_len_take(l@, sp as int);
                            crate::text::lemma_utf8_len_take(l@, sp + 1);
                            assert(l@.take(sp + 1).drop_last() =~= l@.take(sp as int));
                        }
                        report.push(finding(file, i + 1, c + 1, Severity::Info, "MD018", "Spaces inside image URL parentheses", "Remove spaces inside parentheses", None));
                    }
                },
                None => {},
            }
            assert(report@ =~= old(report)@ + md018_errors(lv, i + 1, t1, t2));
            i += 1;
        }
    }
}

/// The column of the MD019 finding on line `l`, if any: the column of `](` when the link has no `"`.
pub open spec fn md019_col(l: Seq<char>) -> Option<usize> {
    match link_span(l) {
        Some((s, e)) => {
            let u = l.subrange(s + 2, e);
            if !contains(u, seq!['"']) {
                Some(byte_col(l, s) as usize)
            } else {
                None
            }
        },
        None => None,
    }
}

fn md019_test(l: &[char]) -> (c: Option<usize>)
    requires
        fits(l@),
    ensures
        c == md019_col(l@),
{
    match link_span_exec(l) {
        Some((s, e)) => {
            let uv = slice_of(l, s + 2, e);
            let u = uv.as_slice();
            if !contains_char(u, '"') {
                Some(byte_col_exec(l, s))
            } else {
                None
            }
        },
        None => None,
    }
}

/// MD019: Image missing title.
#[derive(Clone, Copy, Debug)]
pub struct MissingImageTitle;

impl Rule for MissingImageTitle {
    open spec fn spec_id(&self) -> Seq<char> {
        "MD019"@
    }

    open spec fn spec_severity(&self) -> Severity {
        Severity::Info
    }

    open spec fn is_pure(&self) -> bool {
        true
    }

    open spec fn accepts(&self, source: Seq<char>, disabled: Seq<Seq<char>>) -> bool {
        true
    }

    open spec fn findings(&self, file: Option<Seq<char>>, source: Seq<char>, disabled: Seq<Seq<char>>) -> Seq<ErrorView> {
        if enabled(disabled, "MD019"@) {
            col_errors(
                lines(source).map_values(|l: Seq<char>| md019_col(l)),
                tmpl(file, Severity::Info, "MD019"@, "Image missing title"@, "Add a title like ![alt](url \"title\")"@),
            )
        } else {
            seq![]
        }
    }

    fn id(&self) -> (r: &'static str) {
        "MD019"
    }

    fn severity(&self) -> (s: Severity) {
        Severity::Info
    }

    fn admits(&self, source: &str, config: &LintConfig) -> (b: bool) {
        true
    }

    fn check(&self, file: Option<&str>, source: &str, report: &mut LintReport, config: &LintConfig) {
        if !config.is_enabled(self.id()) {
            return;
        }
        let ls = lines_of_str(source);
        proof {
            lemma_lines_bounds(source@);
        }
        let mut cols: Vec<Option<usize>> = Vec::new();
        let mut i: usize = 0;
        while i < ls.len()
            invariant
                i <= ls@.len(),
                cols@.len() == i,
                fits(source@),
                views(ls@) == lines(source@),
                forall|j: int| 0 <= j < i ==> cols@[j] == md019_col(lines(source@)[j]),
            decreases ls@.len() - i,
        {
            assert(views(ls@)[i as int] == ls@[i as int]@);
            proof {
                lemma_line_fits(source@, i as int);
            }
            cols.push(md019_test(ls[i].as_slice()));
            i += 1;
        }
        assert(cols@ =~= lines(source@).map_values(|l: Seq<char>| md019_col(l)));
        report_cols(report, file, &cols, Severity::Info, "MD019", "Image missing title", "Add a title like ![alt](url \"title\")");
    }
}

// ------------------------------------------------------------------
// File-system checks
// ------------------------------------------------------------------

/// What `Path::new(p).parent()` returns, as text.
pub uninterp spec fn parent_of(p: Seq<char>) -> Option<Seq<char>>;

/// What `Path::new(base).join(rel)` returns, as text.
pub uninterp spec fn joined(base: Seq<char>, rel: Seq<char>) -> Seq<char>;

/// `std::path::Path::parent`: the path without its final component (`None`
/// for a root or an empty path). Its result is named `parent_of`.
#[verifier::external_body]
fn path_parent(p: &str) -> (r: Option<String>)
    ensures
        opt_view(r) == parent_of(p@),
{
    match std::path::Path::new(p).parent() {
        Some(q) => Some(q.to_string_lossy().into_owned()),
        None => None,
    }
}

/// `std::path::Path::join`: `rel` appended to `base` (or `rel` alone when
/// it is absolute). Its result is named `joined`.
#[verifier::external_body]
fn path_join(base: &str, rel: &str) -> (r: String)
    ensures
        r@ == joined(base@, rel@),
{
    std::path::Path::new(base).join(rel).to_string_lossy().into_owned()
}

/// `std::path::Path::exists`: whether the file system has an entry at `p`
/// at the time of the call. Nothing is stated of the answer.
#[verifier::external_body]
fn path_exists(p: &str) -> (b: bool) {
    std::path::Path::new(p).exists()
}

/// The directory against which image paths of the document `file` are
/// resolved: its parent, or `.`.
pub open spec fn base_dir(file: Seq<char>) -> Seq<char> {
    match parent_of(file) {
        Some(d) => d,
        None => seq!['.'],
    }
}

/// The local image path of line `l`, when it has a link that starts with
/// neither `http://` nor `https://`: the character index of `](` and the path.
pub open spec fn md020_local(l: Seq<char>) -> Option<(int, Seq<char>)> {
    match link_span(l) {
        Some((s, e)) => {
            let p = l.subrange(s + 2, e);
            if !starts_with(p, "http://"@) && !starts_with(p, "https://"@) {
                Some((s, p))
            } else {
                None
            }
        },
        None => None,
    }
}

/// The finding for a missing image on line `i` (0-based) of the document
/// `file`: it names the resolved image path.
pub open spec fn md020_error(file: Seq<char>, l: Seq<char>, i: int, s: int, p: Seq<char>) -> ErrorView {
    ErrorView {
        file: Some(joined(base_dir(file), p)),
        line: i + 1,
        column: byte_col(l, s),
        severity: Severity::Error,
        rule_id: "MD020"@,
        message: "Local image file does not exist"@,
        suggestion: Some("Ensure the image file exists"@),
        fix: None,
    }
}

/// The possible findings of MD020 on the first `n` lines: one per local
/// image path, when the document's own path is known.
pub open spec fn md020_candidates(file: Option<Seq<char>>, ls: Seq<Seq<char>>, n: int) -> Seq<ErrorView>
    decreases n,
{
    if n <= 0 || n > ls.len() {
        seq![]
    } else {
        md020_candidates(file, ls, n - 1) + match (file, md020_local(ls[n - 1])) {
            (Some(f), Some((s, p))) => seq![md020_error(f, ls[n - 1], n - 1, s, p)],
            _ => seq![],
        }
    }
}

fn md020_local_exec(l: &[char]) -> (r: Option<(usize, Vec<char>)>)
    ensures
        match r {
            Some((s, p)) => md020_local(l@) == Some((s as int, p@)) && s < l@.len(),
            None => md020_local(l@) is None,
        },
{
    match link_span_exec(l) {
        Some((s, e)) => {
            let p = slice_of(l, s + 2, e);
            if !starts_with_lit(p.as_slice(), "http://") && !starts_with_lit(p.as_slice(), "https://") {
                Some((s, p))
            } else {
                None
            }
        },
        None => None,
    }
}

/// The path against which the document's image paths are resolved.
pub fn base_dir_of(file: &str) -> (r: String)
    ensures
        r@ == base_dir(file@),
{
    match path_parent(file) {
        Some(d) => d,
        None => {
            let r = owned(".");
            proof {
                reveal_strlit(".");
                assert("."@ =~= seq!['.']);
            }
            r
        },
    }
}

/// MD020: Local image file does not exist. The findings depend on the file
/// system: the rule asks `Path::exists` about the image path of each of
/// `md020_candidates`, in order, and `report_missing` reports exactly those
/// candidates whose answer was no.
#[derive(Clone, Copy, Debug)]
pub struct ImageFileNotExist;

impl Rule for ImageFileNotExist {
    open spec fn spec_id(&self) -> Seq<char> {
        "MD020"@
    }

    open spec fn spec_severity(&self) -> Severity {
        Severity::Error
    }

    open spec fn is_pure(&self) -> bool {
        false
    }

    open spec fn accepts(&self, source: Seq<char>, disabled: Seq<Seq<char>>) -> bool {
        true
    }

    open spec fn findings(&self, file: Option<Seq<char>>, source: Seq<char>, disabled: Seq<Seq<char>>) -> Seq<ErrorView> {
        if enabled(disabled, "MD020"@) {
            md020_candidates(file, lines(source), lines(source).len() as int)
        } else {
            seq![]
        }
    }

    fn id(&self) -> (r: &'static str) {
        "MD020"
    }

    fn severity(&self) -> (s: Severity) {
        Severity::Error
    }

    fn admits(&self, source: &str, config: &LintConfig) -> (b: bool) {
        true
    }

    fn check(&self, file: Option<&str>, source: &str, report: &mut LintReport, config: &LintConfig) {
        let ghost fv = opt_str_view(file);
        let ghost all = self.findings(fv, source@, config@);
        if !config.is_enabled(self.id()) {
            proof {
                reveal(reports_some);
                assert(report@ =~= old(report)@ + kept(all, Seq::<bool>::empty()));
            }
            return;
        }
        let base = match file {
            Some(f) => f,
            None => {
                proof {
                    assert forall|n: int| 0 <= n <= lines(source@).len() implies #[trigger] md020_candidates(fv, lines(source@), n) == Seq::<ErrorView>::empty() by {
                        lemma_md020_no_file(lines(source@), n);
                    }
                    assert(report@ =~= old(report)@ + kept(all, Seq::<bool>::empty()));
                    reveal(reports_some);
                }
                return;
            },
        };
        let cands = md020_candidates_exec(base, source);
        let mut exists: Vec<bool> = Vec::new();
        let mut k: usize = 0;
        while k < cands.len()
            invariant
                k <= cands@.len(),
                exists@.len() == k,
            decreases cands@.len() - k,
        {
            let found = match &cands[k].file {
                Some(image) => path_exists(image.as_str()),
                None => true,
            };
            exists.push(found);
            k += 1;
        }
        report_missing(report, cands, &exists);
        proof {
            reveal(reports_some);
        }
    }
}

/// The possible findings of MD020 on `source`, for the document `file`.
fn md020_candidates_exec(file: &str, source: &str) -> (r: Vec<LintError>)
    requires
        fits(source@),
    ensures
        error_views(r@) == md020_candidates(Some(file@), lines(source@), lines(source@).len() as int),
{
    let ghost fv = Some(file@);
    let dir = base_dir_of(file);
    let ls = lines_of_str(source);
    proof {
        lemma_lines_bounds(source@);
    }
    let ghost lv = views(ls@);
    let mut cands: Vec<LintError> = Vec::new();
    let mut i: usize = 0;
    while i < ls.len()
        invariant
            i <= ls@.len(),
            fits(source@),
            lv == views(ls@),
            lv == lines(source@),
            lines(source@).len() <= source@.len(),
            fv == Some(file@),
            dir@ == base_dir(file@),
            error_views(cands@) == md020_candidates(fv, lv, i as int),
        decreases ls@.len() - i,
    {
        assert(lv[i as int] == ls@[i as int]@);
        proof {
            lemma_line_fits(source@, i as int);
        }
        let l = ls[i].as_slice();
        let ghost c0 = md020_candidates(fv, lv, i as int);
        match md020_local_exec(l) {
            Some((s, p)) => {
                let ps = string_of(p.as_slice());
                let image = path_join(dir.as_str(), ps.as_str());
                let ghost e = md020_error(file@, lv[i as int], i as int, s as int, p@);
                assert(md020_candidates(fv, lv, i + 1) == c0.push(e));
                let col = byte_col_exec(l, s);
                let err = make_error(Some(image.as_str()), i + 1, col, Severity::Error, "MD020", owned("Local image file does not exist"), Some(owned("Ensure the image file exists")), None);
                cands.push(err);
                assert(error_views(cands@) =~= c0.push(e));
            },
            None => {
                assert(md020_candidates(fv, lv, i + 1) == c0);
            },
        }
        i += 1;
    }
    cands
}

/// Reports the candidates whose image file does not exist: `exists[k]`
/// tells whether the image of `cands[k]` exists.
pub fn report_missing(report: &mut LintReport, cands: Vec<LintError>, exists: &Vec<bool>)
    requires
        cands@.len() == exists@.len(),
    ensures
        final(report)@ == old(report)@ + kept(error_views(cands@), exists@.map_values(|b: bool| !b)),
{
    let ghost all = error_views(cands@);
    let ghost flags = exists@.map_values(|b: bool| !b);
    let mut rest = cands;
    let mut k: usize = 0;
    assert(all.take(0) =~= Seq::<ErrorView>::empty());
    assert(report@ =~= old(report)@ + kept(all.take(0), flags.take(0)));
    while k < exists.len()
        invariant
            k <= exists@.len(),
            all.len() == exists@.len(),
            flags == exists@.map_values(|b: bool| !b),
            error_views(rest@) == all.skip(k as int),
            report@ == old(report)@ + kept(all.take(k as int), flags.take(k as int)),
        decreases exists@.len() - k,
    {
        assert(error_views(rest@).len() == rest@.len());
        assert(all.skip(k as int).len() == all.len() - k);
        assert(rest@.len() > 0);
        assert(error_views(rest@)[0] == rest@[0]@);
        assert(all.skip(k as int)[0] == all[k as int]);
        let ghost r0 = rest@;
        let e = rest.remove(0);
        assert forall|j: int| 0 <= j < rest@.len() implies error_views(rest@)[j] == all.skip(k + 1)[j] by {
            assert(rest@[j] == r0[j + 1]);
            assert(error_views(r0)[j + 1] == r0[j + 1]@);
        }
        assert(error_views(rest@) =~= all.skip(k + 1));
        let ghost ev = e@;
        proof {
            lemma_kept_push(all.take(k as int), flags.take(k as int), all[k as int], flags[k as int]);
            assert(all.take(k + 1) =~= all.take(k as int).push(all[k as int]));
            assert(flags.take(k + 1) =~= flags.take(k as int).push(flags[k as int]));
        }
        if !exists[k] {
            report.push(e);
        }
        assert(report@ =~= old(report)@ + kept(all.take(k + 1), flags.take(k + 1)));
        k += 1;
    }
    assert(all.take(k as int) =~= all);
    assert(flags.take(k as int) =~= flags);
}

proof fn lemma_md020_no_file(ls: Seq<Seq<char>>, n: int)
    ensures
        md020_candidates(None, ls, n) == Seq::<ErrorView>::empty(),
    decreases n,
{
    if 0 < n <= ls.len() {
        lemma_md020_no_file(ls, n - 1);
        assert(md020_candidates(None, ls, n) =~= md020_candidates(None, ls, n - 1));
    }
}

/// The column of the MD021 finding on line `l`, if any: the column of `](` when the link contains a space.
pub open spec fn md021_col(l: Seq<char>) -> Option<usize> {
    match link_span(l) {
        Some((s, e)) => {
            let u = l.subrange(s + 2, e);
            if contains(u, seq![' ']) {
                Some(byte_col(l, s) as usize)
            } else {
                None
            }
        },
        None => None,
    }
}

fn md021_test(l: &[char]) -> (c: Option<usize>)
    requires
        fits(l@),
    ensures
        c == md021_col(l@),
{
    match link_span_exec(l) {
        Some((s, e)) => {
            let uv = slice_of(l, s + 2, e);
            let u = uv.as_slice();
            if contains_char(u, ' ') {
                Some(byte_col_exec(l, s))
            } else {
                None
            }
        },
        None => None,
    }
}

/// MD021: Image filename contains spaces.
#[derive(Clone, Copy, Debug)]
pub struct ImageFilenameSpaces;

impl Rule for ImageFilenameSpaces {
    open spec fn spec_id(&self) -> Seq<char> {
        "MD021"@
    }

    open spec fn spec_severity(&self) -> Severity {
        Severity::Warning
    }

    open spec fn is_pure(&self) -> bool {
        true
    }

    open spec fn accepts(&self, source: Seq<char>, disabled: Seq<Seq<char>>) -> bool {
        true
    }

    open spec fn findings(&self, file: Option<Seq<char>>, source: Seq<char>, disabled: Seq<Seq<char>>) -> Seq<ErrorView> {
        if enabled(disabled, "MD021"@) {
            col_errors(
                lines(source).map_values(|l: Seq<char>| md021_col(l)),
                tmpl(None, Severity::Warning, "MD021"@, "Image filename contains spaces"@, "Replace spaces with underscores or hyphens"@),
            )
        } else {
            seq![]
        }
    }

    fn id(&self) -> (r: &'static str) {
        "MD021"
    }

    fn severity(&self) -> (s: Severity) {
        Severity::Warning
    }

    fn admits(&self, source: &str, config: &LintConfig) -> (b: bool) {
        true
    }

    fn check(&self, file: Option<&str>, source: &str, report: &mut LintReport, config: &LintConfig) {
        if !config.is_enabled(self.id()) {
            return;
        }
        let ls = lines_of_str(source);
        proof {
            lemma_lines_bounds(source@);
        }
        let mut cols: Vec<Option<usize>> = Vec::new();
        let mut i: usize = 0;
        while i < ls.len()
            invariant
                i <= ls@.len(),
                cols@.len() == i,
                fits(source@),
                views(ls@) == lines(source@),
                forall|j: int| 0 <= j < i ==> cols@[j] == md021_col(lines(source@)[j]),
            decreases ls@.len() - i,
        {
            assert(views(ls@)[i as int] == ls@[i as int]@);
            proof {
                lemma_line_fits(source@, i as int);
            }
            cols.push(md021_test(ls[i].as_slice()));
            i += 1;
        }
        assert(cols@ =~= lines(source@).map_values(|l: Seq<char>| md021_col(l)));
        report_cols(report, None, &cols, Severity::Warning, "MD021", "Image filename contains spaces", "Replace spaces with underscores or hyphens");
    }
}

/// The trimmed alt text of line `l` and the index of its `![`, when the
/// line has `![...]` with a non-blank text.
pub open spec fn md022_alt(l: Seq<char>) -> Option<(int, Seq<char>)> {
    match alt_span(l) {
        Some((s, e)) => {
            let a = trim(l.subrange(s + 2, e));
            if a.len() > 0 {
                Some((s, a))
            } else {
                None
            }
        },
        None => None,
    }
}

/// Line `l` has the alt text `a`.
pub open spec fn has_alt(l: Seq<char>, a: Seq<char>) -> bool {
    md022_alt(l) matches Some((s, b)) && b == a
}

/// The first line at or after `j` and before `n` with the alt text `a`.
pub open spec fn first_alt_from(ls: Seq<Seq<char>>, j: int, n: int, a: Seq<char>) -> Option<int>
    decreases n - j,
{
    if j < 0 || j >= n || n > ls.len() {
        None
    } else if has_alt(ls[j], a) {
        Some(j)
    } else {
        first_alt_from(ls, j + 1, n, a)
    }
}

/// `Duplicate alt text '<a>' previously used on line <k>`.
pub open spec fn md022_message(a: Seq<char>, k: nat) -> Seq<char> {
    "Duplicate alt text '"@ + a + "' previously used on line "@ + decimal(k)
}

/// The findings of MD022 on the first `n` lines: a line whose alt text was
/// already used names the first line that used it.
pub open spec fn md022_errors(ls: Seq<Seq<char>>, n: int) -> Seq<ErrorView>
    decreases n,
{
    if n <= 0 || n > ls.len() {
        seq![]
    } else {
        md022_errors(ls, n - 1) + match md022_alt(ls[n - 1]) {
            Some((s, a)) => match first_alt_from(ls, 0, n - 1, a) {
                Some(j) => seq![
                    ErrorView {
                        file: None,
                        line: n,
                        column: byte_col(ls[n - 1], s),
                        severity: Severity::Info,
                        rule_id: "MD022"@,
                        message: md022_message(a, (j + 1) as nat),
                        suggestion: Some("Use unique alt text for each image"@),
                        fix: None,
                    },
                ],
                None => seq![],
            },
            None => seq![],
        }
    }
}

fn md022_alt_exec(l: &[char]) -> (r: Option<(usize, Vec<char>)>)
    ensures
        match r {
            Some((s, a)) => md022_alt(l@) == Some((s as int, a@)) && s < l@.len(),
            None => md022_alt(l@) is None,
        },
{
    match alt_span_exec(l) {
        Some((s, e)) => {
            let inner = slice_of(l, s + 2, e);
            let a = trimmed(inner.as_slice());
            if a.len() > 0 {
                Some((s, a))
            } else {
                None
            }
        },
        None => None,
    }
}

/// DuplicateAltText: the alt texts of the lines, as computed once.
pub open spec fn alt_views(v: Seq<Option<(usize, Vec<char>)>>) -> Seq<Option<(int, Seq<char>)>> {
    v.map_values(
        |o: Option<(usize, Vec<char>)>|
            match o {
                Some((s, a)) => Some((s as int, a@)),
                None => None,
            },
    )
}

/// MD022: Duplicate alt text.
#[derive(Clone, Copy, Debug)]
pub struct DuplicateAltText;

impl Rule for DuplicateAltText {
    open spec fn spec_id(&self) -> Seq<char> {
        "MD022"@
    }

    open spec fn spec_severity(&self) -> Severity {
        Severity::Info
    }

    open spec fn is_pure(&self) -> bool {
        true
    }

    open spec fn accepts(&self, source: Seq<char>, disabled: Seq<Seq<char>>) -> bool {
        true
    }

    open spec fn findings(&self, file: Option<Seq<char>>, source: Seq<char>, disabled: Seq<Seq<char>>) -> Seq<ErrorView> {
        if enabled(disabled, "MD022"@) {
            md022_errors(lines(source), lines(source).len() as int)
        } else {
            seq![]
        }
    }

    fn id(&self) -> (r: &'static str) {
        "MD022"
    }

    fn severity(&self) -> (s: Severity) {
        Severity::Info
    }

    fn admits(&self, source: &str, config: &LintConfig) -> (b: bool) {
        true
    }

    fn check(&self, file: Option<&str>, source: &str, report: &mut LintReport, config: &LintConfig) {
        if !config.is_enabled(self.id()) {
            return;
        }
        let ls = lines_of_str(source);
        proof {
            lemma_lines_bounds(source@);
        }
        let ghost lv = views(ls@);
        let mut alts: Vec<Option<(usize, Vec<char>)>> = Vec::new();
        let mut i: usize = 0;
        while i < ls.len()
            invariant
                i <= ls@.len(),
                lv == views(ls@),
                alts@.len() == i,
                forall|j: int| 0 <= j < i ==> #[trigger] alt_views(alts@)[j] == md022_alt(lv[j]),
            decreases ls@.len() - i,
        {
            assert(lv[i as int] == ls@[i as int]@);
            let ghost before = alts@;
            alts.push(md022_alt_exec(ls[i].as_slice()));
            assert forall|j: int| 0 <= j < i + 1 implies #[trigger] alt_views(alts@)[j] == md022_alt(lv[j]) by {
                if j < i {
                    assert(alts@[j] == before[j]);
                    assert(alt_views(before)[j] == md022_alt(lv[j]));
                }
            }
            i += 1;
        }
        let mut i: usize = 0;
        while i < ls.len()
            invariant
                i <= ls@.len(),
                fits(source@),
                lv == views(ls@),
                lv == lines(source@),
                lines(source@).len() <= source@.len(),
                alts@.len() == ls@.len(),
                forall|j: int| 0 <= j < ls@.len() ==> #[trigger] alt_views(alts@)[j] == md022_alt(lv[j]),
                report@ == old(report)@ + md022_errors(lv, i as int),
            decreases ls@.len() - i,
        {
            assert(alt_views(alts@)[i as int] == md022_alt(lv[i as int]));
            match &alts[i] {
                Some((s, a)) => {
                    let mut j: usize = 0;
                    let mut found: Option<usize> = None;
                    while j < i && found.is_none()
                        invariant
                            j <= i < ls@.len(),
                            alts@.len() == ls@.len(),
                            lv == views(ls@),
                            forall|m: int| 0 <= m < ls@.len() ==> #[trigger] alt_views(alts@)[m] == md022_alt(lv[m]),
                            found matches Some(k) ==> first_alt_from(lv, 0, i as int, a@) == Some(k as int) && k < i,
                            found is None ==> first_alt_from(lv, 0, i as int, a@) == first_alt_from(
                                lv,
                                j as int,
                                i as int,
                                a@,
                            ),
                        decreases i - j + (if found is None {
                            1int
                        } else {
                            0int
                        }),
                    {
                        assert(alt_views(alts@)[j as int] == md022_alt(lv[j as int]));
                        let hit = match &alts[j] {
                            Some((_, b)) => crate::text::chars_eq(b.as_slice(), a.as_slice()),
                            None => false,
                        };
                        if hit {
                            assert(has_alt(lv[j as int], a@));
                            found = Some(j);
                        } else {
                            assert(!has_alt(lv[j as int], a@));
                            j += 1;
                        }
                    }
                    match found {
                        Some(j) => {
                            assert(first_alt_from(lv, 0, i as int, a@) == Some(j as int));
                            proof {
                                lemma_line_fits(source@, i as int);
                            }
                            let l = ls[i].as_slice();
                            let col = byte_col_exec(l, *s);
                            let mut msg = owned("Duplicate alt text '");
                            crate::text::push_chars(&mut msg, a.as_slice());
                            crate::text::push_str(&mut msg, "' previously used on line ");
                            let num = decimal_chars(j + 1);
                            crate::text::push_chars(&mut msg, num.as_slice());
                            let err = make_error(None, i + 1, col, Severity::Info, "MD022", msg, Some(owned("Use unique alt text for each image")), None);
                            report.push(err);
                        },
                        None => {
                            assert(first_alt_from(lv, 0, i as int, a@) is None);
                        },
                    }
                },
                None => {},
            }
            assert(report@ =~= old(report)@ + md022_errors(lv, i + 1));
            i += 1;
        }
    }
}

/// The column of the MD024 finding on line `l`, if any: the column of `](` when the link starts with `http://`.
pub open spec fn md024_col(l: Seq<char>) -> Option<usize> {
    match link_span(l) {
        Some((s, e)) => {
            let u = l.subrange(s + 2, e);
            if starts_with(u, "http://"@) {
                Some(byte_col(l, s) as usize)
            } else {
                None
            }
        },
        None => None,
    }
}

fn md024_test(l: &[char]) -> (c: Option<usize>)
    requires
        fits(l@),
    ensures
        c == md024_col(l@),
{
    match link_span_exec(l) {
        Some((s, e)) => {
            let uv = slice_of(l, s + 2, e);
            let u = uv.as_slice();
            if starts_with_lit(u, "http://") {
                Some(byte_col_exec(l, s))
            } else {
                None
            }
        },
        None => None,
    }
}

/// MD024: External image URL should use HTTPS.
#[derive(Clone, Copy, Debug)]
pub struct ExternalImageHttps;

impl Rule for ExternalImageHttps {
    open spec fn spec_id(&self) -> Seq<char> {
        "MD024"@
    }

    open spec fn spec_severity(&self) -> Severity {
        Severity::Warning
    }

    open spec fn is_pure(&self) -> bool {
        true
    }

    open spec fn accepts(&self, source: Seq<char>, disabled: Seq<Seq<char>>) -> bool {
        true
    }

    open spec fn findings(&self, file: Option<Seq<char>>, source: Seq<char>, disabled: Seq<Seq<char>>) -> Seq<ErrorView> {
        if enabled(disabled, "MD024"@) {
            col_errors(
                lines(source).map_values(|l: Seq<char>| md024_col(l)),
                tmpl(None, Severity::Warning, "MD024"@, "External image URL should use HTTPS"@, "Change http:// to https://"@),
            )
        } else {
            seq![]
        }
    }

    fn id(&self) -> (r: &'static str) {
        "MD024"
    }

    fn severity(&self) -> (s: Severity) {
        Severity::Warning
    }

    fn admits(&self, source: &str, config: &LintConfig) -> (b: bool) {
        true
    }

    fn check(&self, file: Option<&str>, source: &str, report: &mut LintReport, config: &LintConfig) {
        if !config.is_enabled(self.id()) {
            return;
        }
        let ls = lines_of_str(source);
        proof {
            lemma_lines_bounds(source@);
        }
        let mut cols: Vec<Option<usize>> = Vec::new();
        let mut i: usize = 0;
        while i < ls.len()
            invariant
                i <= ls@.len(),
                cols@.len() == i,
                fits(source@),
                views(ls@) == lines(source@),
                forall|j: int| 0 <= j < i ==> cols@[j] == md024_col(lines(source@)[j]),
            decreases ls@.len() - i,
        {
            assert(views(ls@)[i as int] == ls@[i as int]@);
            proof {
                lemma_line_fits(source@, i as int);
            }
            cols.push(md024_test(ls[i].as_slice()));
            i += 1;
        }
        assert(cols@ =~= lines(source@).map_values(|l: Seq<char>| md024_col(l)));
        report_cols(report, None, &cols, Severity::Warning, "MD024", "External image URL should use HTTPS", "Change http:// to https://");
    }
}

/// The rules of this group, in order.
pub fn rules() -> (v: Vec<LintRule>)
    ensures
        v@ == seq![LintRule::MD005(IncorrectImageSyntax), LintRule::MD016(MissingAltText), LintRule::MD017(ImageUrlNotHttps), LintRule::MD018(SpacesInImageSyntax), LintRule::MD019(MissingImageTitle), LintRule::MD020(ImageFileNotExist), LintRule::MD021(ImageFilenameSpaces), LintRule::MD022(DuplicateAltText), LintRule::MD024(ExternalImageHttps)],
{
    let mut v: Vec<LintRule> = Vec::new();
    v.push(LintRule::MD005(IncorrectImageSyntax));
    v.push(LintRule::MD016(MissingAltText));
    v.push(LintRule::MD017(ImageUrlNotHttps));
    v.push(LintRule::MD018(SpacesInImageSyntax));
    v.push(LintRule::MD019(MissingImageTitle));
    v.push(LintRule::MD020(ImageFileNotExist));
    v.push(LintRule::MD021(ImageFilenameSpaces));
    v.push(LintRule::MD022(DuplicateAltText));
    v.push(LintRule::MD024(ExternalImageHttps));
    assert(v@ =~= seq![LintRule::MD005(IncorrectImageSyntax), LintRule::MD016(MissingAltText), LintRule::MD017(ImageUrlNotHttps), LintRule::MD018(SpacesInImageSyntax), LintRule::MD019(MissingImageTitle), LintRule::MD020(ImageFileNotExist), LintRule::MD021(ImageFilenameSpaces), LintRule::MD022(DuplicateAltText), LintRule::MD024(ExternalImageHttps)]);
    v
}

} // verus!
