//! Every finding of a rule carries the rule's id.
use vstd::prelude::*;
use crate::lint::error::ErrorView;
use crate::lint::registry::LintRule;
use crate::lint::rule::Rule;
use crate::lint::support::{Tmpl, col_errors, once, tmpl};
use crate::lint::error::Severity;
use crate::text::match_indices;
use crate::linters::common::{trues, match_errors, trailing_ws_errors, unreachable_errors, word_errors, word_line_errors};
use crate::linters::nasm::asm040_errors;
use crate::linters::html::{html003_at, html003_upto};
use crate::linters::javascript::js002_errors;
use crate::linters::md::rules::image::{md018_errors, md018_line, md020_candidates, md022_errors};
use crate::linters::md::rules::list::{md006_errors, md030_errors, md033_errors};
use crate::linters::css::rules::info::{css004_errors, css006_errors};
use crate::linters::css::rules::warning::{css002_declaration, css002_depth, css002_errors, css002_line_errors};

verus! {

/// Every finding of `es` has rule id `id`.
#[verifier::opaque]
pub open spec fn tagged(es: Seq<ErrorView>, id: Seq<char>) -> bool {
    forall|i: int| 0 <= i < es.len() ==> (#[trigger] es[i]).rule_id == id
}

pub proof fn lemma_tagged_empty(id: Seq<char>)
    ensures
        tagged(Seq::<ErrorView>::empty(), id),
{
    reveal(tagged);
}

/// At most one finding, with id `id`.
pub proof fn lemma_tagged_short(es: Seq<ErrorView>, id: Seq<char>)
    requires
        es.len() <= 1,
        es.len() == 1 ==> es[0].rule_id == id,
    ensures
        tagged(es, id),
{
    reveal(tagged);
}

pub proof fn lemma_tagged_add(a: Seq<ErrorView>, b: Seq<ErrorView>, id: Seq<char>)
    requires
        tagged(a, id),
        tagged(b, id),
    ensures
        tagged(a + b, id),
{
    reveal(tagged);
    assert forall|i: int| 0 <= i < (a + b).len() implies (#[trigger] (a + b)[i]).rule_id == id by {
        if i < a.len() {
            assert((a + b)[i] == a[i]);
        } else {
            assert((a + b)[i] == b[i - a.len()]);
        }
    }
}

pub broadcast proof fn lemma_col_errors_tagged(cols: Seq<Option<usize>>, t: Tmpl)
    ensures
        tagged(#[trigger] col_errors(cols, t), t.rule_id),
    decreases cols.len(),
{
    if cols.len() == 0 {
        lemma_tagged_empty(t.rule_id);
    } else {
        lemma_col_errors_tagged(cols.drop_last(), t);
        let b = match cols.last() {
            Some(c) => seq![crate::lint::support::at(t, cols.len() as int, c as int, None)],
            None => Seq::<ErrorView>::empty(),
        };
        lemma_tagged_short(b, t.rule_id);
        lemma_tagged_add(col_errors(cols.drop_last(), t), b, t.rule_id);
    }
}

pub broadcast proof fn lemma_once_tagged(hit: bool, t: Tmpl)
    ensures
        tagged(#[trigger] once(hit, t), t.rule_id),
{
    lemma_tagged_short(once(hit, t), t.rule_id);
}

pub broadcast proof fn lemma_trailing_ws_tagged(ls: Seq<Seq<char>>, offs: Seq<int>, t: Tmpl)
    ensures
        tagged(#[trigger] trailing_ws_errors(ls, offs, t), t.rule_id),
    decreases ls.len(),
{
    if ls.len() == 0 {
        lemma_tagged_empty(t.rule_id);
    } else {
        lemma_trailing_ws_tagged(ls.drop_last(), offs, t);
        let a = trailing_ws_errors(ls.drop_last(), offs, t);
        let b = trailing_ws_errors(ls, offs, t).subrange(a.len() as int, trailing_ws_errors(ls, offs, t).len() as int);
        assert(trailing_ws_errors(ls, offs, t) =~= a + b);
        lemma_tagged_short(b, t.rule_id);
        lemma_tagged_add(a, b, t.rule_id);
    }
}

pub broadcast proof fn lemma_match_errors_tagged(
    s: Seq<char>,
    ks: Seq<int>,
    conds: Seq<bool>,
    t: Tmpl,
    fix: Option<(int, int, Seq<char>)>,
)
    ensures
        tagged(#[trigger] match_errors(s, ks, conds, t, fix), t.rule_id),
    decreases ks.len(),
{
    if ks.len() == 0 {
        lemma_tagged_empty(t.rule_id);
    } else {
        lemma_match_errors_tagged(s, ks.drop_last(), conds, t, fix);
        let all = match_errors(s, ks, conds, t, fix);
        let a = match_errors(s, ks.drop_last(), conds, t, fix);
        let b = all.subrange(a.len() as int, all.len() as int);
        assert(all =~= a + b);
        lemma_tagged_short(b, t.rule_id);
        lemma_tagged_add(a, b, t.rule_id);
    }
}

pub broadcast proof fn lemma_unreachable_tagged(ls: Seq<Seq<char>>, term: Seq<bool>, t: Tmpl)
    ensures
        tagged(#[trigger] unreachable_errors(ls, term, t), t.rule_id),
{
    lemma_tagged_short(unreachable_errors(ls, term, t), t.rule_id);
}

proof fn lemma_word_line_tagged(
    l: Seq<char>,
    i: int,
    ws: Seq<Seq<char>>,
    starts: bool,
    t: Tmpl,
    pre: Seq<char>,
    post: Seq<char>,
)
    ensures
        tagged(word_line_errors(l, i, ws, starts, t, pre, post), t.rule_id),
    decreases ws.len(),
{
    if ws.len() == 0 {
        lemma_tagged_empty(t.rule_id);
    } else {
        lemma_word_line_tagged(l, i, ws.drop_last(), starts, t, pre, post);
        let all = word_line_errors(l, i, ws, starts, t, pre, post);
        let a = word_line_errors(l, i, ws.drop_last(), starts, t, pre, post);
        let b = all.subrange(a.len() as int, all.len() as int);
        assert(all =~= a + b);
        lemma_tagged_short(b, t.rule_id);
        lemma_tagged_add(a, b, t.rule_id);
    }
}

pub broadcast proof fn lemma_word_errors_tagged(
    ls: Seq<Seq<char>>,
    ws: Seq<Seq<char>>,
    starts: bool,
    t: Tmpl,
    pre: Seq<char>,
    post: Seq<char>,
)
    ensures
        tagged(#[trigger] word_errors(ls, ws, starts, t, pre, post), t.rule_id),
    decreases ls.len(),
{
    if ls.len() == 0 {
        lemma_tagged_empty(t.rule_id);
    } else {
        lemma_word_errors_tagged(ls.drop_last(), ws, starts, t, pre, post);
        lemma_word_line_tagged(ls.last(), ls.len() - 1, ws, starts, t, pre, post);
        lemma_tagged_add(
            word_errors(ls.drop_last(), ws, starts, t, pre, post),
            word_line_errors(ls.last(), ls.len() - 1, ws, starts, t, pre, post),
            t.rule_id,
        );
    }
}

pub broadcast proof fn lemma_asm040_tagged(ls: Seq<Seq<char>>, src: Seq<char>, t: Tmpl)
    ensures
        tagged(#[trigger] asm040_errors(ls, src, t), t.rule_id),
    decreases ls.len(),
{
    if ls.len() == 0 {
        lemma_tagged_empty(t.rule_id);
    } else {
        lemma_asm040_tagged(ls.drop_last(), src, t);
        let all = asm040_errors(ls, src, t);
        let a = asm040_errors(ls.drop_last(), src, t);
        let b = all.subrange(a.len() as int, all.len() as int);
        assert(all =~= a + b);
        lemma_tagged_short(b, t.rule_id);
        lemma_tagged_add(a, b, t.rule_id);
    }
}

pub broadcast proof fn lemma_html003_tagged(s: Seq<char>, n: int, t: Tmpl)
    ensures
        tagged(#[trigger] html003_upto(s, n, t), t.rule_id),
    decreases n,
{
    if n <= 0 {
        lemma_tagged_empty(t.rule_id);
    } else {
        lemma_html003_tagged(s, n - 1, t);
        let b = if s[n - 1] == '<' {
            html003_at(s, n - 1, t)
        } else {
            Seq::<ErrorView>::empty()
        };
        lemma_tagged_short(b, t.rule_id);
        lemma_tagged_add(html003_upto(s, n - 1, t), b, t.rule_id);
    }
}

pub broadcast proof fn lemma_js002_tagged(ls: Seq<Seq<char>>, all: Seq<Seq<char>>, t: Tmpl)
    ensures
        tagged(#[trigger] js002_errors(ls, all, t), t.rule_id),
    decreases ls.len(),
{
    if ls.len() == 0 {
        lemma_tagged_empty(t.rule_id);
    } else {
        lemma_js002_tagged(ls.drop_last(), all, t);
        let e = js002_errors(ls, all, t);
        let a = js002_errors(ls.drop_last(), all, t);
        let b = e.subrange(a.len() as int, e.len() as int);
        assert(e =~= a + b);
        lemma_tagged_short(b, t.rule_id);
        lemma_tagged_add(a, b, t.rule_id);
    }
}

pub broadcast proof fn lemma_md018_tagged(ls: Seq<Seq<char>>, n: int, t1: Tmpl, t2: Tmpl)
    requires
        t1.rule_id == t2.rule_id,
    ensures
        tagged(#[trigger] md018_errors(ls, n, t1, t2), t1.rule_id),
    decreases n,
{
    if n <= 0 || n > ls.len() {
        lemma_tagged_empty(t1.rule_id);
    } else {
        lemma_md018_tagged(ls, n - 1, t1, t2);
        reveal(tagged);
        let a = md018_errors(ls, n - 1, t1, t2);
        let b = md018_line(ls[n - 1], n - 1, t1, t2);
        assert(tagged(b, t1.rule_id));
        lemma_tagged_add(a, b, t1.rule_id);
    }
}

pub broadcast proof fn lemma_md020_tagged(file: Option<Seq<char>>, ls: Seq<Seq<char>>, n: int)
    ensures
        tagged(#[trigger] md020_candidates(file, ls, n), "MD020"@),
    decreases n,
{
    if n <= 0 || n > ls.len() {
        lemma_tagged_empty("MD020"@);
    } else {
        lemma_md020_tagged(file, ls, n - 1);
        let e = md020_candidates(file, ls, n);
        let a = md020_candidates(file, ls, n - 1);
        let b = e.subrange(a.len() as int, e.len() as int);
        assert(e =~= a + b);
        lemma_tagged_short(b, "MD020"@);
        lemma_tagged_add(a, b, "MD020"@);
    }
}

pub broadcast proof fn lemma_md022_tagged(ls: Seq<Seq<char>>, n: int)
    ensures
        tagged(#[trigger] md022_errors(ls, n), "MD022"@),
    decreases n,
{
    if n <= 0 || n > ls.len() {
        lemma_tagged_empty("MD022"@);
    } else {
        lemma_md022_tagged(ls, n - 1);
        let e = md022_errors(ls, n);
        let a = md022_errors(ls, n - 1);
        let b = e.subrange(a.len() as int, e.len() as int);
        assert(e =~= a + b);
        lemma_tagged_short(b, "MD022"@);
        lemma_tagged_add(a, b, "MD022"@);
    }
}

pub broadcast proof fn lemma_md006_tagged(ls: Seq<Seq<char>>, offs: Seq<int>, n: int, t: Tmpl)
    ensures
        tagged(#[trigger] md006_errors(ls, offs, n, t), t.rule_id),
    decreases n,
{
    if n <= 0 || n > ls.len() {
        lemma_tagged_empty(t.rule_id);
    } else {
        lemma_md006_tagged(ls, offs, n - 1, t);
        let e = md006_errors(ls, offs, n, t);
        let a = md006_errors(ls, offs, n - 1, t);
        let b = e.subrange(a.len() as int, e.len() as int);
        assert(e =~= a + b);
        lemma_tagged_short(b, t.rule_id);
        lemma_tagged_add(a, b, t.rule_id);
    }
}

pub broadcast proof fn lemma_md030_tagged(ls: Seq<Seq<char>>, offs: Seq<int>, n: int, t: Tmpl)
    ensures
        tagged(#[trigger] md030_errors(ls, offs, n, t), t.rule_id),
    decreases n,
{
    if n <= 0 || n > ls.len() {
        lemma_tagged_empty(t.rule_id);
    } else {
        lemma_md030_tagged(ls, offs, n - 1, t);
        let e = md030_errors(ls, offs, n, t);
        let a = md030_errors(ls, offs, n - 1, t);
        let b = e.subrange(a.len() as int, e.len() as int);
        assert(e =~= a + b);
        lemma_tagged_short(b, t.rule_id);
        lemma_tagged_add(a, b, t.rule_id);
    }
}

pub broadcast proof fn lemma_md033_tagged(file: Option<Seq<char>>, ls: Seq<Seq<char>>, n: int)
    ensures
        tagged(#[trigger] md033_errors(file, ls, n), "MD033"@),
    decreases n,
{
    if n <= 0 || n > ls.len() {
        lemma_tagged_empty("MD033"@);
    } else {
        lemma_md033_tagged(file, ls, n - 1);
        let e = md033_errors(file, ls, n);
        let a = md033_errors(file, ls, n - 1);
        let b = e.subrange(a.len() as int, e.len() as int);
        assert(e =~= a + b);
        lemma_tagged_short(b, "MD033"@);
        lemma_tagged_add(a, b, "MD033"@);
    }
}

pub broadcast proof fn lemma_css004_tagged(s: Seq<char>, ks: Seq<int>, t: Tmpl)
    ensures
        tagged(#[trigger] css004_errors(s, ks, t), t.rule_id),
    decreases ks.len(),
{
    if ks.len() == 0 {
        lemma_tagged_empty(t.rule_id);
    } else {
        lemma_css004_tagged(s, ks.drop_last(), t);
        let e = css004_errors(s, ks, t);
        let a = css004_errors(s, ks.drop_last(), t);
        let b = e.subrange(a.len() as int, e.len() as int);
        assert(e =~= a + b);
        lemma_tagged_short(b, t.rule_id);
        lemma_tagged_add(a, b, t.rule_id);
    }
}

pub broadcast proof fn lemma_css006_tagged(ls: Seq<Seq<char>>, offs: Seq<int>, n: int, t: Tmpl)
    ensures
        tagged(#[trigger] css006_errors(ls, offs, n, t), t.rule_id),
    decreases n,
{
    if n <= 0 || n > ls.len() {
        lemma_tagged_empty(t.rule_id);
    } else {
        lemma_css006_tagged(ls, offs, n - 1, t);
        let e = css006_errors(ls, offs, n, t);
        let a = css006_errors(ls, offs, n - 1, t);
        let b = e.subrange(a.len() as int, e.len() as int);
        assert(e =~= a + b);
        lemma_tagged_short(b, t.rule_id);
        lemma_tagged_add(a, b, t.rule_id);
    }
}

proof fn lemma_css002_line_tagged(l: Seq<char>, ks: Seq<int>, line: int, off: int, t: Tmpl)
    ensures
        tagged(css002_line_errors(l, ks, line, off, t), t.rule_id),
    decreases ks.len(),
{
    if ks.len() == 0 {
        lemma_tagged_empty(t.rule_id);
    } else {
        lemma_css002_line_tagged(l, ks.drop_last(), line, off, t);
        let e = css002_line_errors(l, ks, line, off, t);
        let a = css002_line_errors(l, ks.drop_last(), line, off, t);
        let b = e.subrange(a.len() as int, e.len() as int);
        assert(e =~= a + b);
        lemma_tagged_short(b, t.rule_id);
        lemma_tagged_add(a, b, t.rule_id);
    }
}

pub broadcast proof fn lemma_css002_tagged(ls: Seq<Seq<char>>, offs: Seq<int>, n: int, t: Tmpl)
    ensures
        tagged(#[trigger] css002_errors(ls, offs, n, t), t.rule_id),
    decreases n,
{
    if n <= 0 || n > ls.len() {
        lemma_tagged_empty(t.rule_id);
    } else {
        let i = n - 1;
        lemma_css002_tagged(ls, offs, i, t);
        lemma_css002_line_tagged(ls[i], crate::text::match_indices(ls[i], seq![':']), i + 1, offs[i], t);
        lemma_tagged_empty(t.rule_id);
        let e = css002_errors(ls, offs, n, t);
        let a = css002_errors(ls, offs, i, t);
        let le = css002_line_errors(ls[i], crate::text::match_indices(ls[i], seq![':']), i + 1, offs[i], t);
        if css002_depth(ls, n) > 0 && css002_declaration(ls[i]) {
            assert(e == a + le);
            lemma_tagged_add(a, le, t.rule_id);
        } else {
            assert(e =~= a + Seq::<ErrorView>::empty());
            lemma_tagged_add(a, Seq::<ErrorView>::empty(), t.rule_id);
        }
    }
}

pub broadcast group group_tagged {
    lemma_col_errors_tagged,
    lemma_once_tagged,
    lemma_trailing_ws_tagged,
    lemma_match_errors_tagged,
    lemma_unreachable_tagged,
    lemma_word_errors_tagged,
    lemma_asm040_tagged,
    lemma_html003_tagged,
    lemma_js002_tagged,
    lemma_md018_tagged,
    lemma_md020_tagged,
    lemma_md022_tagged,
    lemma_md006_tagged,
    lemma_md030_tagged,
    lemma_md033_tagged,
    lemma_css004_tagged,
    lemma_css006_tagged,
    lemma_css002_tagged,
}


proof fn lemma_doctype_tagged(
    x: crate::linters::html::MissingDoctype,
    file: Option<Seq<char>>,
    source: Seq<char>,
    disabled: Seq<Seq<char>>,
)
    ensures
        tagged(x.findings(file, source, disabled), x.spec_id()),
{
    lemma_tagged_short(x.findings(file, source, disabled), x.spec_id());
}

/// The findings of the two passes of a capitalised-boolean rule.
proof fn lemma_booleans_tagged(file: Option<Seq<char>>, source: Seq<char>, sev: Severity, id: Seq<char>, msg: Seq<char>)
    ensures
        tagged(
            match_errors(source, match_indices(source, "True"@), trues(match_indices(source, "True"@).len() as int), tmpl(file, sev, id, msg, "Use 'true'"@), Some((0, 4, "true"@)))
                + match_errors(source, match_indices(source, "False"@), trues(match_indices(source, "False"@).len() as int), tmpl(file, sev, id, msg, "Use 'false'"@), Some((0, 5, "false"@))),
            id,
        ),
{
    let t1 = tmpl(file, sev, id, msg, "Use 'true'"@);
    let t2 = tmpl(file, sev, id, msg, "Use 'false'"@);
    let a = match_errors(source, match_indices(source, "True"@), trues(match_indices(source, "True"@).len() as int), t1, Some((0, 4, "true"@)));
    let b = match_errors(source, match_indices(source, "False"@), trues(match_indices(source, "False"@).len() as int), t2, Some((0, 5, "false"@)));
    lemma_match_errors_tagged(source, match_indices(source, "True"@), trues(match_indices(source, "True"@).len() as int), t1, Some((0, 4, "true"@)));
    lemma_match_errors_tagged(source, match_indices(source, "False"@), trues(match_indices(source, "False"@).len() as int), t2, Some((0, 5, "false"@)));
    lemma_tagged_add(a, b, id);
}

/// Every finding of a rule carries the rule's own id.
pub proof fn law_findings_carry_id(r: LintRule, file: Option<Seq<char>>, source: Seq<char>, disabled: Seq<Seq<char>>)
    ensures
        tagged(r.findings(file, source, disabled), r.spec_id()),
        forall|i: int|
            0 <= i < r.findings(file, source, disabled).len() ==> (#[trigger] r.findings(file, source, disabled)[i]).rule_id
                == r.spec_id(),
{
    lemma_findings_tagged(r, file, source, disabled);
    reveal(tagged);
}

#[verifier::rlimit(100)]
proof fn lemma_findings_tagged(r: LintRule, file: Option<Seq<char>>, source: Seq<char>, disabled: Seq<Seq<char>>)
    ensures
        tagged(r.findings(file, source, disabled), r.spec_id()),
{
    broadcast use group_tagged;

    lemma_tagged_empty(r.spec_id());
    match r {
        LintRule::HTML002(x) => {
            lemma_doctype_tagged(x, file, source, disabled);
        },
        LintRule::HTML005(x) => {
            lemma_tagged_short(x.findings(file, source, disabled), x.spec_id());
        },
        LintRule::JS007(x) => {
            lemma_booleans_tagged(file, source, Severity::Info, "JS007"@, "Boolean should be lowercase"@);
        },
        LintRule::RUST005(x) => {
            lemma_booleans_tagged(file, source, Severity::Error, "RUST005"@, "Boolean must be lowercase"@);
        },
        LintRule::RUST012(x) => {
            lemma_tagged_short(x.findings(file, source, disabled), x.spec_id());
        },
        _ => {},
    }
}

} // verus!
