//! HTML
use vstd::prelude::*;
use crate::lint::config::{LintConfig, enabled};
use crate::lint::error::{ErrorView, Severity, opt_str_view};
use crate::lint::linter::{Linter, lemma_fresh};
use crate::lint::registry::LintRule;
use crate::lint::report::LintReport;
use crate::lint::rule::Rule;
use crate::lint::edit::{Fix, single_fix};
use crate::lint::support::{lemma_line_fits, sum_pieces, line_offset, Tmpl, at, col_errors, hit_cols, once, tmpl, finding, make_error, report_hits, report_once, report_cols, lemma_lines_bounds, lemma_lines_total, total_chars, lemma_total_chars_take};
use crate::linters::common::{count_matches, count_matches_exec, count_lit, find_col, find_col_exec, word_errors, report_words, comma_needs_space, comma_needs_space_exec, brace_needs_space, brace_needs_space_exec, brace_prev_ascii, brace_prev_ascii_exec, match_errors, report_matches, all_true, trues, trailing_ws_errors, acc_offsets, piece_offsets, report_trailing_ws, acc_offsets_exec, piece_offsets_exec, unreachable_errors, report_unreachable};
use crate::text::{lines, views, contains, starts_with, ends_with, trim, trim_start, trim_end, upper, lower, chars_of, lines_of_str, contains_lit, starts_with_lit, ends_with_lit, eq_lit, trimmed, trimmed_start, trimmed_end, upper_of, lower_of, owned, string_of, slice_of, find, find_char, find_lit, find_chars, lemma_find, matches_at, is_ws, is_whitespace, utf8_len, byte_len, prefix_bytes, any_upper, has_upper, lemma_utf8_len_take, lemma_utf8_len_subrange, split_char, fits, match_indices, match_positions_lit, char_width, split_on, contains_char, numeric_char, is_numeric};

verus! {

/// HTML001: Trailing whitespace.
#[derive(Clone, Copy, Debug)]
pub struct TrailingWhitespace;

impl Rule for TrailingWhitespace {
    open spec fn spec_id(&self) -> Seq<char> {
        "HTML001"@
    }

    open spec fn spec_severity(&self) -> Severity {
        Severity::Info
    }

    open spec fn is_pure(&self) -> bool {
        true
    }

    open spec fn accepts(&self, source: Seq<char>, disabled: Seq<Seq<char>>) -> bool {
        true
    }

    fn id(&self) -> (r: &'static str) {
        "HTML001"
    }

    fn severity(&self) -> (s: Severity) {
        Severity::Info
    }

    fn admits(&self, source: &str, config: &LintConfig) -> (b: bool) {
        true
    }

    open spec fn findings(&self, file: Option<Seq<char>>, source: Seq<char>, disabled: Seq<Seq<char>>) -> Seq<ErrorView> {
        if enabled(disabled, "HTML001"@) {
            trailing_ws_errors(lines(source), piece_offsets(source), tmpl(file, Severity::Info, "HTML001"@, "Trailing whitespace"@, "Remove trailing whitespace"@))
        } else {
            seq![]
        }
    }

    fn check(&self, file: Option<&str>, source: &str, report: &mut LintReport, config: &LintConfig) {
        if !config.is_enabled(self.id()) {
            return;
        }
        let ls = lines_of_str(source);
        proof {
            lemma_lines_bounds(source@);
        }
        let src = chars_of(source);
        let offs = piece_offsets_exec(src.as_slice());
        assert forall|i: int| 0 <= i < ls@.len() implies offs@[i] + utf8_len(#[trigger] ls@[i]@) <= usize::MAX by {
            assert(views(ls@)[i] == ls@[i]@);
        }
        report_trailing_ws(report, file, &ls, &offs, Severity::Info, "HTML001", "Trailing whitespace", "Remove trailing whitespace");
    }
}

/// HTML004: <img> has empty alt attribute.
#[derive(Clone, Copy, Debug)]
pub struct EmptyAltAttribute;

/// Whether a line is reported by HTML004.
pub open spec fn html004_hit(l: Seq<char>) -> bool {
    contains(l, "<img"@) && contains(l, "alt=\"\""@)
}

fn html004_test(l: &[char]) -> (b: bool)
    ensures
        b == html004_hit(l@),
{
    contains_lit(l, "<img") && contains_lit(l, "alt=\"\"")
}

impl Rule for EmptyAltAttribute {
    open spec fn spec_id(&self) -> Seq<char> {
        "HTML004"@
    }

    open spec fn spec_severity(&self) -> Severity {
        Severity::Warning
    }

    open spec fn is_pure(&self) -> bool {
        true
    }

    open spec fn accepts(&self, source: Seq<char>, disabled: Seq<Seq<char>>) -> bool {
        true
    }

    fn id(&self) -> (r: &'static str) {
        "HTML004"
    }

    fn severity(&self) -> (s: Severity) {
        Severity::Warning
    }

    fn admits(&self, source: &str, config: &LintConfig) -> (b: bool) {
        true
    }

    open spec fn findings(&self, file: Option<Seq<char>>, source: Seq<char>, disabled: Seq<Seq<char>>) -> Seq<ErrorView> {
        if true {
            col_errors(hit_cols(lines(source).map_values(|l: Seq<char>| html004_hit(l))), tmpl(file, Severity::Warning, "HTML004"@, "<img> has empty alt attribute"@, "Provide meaningful alt text"@))
        } else {
            seq![]
        }
    }

    fn check(&self, file: Option<&str>, source: &str, report: &mut LintReport, config: &LintConfig) {
        let ls = lines_of_str(source);
        proof {
            lemma_lines_bounds(source@);
        }
        let mut hits: Vec<bool> = Vec::new();
        let mut i: usize = 0;
        while i < ls.len()
            invariant
                i <= ls@.len(),
                hits@.len() == i,
                views(ls@) == lines(source@),
                forall|j: int| 0 <= j < i ==> hits@[j] == html004_hit(lines(source@)[j]),
            decreases ls@.len() - i,
        {
            assert(views(ls@)[i as int] == ls@[i as int]@);
            hits.push(html004_test(ls[i].as_slice()));
            i += 1;
        }
        assert(hits@ =~= lines(source@).map_values(|l: Seq<char>| html004_hit(l)));
        report_hits(report, file, &hits, Severity::Warning, "HTML004", "<img> has empty alt attribute", "Provide meaningful alt text");
    }
}

/// HTML006: Multiple spaces between attributes.
#[derive(Clone, Copy, Debug)]
pub struct MultipleSpacesBetweenAttributes;

/// Whether a line is reported by HTML006.
pub open spec fn html006_hit(l: Seq<char>) -> bool {
    contains(l, " "@)
}

fn html006_test(l: &[char]) -> (b: bool)
    ensures
        b == html006_hit(l@),
{
    contains_lit(l, " ")
}

impl Rule for MultipleSpacesBetweenAttributes {
    open spec fn spec_id(&self) -> Seq<char> {
        "HTML006"@
    }

    open spec fn spec_severity(&self) -> Severity {
        Severity::Info
    }

    open spec fn is_pure(&self) -> bool {
        true
    }

    open spec fn accepts(&self, source: Seq<char>, disabled: Seq<Seq<char>>) -> bool {
        true
    }

    fn id(&self) -> (r: &'static str) {
        "HTML006"
    }

    fn severity(&self) -> (s: Severity) {
        Severity::Info
    }

    fn admits(&self, source: &str, config: &LintConfig) -> (b: bool) {
        true
    }

    open spec fn findings(&self, file: Option<Seq<char>>, source: Seq<char>, disabled: Seq<Seq<char>>) -> Seq<ErrorView> {
        if true {
            col_errors(hit_cols(lines(source).map_values(|l: Seq<char>| html006_hit(l))), tmpl(file, Severity::Info, "HTML006"@, "Multiple spaces between attributes"@, "Reduce to single space"@))
        } else {
            seq![]
        }
    }

    fn check(&self, file: Option<&str>, source: &str, report: &mut LintReport, config: &LintConfig) {
        let ls = lines_of_str(source);
        proof {
            lemma_lines_bounds(source@);
        }
        let mut hits: Vec<bool> = Vec::new();
        let mut i: usize = 0;
        while i < ls.len()
            invariant
                i <= ls@.len(),
                hits@.len() == i,
                views(ls@) == lines(source@),
                forall|j: int| 0 <= j < i ==> hits@[j] == html006_hit(lines(source@)[j]),
            decreases ls@.len() - i,
        {
            assert(views(ls@)[i as int] == ls@[i as int]@);
            hits.push(html006_test(ls[i].as_slice()));
            i += 1;
        }
        assert(hits@ =~= lines(source@).map_values(|l: Seq<char>| html006_hit(l)));
        report_hits(report, file, &hits, Severity::Info, "HTML006", "Multiple spaces between attributes", "Reduce to single space");
    }
}

/// HTML002: Missing <!DOCTYPE html>.
#[derive(Clone, Copy, Debug)]
pub struct MissingDoctype;

impl Rule for MissingDoctype {
    open spec fn spec_id(&self) -> Seq<char> {
        "HTML002"@
    }

    open spec fn spec_severity(&self) -> Severity {
        Severity::Warning
    }

    open spec fn is_pure(&self) -> bool {
        true
    }

    open spec fn accepts(&self, source: Seq<char>, disabled: Seq<Seq<char>>) -> bool {
        true
    }

    open spec fn findings(&self, file: Option<Seq<char>>, source: Seq<char>, disabled: Seq<Seq<char>>) -> Seq<ErrorView> {
        if enabled(disabled, "HTML002"@) && !starts_with(lower(source), "<!doctype html>"@) {
            seq![
                at(
                    tmpl(file, Severity::Warning, "HTML002"@, "Missing <!DOCTYPE html>"@, "Add <!DOCTYPE html> at the top"@),
                    1,
                    1,
                    Some(single_fix("HTML002"@, 0, 0, "<!DOCTYPE html>\n"@)),
                ),
            ]
        } else {
            seq![]
        }
    }

    fn id(&self) -> (r: &'static str) {
        "HTML002"
    }

    fn severity(&self) -> (s: Severity) {
        Severity::Warning
    }

    fn admits(&self, source: &str, config: &LintConfig) -> (b: bool) {
        true
    }

    fn check(&self, file: Option<&str>, source: &str, report: &mut LintReport, config: &LintConfig) {
        if !config.is_enabled(self.id()) {
            return;
        }
        let src = chars_of(source);
        let low = lower_of(src.as_slice());
        if !starts_with_lit(low.as_slice(), "<!doctype html>") {
            let fix = Fix::single(self.id(), 0, 0, owned("<!DOCTYPE html>\n"));
            report.push(finding(file, 1, 1, Severity::Warning, self.id(), "Missing <!DOCTYPE html>", "Add <!DOCTYPE html> at the top", Some(fix)));
        }
    }
}

/// Index of the first character of `s` that is whitespace or `>`.
pub open spec fn find_tag_end(s: Seq<char>) -> Option<int>
    decreases s.len(),
{
    if s.len() == 0 {
        None
    } else if is_ws(s[0]) || s[0] == '>' {
        Some(0)
    } else {
        match find_tag_end(s.drop_first()) {
            Some(k) => Some(k + 1),
            None => None,
        }
    }
}

proof fn lemma_find_tag_end(s: Seq<char>)
    ensures
        find_tag_end(s) matches Some(k) ==> 0 <= k < s.len(),
    decreases s.len(),
{
    if s.len() > 0 {
        lemma_find_tag_end(s.drop_first());
    }
}

fn find_tag_end_exec(s: &[char], from: usize) -> (r: Option<usize>)
    requires
        from <= s@.len(),
    ensures
        match r {
            Some(k) => find_tag_end(s@.skip(from as int)) == Some(k as int),
            None => find_tag_end(s@.skip(from as int)) is None,
        },
{
    let mut i: usize = s.len();
    let mut res: Option<usize> = None;
    assert(s@.skip(s@.len() as int) =~= Seq::<char>::empty());
    while i > from
        invariant
            from <= i <= s@.len(),
            match res {
                Some(k) => find_tag_end(s@.skip(i as int)) == Some(k as int),
                None => find_tag_end(s@.skip(i as int)) is None,
            },
        decreases i - from,
    {
        let c = s[i - 1];
        assert(s@.skip(i - 1).drop_first() =~= s@.skip(i as int));
        if is_whitespace(c) || c == '>' {
            res = Some(0);
        } else {
            proof {
                lemma_find_tag_end(s@.skip(i as int));
            }
            res = match res {
                Some(k) => Some(k + 1),
                None => None,
            };
        }
        i -= 1;
    }
    res
}

/// The HTML003 finding for a `<` at character index `p` of `s`, if any.
pub open spec fn html003_at(s: Seq<char>, p: int, t: Tmpl) -> Seq<ErrorView> {
    match find_tag_end(s.skip(p + 1)) {
        Some(end) => {
            let name = s.subrange(p + 1, p + 1 + end);
            let b = utf8_len(s.take(p)) + 1int;
            if any_upper(name) {
                seq![at(t, 0, 0, Some(single_fix(t.rule_id, b, b + utf8_len(name) as int, lower(name))))]
            } else {
                seq![]
            }
        },
        None => seq![],
    }
}

/// HTML003 findings for the `<` among the first `n` characters of `s`.
pub open spec fn html003_upto(s: Seq<char>, n: int, t: Tmpl) -> Seq<ErrorView>
    decreases n,
{
    if n <= 0 {
        seq![]
    } else {
        html003_upto(s, n - 1, t) + if s[n - 1] == '<' {
            html003_at(s, n - 1, t)
        } else {
            seq![]
        }
    }
}

/// HTML003: HTML tag should be lowercase.
#[derive(Clone, Copy, Debug)]
pub struct LowercaseTags;

impl Rule for LowercaseTags {
    open spec fn spec_id(&self) -> Seq<char> {
        "HTML003"@
    }

    open spec fn spec_severity(&self) -> Severity {
        Severity::Info
    }

    open spec fn is_pure(&self) -> bool {
        true
    }

    open spec fn accepts(&self, source: Seq<char>, disabled: Seq<Seq<char>>) -> bool {
        true
    }

    open spec fn findings(&self, file: Option<Seq<char>>, source: Seq<char>, disabled: Seq<Seq<char>>) -> Seq<ErrorView> {
        html003_upto(
            source,
            source.len() as int,
            tmpl(file, Severity::Info, "HTML003"@, "HTML tag should be lowercase"@, "Convert tag name to lowercase"@),
        )
    }

    fn id(&self) -> (r: &'static str) {
        "HTML003"
    }

    fn severity(&self) -> (s: Severity) {
        Severity::Info
    }

    fn admits(&self, source: &str, config: &LintConfig) -> (b: bool) {
        true
    }

    fn check(&self, file: Option<&str>, source: &str, report: &mut LintReport, config: &LintConfig) {
        let src = chars_of(source);
        let ghost s = src@;
        let ghost t = tmpl(opt_str_view(file), Severity::Info, "HTML003"@, "HTML tag should be lowercase"@, "Convert tag name to lowercase"@);
        let mut p: usize = 0;
        while p < src.len()
            invariant
                s == src@,
                s == source@,
                utf8_len(s) < usize::MAX,
                p <= s.len(),
                t == tmpl(opt_str_view(file), Severity::Info, "HTML003"@, "HTML tag should be lowercase"@, "Convert tag name to lowercase"@),
                report@ == old(report)@ + html003_upto(s, p as int, t),
            decreases s.len() - p,
        {
            let ghost before = report@;
            if src[p] == '<' {
                let found = find_tag_end_exec(src.as_slice(), p + 1);
                match found {
                    Some(end) => {
                        proof {
                            lemma_find_tag_end(s.skip(p + 1));
                        }
                        let name = slice_of(src.as_slice(), p + 1, p + 1 + end);
                        if has_upper(name.as_slice()) {
                            proof {
                                lemma_utf8_len_subrange(s, 0, p as int);
                                lemma_utf8_len_subrange(s, p + 1, p + 1 + end);
                                lemma_utf8_len_subrange(s, 0, p + 1);
                                assert(s.take(p as int + 1) =~= s.take(p as int).push(s[p as int]));
                                assert(s.take(p as int + 1).drop_last() =~= s.take(p as int));
                                lemma_utf8_len_take(s, p + 1 + end);
                                lemma_utf8_len_subrange(s, p + 1, p + 1 + end);
                                assert(s.take(p as int + 1 + end) =~= s.take(p as int + 1) + s.subrange(p + 1, p + 1 + end));
                                crate::text::lemma_utf8_len_concat(s.take(p as int + 1), s.subrange(p + 1, p + 1 + end));
                            }
                            let b = prefix_bytes(src.as_slice(), p) + 1;
                            let nb = byte_len(name.as_slice());
                            let low = lower_of(name.as_slice());
                            let fix = Fix::single(self.id(), b, b + nb, string_of(low.as_slice()));
                            report.push(finding(file, 0, 0, Severity::Info, self.id(), "HTML tag should be lowercase", "Convert tag name to lowercase", Some(fix)));
                        }
                    },
                    None => {},
                }
            }
            assert(report@ =~= old(report)@ + html003_upto(s, p + 1, t));
            p += 1;
        }
    }
}

/// Number of open tags after scanning the tags of line `l`, starting with
/// `d` open tags: `<.../...>` closes one (if any is open), `<...>` not
/// ending with `/` opens one, and scanning stops at a `<` without `>`.
pub open spec fn tag_depth(l: Seq<char>, d: nat) -> nat
    decreases l.len(),
{
    match find(l, seq!['<']) {
        None => d,
        Some(k) => match find(l.skip(k), seq!['>']) {
            None => d,
            Some(e) => {
                if 0 <= k && 1 <= e && k + e + 1 <= l.len() {
                    let t = trim(l.subrange(k + 1, k + e));
                    let d2: nat = if starts_with(t, "/"@) {
                        if d > 0 {
                            (d - 1) as nat
                        } else {
                            0
                        }
                    } else if !ends_with(t, "/"@) {
                        d + 1
                    } else {
                        d
                    };
                    tag_depth(l.skip(k + e + 1), d2)
                } else {
                    d
                }
            },
        },
    }
}

/// Number of open tags after all lines `ls`.
pub open spec fn html_depth(ls: Seq<Seq<char>>) -> nat
    decreases ls.len(),
{
    if ls.len() == 0 {
        0
    } else {
        tag_depth(ls.last(), html_depth(ls.drop_last()))
    }
}

proof fn lemma_tag_depth_bound(l: Seq<char>, d: nat)
    ensures
        tag_depth(l, d) <= d + l.len(),
    decreases l.len(),
{
    if let Some(k) = find(l, seq!['<']) {
        if let Some(e) = find(l.skip(k), seq!['>']) {
            if 0 <= k && 1 <= e && k + e + 1 <= l.len() {
                let t = trim(l.subrange(k + 1, k + e));
                let d2: nat = if starts_with(t, "/"@) {
                    if d > 0 {
                        (d - 1) as nat
                    } else {
                        0
                    }
                } else if !ends_with(t, "/"@) {
                    d + 1
                } else {
                    d
                };
                lemma_tag_depth_bound(l.skip(k + e + 1), d2);
            }
        }
    }
}

/// Exec `tag_depth`.
fn tag_depth_exec(l: &[char], d: usize) -> (r: usize)
    requires
        d + l@.len() <= usize::MAX,
    ensures
        r == tag_depth(l@, d as nat),
{
    let mut rest = slice_of(l, 0, l.len());
    let mut depth = d;
    assert(l@.subrange(0, l@.len() as int) =~= l@);
    loop
        invariant
            depth + rest@.len() <= usize::MAX,
            tag_depth(l@, d as nat) == tag_depth(rest@, depth as nat),
        decreases rest@.len(),
    {
        let ghost r = rest@;
        match find_char(rest.as_slice(), '<') {
            None => {
                return depth;
            },
            Some(k) => {
                proof {
                    lemma_find(r, seq!['<']);
                }
                let after = slice_of(rest.as_slice(), k, rest.len());
                assert(after@ =~= r.skip(k as int));
                match find_char(after.as_slice(), '>') {
                    None => {
                        return depth;
                    },
                    Some(e) => {
                        proof {
                            lemma_find(r.skip(k as int), seq!['>']);
                            assert(r.skip(k as int)[0] == '<');
                            if e == 0 {
                                assert(r.skip(k as int).subrange(0, 1) =~= seq!['<']);
                            }
                        }
                        let tag = slice_of(rest.as_slice(), k + 1, k + e);
                        let t = trimmed(tag.as_slice());
                        if starts_with_lit(t.as_slice(), "/") {
                            if depth > 0 {
                                depth = depth - 1;
                            }
                        } else if !ends_with_lit(t.as_slice(), "/") {
                            depth = depth + 1;
                        }
                        let next = slice_of(rest.as_slice(), k + e + 1, rest.len());
                        assert(next@ =~= r.skip(k + e + 1));
                        rest = next;
                    },
                }
            },
        }
    }
}

/// HTML005: Potential missing closing tag.
#[derive(Clone, Copy, Debug)]
pub struct MissingClosingTag;

impl Rule for MissingClosingTag {
    open spec fn spec_id(&self) -> Seq<char> {
        "HTML005"@
    }

    open spec fn spec_severity(&self) -> Severity {
        Severity::Error
    }

    open spec fn is_pure(&self) -> bool {
        true
    }

    open spec fn accepts(&self, source: Seq<char>, disabled: Seq<Seq<char>>) -> bool {
        true
    }

    open spec fn findings(&self, file: Option<Seq<char>>, source: Seq<char>, disabled: Seq<Seq<char>>) -> Seq<ErrorView> {
        if html_depth(lines(source)) > 0 {
            seq![at(tmpl(file, Severity::Error, "HTML005"@, "Potential missing closing tag"@, "Check your HTML tags"@), 0, 0, None)]
        } else {
            seq![]
        }
    }

    fn id(&self) -> (r: &'static str) {
        "HTML005"
    }

    fn severity(&self) -> (s: Severity) {
        Severity::Error
    }

    fn admits(&self, source: &str, config: &LintConfig) -> (b: bool) {
        true
    }

    fn check(&self, file: Option<&str>, source: &str, report: &mut LintReport, config: &LintConfig) {
        let ls = lines_of_str(source);
        proof {
            lemma_lines_bounds(source@);
            lemma_lines_total(source@);
        }
        let ghost v = views(ls@);
        let mut depth: usize = 0;
        let mut i: usize = 0;
        while i < ls.len()
            invariant
                v == views(ls@),
                v == lines(source@),
                utf8_len(source@) < usize::MAX,
                total_chars(v) <= utf8_len(source@) + 1,
                i <= ls@.len(),
                depth == html_depth(v.take(i as int)),
                depth <= total_chars(v.take(i as int)),
            decreases ls@.len() - i,
        {
            assert(v.take(i + 1).drop_last() =~= v.take(i as int));
            assert(v[i as int] == ls@[i as int]@);
            proof {
                lemma_total_chars_take(v, i + 1);
                lemma_tag_depth_bound(v[i as int], depth as nat);
            }
            depth = tag_depth_exec(ls[i].as_slice(), depth);
            i += 1;
        }
        assert(v.take(i as int) =~= v);
        if depth > 0 {
            report.push(finding(file, 0, 0, Severity::Error, self.id(), "Potential missing closing tag", "Check your HTML tags", None));
        }
    }
}

/// The rules of the HTML rule set, in order.
pub open spec fn rule_set() -> Seq<LintRule> {
    seq![LintRule::HTML001(TrailingWhitespace), LintRule::HTML002(MissingDoctype), LintRule::HTML003(LowercaseTags), LintRule::HTML004(EmptyAltAttribute), LintRule::HTML005(MissingClosingTag), LintRule::HTML006(MultipleSpacesBetweenAttributes)]
}

/// The HTML rule set.
pub fn linter() -> (l: Linter)
    ensures
        l@ == rule_set(),
{
    let l = Linter::new();
    assert(l@ == Seq::<LintRule>::empty());
    proof {
        lemma_fresh(l@, LintRule::HTML001(TrailingWhitespace));
    }
    let l = l.add_rule(LintRule::HTML001(TrailingWhitespace));
    proof {
        reveal_strlit("HTML001");
        reveal_strlit("HTML002");
        assert("HTML001"@[6] != "HTML002"@[6]);
        lemma_fresh(l@, LintRule::HTML002(MissingDoctype));
    }
    let l = l.add_rule(LintRule::HTML002(MissingDoctype));
    proof {
        reveal_strlit("HTML001");
        reveal_strlit("HTML002");
        reveal_strlit("HTML003");
        assert("HTML001"@[6] != "HTML003"@[6]);
        assert("HTML002"@[6] != "HTML003"@[6]);
        lemma_fresh(l@, LintRule::HTML003(LowercaseTags));
    }
    let l = l.add_rule(LintRule::HTML003(LowercaseTags));
    proof {
        reveal_strlit("HTML001");
        reveal_strlit("HTML002");
        reveal_strlit("HTML003");
        reveal_strlit("HTML004");
        assert("HTML001"@[6] != "HTML004"@[6]);
        assert("HTML002"@[6] != "HTML004"@[6]);
        assert("HTML003"@[6] != "HTML004"@[6]);
        lemma_fresh(l@, LintRule::HTML004(EmptyAltAttribute));
    }
    let l = l.add_rule(LintRule::HTML004(EmptyAltAttribute));
    proof {
        reveal_strlit("HTML001");
        reveal_strlit("HTML002");
        reveal_strlit("HTML003");
        reveal_strlit("HTML004");
        reveal_strlit("HTML005");
        assert("HTML001"@[6] != "HTML005"@[6]);
        assert("HTML002"@[6] != "HTML005"@[6]);
        assert("HTML003"@[6] != "HTML005"@[6]);
        assert("HTML004"@[6] != "HTML005"@[6]);
        lemma_fresh(l@, LintRule::HTML005(MissingClosingTag));
    }
    let l = l.add_rule(LintRule::HTML005(MissingClosingTag));
    proof {
        reveal_strlit("HTML001");
        reveal_strlit("HTML002");
        reveal_strlit("HTML003");
        reveal_strlit("HTML004");
        reveal_strlit("HTML005");
        reveal_strlit("HTML006");
        assert("HTML001"@[6] != "HTML006"@[6]);
        assert("HTML002"@[6] != "HTML006"@[6]);
        assert("HTML003"@[6] != "HTML006"@[6]);
        assert("HTML004"@[6] != "HTML006"@[6]);
        assert("HTML005"@[6] != "HTML006"@[6]);
        lemma_fresh(l@, LintRule::HTML006(MultipleSpacesBetweenAttributes));
    }
    let l = l.add_rule(LintRule::HTML006(MultipleSpacesBetweenAttributes));
    l
}

} // verus!
