//! NASM
use vstd::prelude::*;
use crate::lint::config::{LintConfig, enabled};
use crate::lint::error::{ErrorView, Severity, opt_str_view};
use crate::lint::linter::{Linter, lemma_fresh};
use crate::lint::registry::LintRule;
use crate::lint::report::LintReport;
use crate::lint::rule::Rule;
use crate::lint::edit::{Fix, single_fix};
use crate::lint::support::{lemma_line_fits, sum_pieces, line_offset, Tmpl, at, col_errors, hit_cols, once, tmpl, finding, make_error, report_hits, report_once, report_cols, lemma_lines_bounds, lemma_lines_total, total_chars, lemma_total_chars_take};
use crate::linters::common::{count_matches, count_matches_exec, count_lit, find_col, find_col_exec, word_errors, report_words, comma_needs_space, comma_needs_space_exec, brace_needs_space, brace_needs_space_exec, brace_prev_ascii, brace_prev_ascii_exec, match_errors, report_matches, all_true, trues, trailing_ws_errors, acc_offsets, piece_offsets, report_trailing_ws, acc_offsets_exec, piece_offsets_exec, unreachable_errors, report_unreachable};
use crate::text::{lines, views, contains, starts_with, ends_with, trim, trim_start, trim_end, upper, lower, chars_of, lines_of_str, contains_lit, starts_with_lit, ends_with_lit, eq_lit, trimmed, trimmed_start, trimmed_end, upper_of, lower_of, owned, string_of, slice_of, find, find_char, find_lit, find_chars, lemma_find, matches_at, is_ws, is_whitespace, utf8_len, byte_len, prefix_bytes, any_upper, has_upper, lemma_utf8_len_take, lemma_utf8_len_subrange, split_char, fits, match_indices, match_positions_lit, char_width, split_on, contains_char, numeric_char, is_numeric};

verus! {

/// ASM001: Trailing whitespace.
#[derive(Clone, Copy, Debug)]
pub struct TrailingWhitespace;

impl Rule for TrailingWhitespace {
    open spec fn spec_id(&self) -> Seq<char> {
        "ASM001"@
    }

    open spec fn spec_severity(&self) -> Severity {
        Severity::Info
    }

    open spec fn is_pure(&self) -> bool {
        true
    }

    open spec fn accepts(&self, source: Seq<char>, disabled: Seq<Seq<char>>) -> bool {
        true
    }

    fn id(&self) -> (r: &'static str) {
        "ASM001"
    }

    fn severity(&self) -> (s: Severity) {
        Severity::Info
    }

    fn admits(&self, source: &str, config: &LintConfig) -> (b: bool) {
        true
    }

    open spec fn findings(&self, file: Option<Seq<char>>, source: Seq<char>, disabled: Seq<Seq<char>>) -> Seq<ErrorView> {
        if enabled(disabled, "ASM001"@) {
            trailing_ws_errors(lines(source), acc_offsets(lines(source)), tmpl(file, Severity::Info, "ASM001"@, "Trailing whitespace"@, "Remove trailing whitespace"@))
        } else {
            seq![]
        }
    }

    fn check(&self, file: Option<&str>, source: &str, report: &mut LintReport, config: &LintConfig) {
        if !config.is_enabled(self.id()) {
            return;
        }
        let ls = lines_of_str(source);
        proof {
            lemma_lines_bounds(source@);
        }
        let offs = acc_offsets_exec(&ls, Ghost(source@));
        report_trailing_ws(report, file, &ls, &offs, Severity::Info, "ASM001", "Trailing whitespace", "Remove trailing whitespace");
    }
}

/// ASM010: Missing 'global _start' declaration.
#[derive(Clone, Copy, Debug)]
pub struct MissingGlobalStart;

/// Whether ASM010 reports a source.
pub open spec fn asm010_hit(file: Option<Seq<char>>, src: Seq<char>) -> bool {
    contains(src, "_start:"@) && !contains(src, "global _start"@)
}

fn asm010_test(file: Option<&str>, src: &[char]) -> (b: bool)
    requires
        fits(src@),
    ensures
        b == asm010_hit(opt_str_view(file), src@),
{
    contains_lit(src, "_start:") && !contains_lit(src, "global _start")
}

impl Rule for MissingGlobalStart {
    open spec fn spec_id(&self) -> Seq<char> {
        "ASM010"@
    }

    open spec fn spec_severity(&self) -> Severity {
        Severity::Warning
    }

    open spec fn is_pure(&self) -> bool {
        true
    }

    open spec fn accepts(&self, source: Seq<char>, disabled: Seq<Seq<char>>) -> bool {
        true
    }

    fn id(&self) -> (r: &'static str) {
        "ASM010"
    }

    fn severity(&self) -> (s: Severity) {
        Severity::Warning
    }

    fn admits(&self, source: &str, config: &LintConfig) -> (b: bool) {
        true
    }

    open spec fn findings(&self, file: Option<Seq<char>>, source: Seq<char>, disabled: Seq<Seq<char>>) -> Seq<ErrorView> {
        if enabled(disabled, "ASM010"@) {
            once(asm010_hit(file, source), tmpl(file, Severity::Warning, "ASM010"@, "Missing 'global _start' declaration"@, "Add 'global _start' before label"@))
        } else {
            seq![]
        }
    }

    fn check(&self, file: Option<&str>, source: &str, report: &mut LintReport, config: &LintConfig) {
        if !config.is_enabled(self.id()) {
            return;
        }
        let src = chars_of(source);
        let hit = asm010_test(file, src.as_slice());
        report_once(report, file, hit, Severity::Warning, "ASM010", "Missing 'global _start' declaration", "Add 'global _start' before label");
    }
}

/// ASM020: Unknown software interrupt used.
#[derive(Clone, Copy, Debug)]
pub struct UnsafeIntUsage;

/// Whether a line is reported by ASM020.
pub open spec fn asm020_hit(l: Seq<char>) -> bool {
    contains(l, "int "@) && !contains(l, "int 0x80"@)
}

fn asm020_test(l: &[char]) -> (b: bool)
    ensures
        b == asm020_hit(l@),
{
    contains_lit(l, "int ") && !contains_lit(l, "int 0x80")
}

impl Rule for UnsafeIntUsage {
    open spec fn spec_id(&self) -> Seq<char> {
        "ASM020"@
    }

    open spec fn spec_severity(&self) -> Severity {
        Severity::Error
    }

    open spec fn is_pure(&self) -> bool {
        true
    }

    open spec fn accepts(&self, source: Seq<char>, disabled: Seq<Seq<char>>) -> bool {
        true
    }

    fn id(&self) -> (r: &'static str) {
        "ASM020"
    }

    fn severity(&self) -> (s: Severity) {
        Severity::Error
    }

    fn admits(&self, source: &str, config: &LintConfig) -> (b: bool) {
        true
    }

    open spec fn findings(&self, file: Option<Seq<char>>, source: Seq<char>, disabled: Seq<Seq<char>>) -> Seq<ErrorView> {
        if enabled(disabled, "ASM020"@) {
            col_errors(hit_cols(lines(source).map_values(|l: Seq<char>| asm020_hit(l))), tmpl(file, Severity::Error, "ASM020"@, "Unknown software interrupt used"@, "Verify interrupt usage"@))
        } else {
            seq![]
        }
    }

    fn check(&self, file: Option<&str>, source: &str, report: &mut LintReport, config: &LintConfig) {
        if !config.is_enabled(self.id()) {
            return;
        }
        let ls = lines_of_str(source);
        proof {
            lemma_lines_bounds(source@);
        }
        let mut hits: Vec<bool> = Vec::new();
        let mut i: usize = 0;
        while i < ls.len()
            invariant
                i <= ls@.len(),
                hits@.len() == i,
                views(ls@) == lines(source@),
                forall|j: int| 0 <= j < i ==> hits@[j] == asm020_hit(lines(source@)[j]),
            decreases ls@.len() - i,
        {
            assert(views(ls@)[i as int] == ls@[i as int]@);
            hits.push(asm020_test(ls[i].as_slice()));
            i += 1;
        }
        assert(hits@ =~= lines(source@).map_values(|l: Seq<char>| asm020_hit(l)));
        report_hits(report, file, &hits, Severity::Error, "ASM020", "Unknown software interrupt used", "Verify interrupt usage");
    }
}

/// ASM060: Possible hardcoded memory address.
#[derive(Clone, Copy, Debug)]
pub struct HardcodedAddress;

/// Whether a line is reported by ASM060.
pub open spec fn asm060_hit(l: Seq<char>) -> bool {
    contains(l, "0x"@) && contains(l, "["@)
}

fn asm060_test(l: &[char]) -> (b: bool)
    ensures
        b == asm060_hit(l@),
{
    contains_lit(l, "0x") && contains_lit(l, "[")
}

impl Rule for HardcodedAddress {
    open spec fn spec_id(&self) -> Seq<char> {
        "ASM060"@
    }

    open spec fn spec_severity(&self) -> Severity {
        Severity::Warning
    }

    open spec fn is_pure(&self) -> bool {
        true
    }

    open spec fn accepts(&self, source: Seq<char>, disabled: Seq<Seq<char>>) -> bool {
        true
    }

    fn id(&self) -> (r: &'static str) {
        "ASM060"
    }

    fn severity(&self) -> (s: Severity) {
        Severity::Warning
    }

    fn admits(&self, source: &str, config: &LintConfig) -> (b: bool) {
        true
    }

    open spec fn findings(&self, file: Option<Seq<char>>, source: Seq<char>, disabled: Seq<Seq<char>>) -> Seq<ErrorView> {
        if enabled(disabled, "ASM060"@) {
            col_errors(hit_cols(lines(source).map_values(|l: Seq<char>| asm060_hit(l))), tmpl(file, Severity::Warning, "ASM060"@, "Possible hardcoded memory address"@, "Use labels instead of raw addresses"@))
        } else {
            seq![]
        }
    }

    fn check(&self, file: Option<&str>, source: &str, report: &mut LintReport, config: &LintConfig) {
        if !config.is_enabled(self.id()) {
            return;
        }
        let ls = lines_of_str(source);
        proof {
            lemma_lines_bounds(source@);
        }
        let mut hits: Vec<bool> = Vec::new();
        let mut i: usize = 0;
        while i < ls.len()
            invariant
                i <= ls@.len(),
                hits@.len() == i,
                views(ls@) == lines(source@),
                forall|j: int| 0 <= j < i ==> hits@[j] == asm060_hit(lines(source@)[j]),
            decreases ls@.len() - i,
        {
            assert(views(ls@)[i as int] == ls@[i as int]@);
            hits.push(asm060_test(ls[i].as_slice()));
            i += 1;
        }
        assert(hits@ =~= lines(source@).map_values(|l: Seq<char>| asm060_hit(l)));
        report_hits(report, file, &hits, Severity::Warning, "ASM060", "Possible hardcoded memory address", "Use labels instead of raw addresses");
    }
}

/// ASM070: Missing BITS directive.
#[derive(Clone, Copy, Debug)]
pub struct MissingBitsDirective;

/// Whether ASM070 reports a source.
pub open spec fn asm070_hit(file: Option<Seq<char>>, src: Seq<char>) -> bool {
    !contains(src, "BITS 64"@) && !contains(src, "BITS 32"@)
}

fn asm070_test(file: Option<&str>, src: &[char]) -> (b: bool)
    requires
        fits(src@),
    ensures
        b == asm070_hit(opt_str_view(file), src@),
{
    !contains_lit(src, "BITS 64") && !contains_lit(src, "BITS 32")
}

impl Rule for MissingBitsDirective {
    open spec fn spec_id(&self) -> Seq<char> {
        "ASM070"@
    }

    open spec fn spec_severity(&self) -> Severity {
        Severity::Warning
    }

    open spec fn is_pure(&self) -> bool {
        true
    }

    open spec fn accepts(&self, source: Seq<char>, disabled: Seq<Seq<char>>) -> bool {
        true
    }

    fn id(&self) -> (r: &'static str) {
        "ASM070"
    }

    fn severity(&self) -> (s: Severity) {
        Severity::Warning
    }

    fn admits(&self, source: &str, config: &LintConfig) -> (b: bool) {
        true
    }

    open spec fn findings(&self, file: Option<Seq<char>>, source: Seq<char>, disabled: Seq<Seq<char>>) -> Seq<ErrorView> {
        if enabled(disabled, "ASM070"@) {
            once(asm070_hit(file, source), tmpl(file, Severity::Warning, "ASM070"@, "Missing BITS directive"@, "Add BITS 64 or BITS 32"@))
        } else {
            seq![]
        }
    }

    fn check(&self, file: Option<&str>, source: &str, report: &mut LintReport, config: &LintConfig) {
        if !config.is_enabled(self.id()) {
            return;
        }
        let src = chars_of(source);
        let hit = asm070_test(file, src.as_slice());
        report_once(report, file, hit, Severity::Warning, "ASM070", "Missing BITS directive", "Add BITS 64 or BITS 32");
    }
}

/// ASM081: Zeroing register with mov.
#[derive(Clone, Copy, Debug)]
pub struct ZeroWithMovInsteadOfXor;

/// Whether a line is reported by ASM081.
pub open spec fn asm081_hit(l: Seq<char>) -> bool {
    contains(l, "mov"@) && contains(l, ", 0"@)
}

fn asm081_test(l: &[char]) -> (b: bool)
    ensures
        b == asm081_hit(l@),
{
    contains_lit(l, "mov") && contains_lit(l, ", 0")
}

impl Rule for ZeroWithMovInsteadOfXor {
    open spec fn spec_id(&self) -> Seq<char> {
        "ASM081"@
    }

    open spec fn spec_severity(&self) -> Severity {
        Severity::Info
    }

    open spec fn is_pure(&self) -> bool {
        true
    }

    open spec fn accepts(&self, source: Seq<char>, disabled: Seq<Seq<char>>) -> bool {
        true
    }

    fn id(&self) -> (r: &'static str) {
        "ASM081"
    }

    fn severity(&self) -> (s: Severity) {
        Severity::Info
    }

    fn admits(&self, source: &str, config: &LintConfig) -> (b: bool) {
        true
    }

    open spec fn findings(&self, file: Option<Seq<char>>, source: Seq<char>, disabled: Seq<Seq<char>>) -> Seq<ErrorView> {
        if enabled(disabled, "ASM081"@) {
            col_errors(hit_cols(lines(source).map_values(|l: Seq<char>| asm081_hit(l))), tmpl(file, Severity::Info, "ASM081"@, "Zeroing register with mov"@, "Use xor reg, reg for zeroing"@))
        } else {
            seq![]
        }
    }

    fn check(&self, file: Option<&str>, source: &str, report: &mut LintReport, config: &LintConfig) {
        if !config.is_enabled(self.id()) {
            return;
        }
        let ls = lines_of_str(source);
        proof {
            lemma_lines_bounds(source@);
        }
        let mut hits: Vec<bool> = Vec::new();
        let mut i: usize = 0;
        while i < ls.len()
            invariant
                i <= ls@.len(),
                hits@.len() == i,
                views(ls@) == lines(source@),
                forall|j: int| 0 <= j < i ==> hits@[j] == asm081_hit(lines(source@)[j]),
            decreases ls@.len() - i,
        {
            assert(views(ls@)[i as int] == ls@[i as int]@);
            hits.push(asm081_test(ls[i].as_slice()));
            i += 1;
        }
        assert(hits@ =~= lines(source@).map_values(|l: Seq<char>| asm081_hit(l)));
        report_hits(report, file, &hits, Severity::Info, "ASM081", "Zeroing register with mov", "Use xor reg, reg for zeroing");
    }
}

/// ASM011: Multiple .text sections detected.
#[derive(Clone, Copy, Debug)]
pub struct MultipleTextSections;

/// Whether ASM011 reports a source.
pub open spec fn asm011_hit(file: Option<Seq<char>>, src: Seq<char>) -> bool {
    count_matches(src, "section .text"@) > 1
}

fn asm011_test(file: Option<&str>, src: &[char]) -> (b: bool)
    requires
        fits(src@),
    ensures
        b == asm011_hit(opt_str_view(file), src@),
{
    count_lit(src, "section .text") > 1
}

impl Rule for MultipleTextSections {
    open spec fn spec_id(&self) -> Seq<char> {
        "ASM011"@
    }

    open spec fn spec_severity(&self) -> Severity {
        Severity::Warning
    }

    open spec fn is_pure(&self) -> bool {
        true
    }

    open spec fn accepts(&self, source: Seq<char>, disabled: Seq<Seq<char>>) -> bool {
        true
    }

    fn id(&self) -> (r: &'static str) {
        "ASM011"
    }

    fn severity(&self) -> (s: Severity) {
        Severity::Warning
    }

    fn admits(&self, source: &str, config: &LintConfig) -> (b: bool) {
        true
    }

    open spec fn findings(&self, file: Option<Seq<char>>, source: Seq<char>, disabled: Seq<Seq<char>>) -> Seq<ErrorView> {
        if enabled(disabled, "ASM011"@) {
            once(asm011_hit(file, source), tmpl(file, Severity::Warning, "ASM011"@, "Multiple .text sections detected"@, "Consolidate into a single section"@))
        } else {
            seq![]
        }
    }

    fn check(&self, file: Option<&str>, source: &str, report: &mut LintReport, config: &LintConfig) {
        if !config.is_enabled(self.id()) {
            return;
        }
        let src = chars_of(source);
        let hit = asm011_test(file, src.as_slice());
        report_once(report, file, hit, Severity::Warning, "ASM011", "Multiple .text sections detected", "Consolidate into a single section");
    }
}



/// ASM021: Deprecated in\nstruction '....
#[derive(Clone, Copy, Debug)]
pub struct DeprecatedInstruction;

impl Rule for DeprecatedInstruction {
    open spec fn spec_id(&self) -> Seq<char> {
        "ASM021"@
    }

    open spec fn spec_severity(&self) -> Severity {
        Severity::Warning
    }

    open spec fn is_pure(&self) -> bool {
        true
    }

    open spec fn accepts(&self, source: Seq<char>, disabled: Seq<Seq<char>>) -> bool {
        true
    }

    fn id(&self) -> (r: &'static str) {
        "ASM021"
    }

    fn severity(&self) -> (s: Severity) {
        Severity::Warning
    }

    fn admits(&self, source: &str, config: &LintConfig) -> (b: bool) {
        true
    }

    open spec fn findings(&self, file: Option<Seq<char>>, source: Seq<char>, disabled: Seq<Seq<char>>) -> Seq<ErrorView> {
        if enabled(disabled, "ASM021"@) {
            word_errors(lines(source), seq!["aaa"@, "aad"@, "aam"@, "aas"@], true, tmpl(file, Severity::Warning, "ASM021"@, Seq::empty(), "Avoid legacy BCD in\nstructions"@), "Deprecated in\nstruction '"@, "'"@)
        } else {
            seq![]
        }
    }

    fn check(&self, file: Option<&str>, source: &str, report: &mut LintReport, config: &LintConfig) {
        if !config.is_enabled(self.id()) {
            return;
        }
        let ls = lines_of_str(source);
        let words: [&str; 4] = ["aaa", "aad", "aam", "aas"];
        report_words(report, file, &ls, &words, true, Severity::Warning, "ASM021", "Deprecated in\nstruction '", "'", "Avoid legacy BCD in\nstructions", Ghost(source@));
        assert(words@.map_values(|w: &str| w@) =~= seq!["aaa"@, "aad"@, "aam"@, "aas"@]);
    }
}



/// ASM030: Stack imbalance detected (push/pop mismatch).
#[derive(Clone, Copy, Debug)]
pub struct StackImbalance;

/// Whether ASM030 reports a source.
pub open spec fn asm030_hit(file: Option<Seq<char>>, src: Seq<char>) -> bool {
    count_matches(src, "push "@) != count_matches(src, "pop "@)
}

fn asm030_test(file: Option<&str>, src: &[char]) -> (b: bool)
    requires
        fits(src@),
    ensures
        b == asm030_hit(opt_str_view(file), src@),
{
    count_lit(src, "push ") != count_lit(src, "pop ")
}

impl Rule for StackImbalance {
    open spec fn spec_id(&self) -> Seq<char> {
        "ASM030"@
    }

    open spec fn spec_severity(&self) -> Severity {
        Severity::Error
    }

    open spec fn is_pure(&self) -> bool {
        true
    }

    open spec fn accepts(&self, source: Seq<char>, disabled: Seq<Seq<char>>) -> bool {
        true
    }

    fn id(&self) -> (r: &'static str) {
        "ASM030"
    }

    fn severity(&self) -> (s: Severity) {
        Severity::Error
    }

    fn admits(&self, source: &str, config: &LintConfig) -> (b: bool) {
        true
    }

    open spec fn findings(&self, file: Option<Seq<char>>, source: Seq<char>, disabled: Seq<Seq<char>>) -> Seq<ErrorView> {
        if enabled(disabled, "ASM030"@) {
            once(asm030_hit(file, source), tmpl(file, Severity::Error, "ASM030"@, "Stack imbalance detected (push/pop mismatch)"@, "Ensure pushes match pops"@))
        } else {
            seq![]
        }
    }

    fn check(&self, file: Option<&str>, source: &str, report: &mut LintReport, config: &LintConfig) {
        if !config.is_enabled(self.id()) {
            return;
        }
        let src = chars_of(source);
        let hit = asm030_test(file, src.as_slice());
        report_once(report, file, hit, Severity::Error, "ASM030", "Stack imbalance detected (push/pop mismatch)", "Ensure pushes match pops");
    }
}



/// ASM031: Push without return or pop.
#[derive(Clone, Copy, Debug)]
pub struct PushWithoutPop;

/// Whether line `l` of source `src` is reported by ASM031.
pub open spec fn asm031_hit(l: Seq<char>, src: Seq<char>) -> bool {
    starts_with(trim_start(l), "push"@) && !contains(src, "ret"@)
}

fn asm031_test(l: &[char], src: &[char]) -> (b: bool)
    requires
        fits(src@),
    ensures
        b == asm031_hit(l@, src@),
{
    starts_with_lit(trimmed_start(l).as_slice(), "push") && !contains_lit(src, "ret")
}

impl Rule for PushWithoutPop {
    open spec fn spec_id(&self) -> Seq<char> {
        "ASM031"@
    }

    open spec fn spec_severity(&self) -> Severity {
        Severity::Warning
    }

    open spec fn is_pure(&self) -> bool {
        true
    }

    open spec fn accepts(&self, source: Seq<char>, disabled: Seq<Seq<char>>) -> bool {
        true
    }

    fn id(&self) -> (r: &'static str) {
        "ASM031"
    }

    fn severity(&self) -> (s: Severity) {
        Severity::Warning
    }

    fn admits(&self, source: &str, config: &LintConfig) -> (b: bool) {
        true
    }

    open spec fn findings(&self, file: Option<Seq<char>>, source: Seq<char>, disabled: Seq<Seq<char>>) -> Seq<ErrorView> {
        if enabled(disabled, "ASM031"@) {
            col_errors(hit_cols(lines(source).map_values(|l: Seq<char>| asm031_hit(l, source))), tmpl(file, Severity::Warning, "ASM031"@, "Push without return or pop"@, "Check stack discipline"@))
        } else {
            seq![]
        }
    }

    fn check(&self, file: Option<&str>, source: &str, report: &mut LintReport, config: &LintConfig) {
        if !config.is_enabled(self.id()) {
            return;
        }
        let src = chars_of(source);
        let ls = lines_of_str(source);
        proof {
            lemma_lines_bounds(source@);
        }
        let mut hits: Vec<bool> = Vec::new();
        let mut i: usize = 0;
        while i < ls.len()
            invariant
                i <= ls@.len(),
                hits@.len() == i,
                src@ == source@,
                fits(source@),
                views(ls@) == lines(source@),
                forall|j: int| 0 <= j < i ==> hits@[j] == asm031_hit(lines(source@)[j], source@),
            decreases ls@.len() - i,
        {
            assert(views(ls@)[i as int] == ls@[i as int]@);
            hits.push(asm031_test(ls[i].as_slice(), src.as_slice()));
            i += 1;
        }
        assert(hits@ =~= lines(source@).map_values(|l: Seq<char>| asm031_hit(l, source@)));
        report_hits(report, file, &hits, Severity::Warning, "ASM031", "Push without return or pop", "Check stack discipline");
    }
}



/// `str::trim_end_matches(':')`.
pub open spec fn strip_colons(l: Seq<char>) -> Seq<char>
    decreases l.len(),
{
    if l.len() > 0 && l.last() == ':' {
        strip_colons(l.drop_last())
    } else {
        l
    }
}

fn strip_colons_exec(l: &[char]) -> (r: Vec<char>)
    ensures
        r@ == strip_colons(l@),
{
    let mut k: usize = l.len();
    assert(l@.take(l@.len() as int) =~= l@);
    while k > 0 && l[k - 1] == ':'
        invariant
            k <= l@.len(),
            strip_colons(l@) == strip_colons(l@.take(k as int)),
        decreases k,
    {
        assert(l@.take(k as int).drop_last() =~= l@.take(k - 1));
        k -= 1;
    }
    slice_of(l, 0, k)
}

/// ASM040 findings on the lines `ls` of source `src`: one per line ending
/// with `:` whose label occurs exactly once in `src`.
pub open spec fn asm040_errors(ls: Seq<Seq<char>>, src: Seq<char>, t: Tmpl) -> Seq<ErrorView>
    decreases ls.len(),
{
    if ls.len() == 0 {
        seq![]
    } else {
        let l = ls.last();
        asm040_errors(ls.drop_last(), src, t) + if ends_with(l, ":"@) && count_matches(src, strip_colons(l)) == 1 {
            seq![ErrorView { message: "Unused label '"@ + strip_colons(l) + "'"@, ..at(t, 1, 1, None) }]
        } else {
            seq![]
        }
    }
}

/// ASM040: Unused label.
#[derive(Clone, Copy, Debug)]
pub struct UnusedLabel;

impl Rule for UnusedLabel {
    open spec fn spec_id(&self) -> Seq<char> {
        "ASM040"@
    }

    open spec fn spec_severity(&self) -> Severity {
        Severity::Warning
    }

    open spec fn is_pure(&self) -> bool {
        true
    }

    open spec fn accepts(&self, source: Seq<char>, disabled: Seq<Seq<char>>) -> bool {
        true
    }

    open spec fn findings(&self, file: Option<Seq<char>>, source: Seq<char>, disabled: Seq<Seq<char>>) -> Seq<ErrorView> {
        if enabled(disabled, "ASM040"@) {
            asm040_errors(lines(source), source, tmpl(file, Severity::Warning, "ASM040"@, Seq::empty(), "Remove unused label"@))
        } else {
            seq![]
        }
    }

    fn id(&self) -> (r: &'static str) {
        "ASM040"
    }

    fn severity(&self) -> (s: Severity) {
        Severity::Warning
    }

    fn admits(&self, source: &str, config: &LintConfig) -> (b: bool) {
        true
    }

    fn check(&self, file: Option<&str>, source: &str, report: &mut LintReport, config: &LintConfig) {
        if !config.is_enabled(self.id()) {
            return;
        }
        let src = chars_of(source);
        let ls = lines_of_str(source);
        let ghost v = views(ls@);
        let ghost t = tmpl(opt_str_view(file), Severity::Warning, "ASM040"@, Seq::empty(), "Remove unused label"@);
        let mut i: usize = 0;
        while i < ls.len()
            invariant
                v == views(ls@),
                src@ == source@,
                fits(source@),
                i <= ls@.len(),
                t == tmpl(opt_str_view(file), Severity::Warning, "ASM040"@, Seq::empty(), "Remove unused label"@),
                report@ == old(report)@ + asm040_errors(v.take(i as int), source@, t),
            decreases ls@.len() - i,
        {
            assert(v.take(i + 1).drop_last() =~= v.take(i as int));
            assert(v[i as int] == ls@[i as int]@);
            let line = ls[i].as_slice();
            if ends_with_lit(line, ":") {
                let label = strip_colons_exec(line);
                if count_matches_exec(src.as_slice(), label.as_slice()) == 1 {
                    let mut msg = owned("Unused label '");
                    crate::text::push_chars(&mut msg, label.as_slice());
                    crate::text::push_str(&mut msg, "'");
                    report.push(make_error(file, 1, 1, Severity::Warning, "ASM040", msg, Some(owned("Remove unused label")), None));
                }
            }
            assert(report@ =~= old(report)@ + asm040_errors(v.take(i + 1), source@, t));
            i += 1;
        }
        assert(v.take(i as int) =~= v);
    }
}

/// Line `i` of `ls` is a `jmp` followed by a label line.
pub open spec fn asm050_hit(ls: Seq<Seq<char>>, i: int) -> bool {
    i + 1 < ls.len() && starts_with(trim_start(ls[i]), "jmp"@) && ends_with(trim_end(ls[i + 1]), ":"@)
}

/// ASM050: Jump to immediately following label.
#[derive(Clone, Copy, Debug)]
pub struct JumpToNextInstruction;

impl Rule for JumpToNextInstruction {
    open spec fn spec_id(&self) -> Seq<char> {
        "ASM050"@
    }

    open spec fn spec_severity(&self) -> Severity {
        Severity::Info
    }

    open spec fn is_pure(&self) -> bool {
        true
    }

    open spec fn accepts(&self, source: Seq<char>, disabled: Seq<Seq<char>>) -> bool {
        true
    }

    open spec fn findings(&self, file: Option<Seq<char>>, source: Seq<char>, disabled: Seq<Seq<char>>) -> Seq<ErrorView> {
        if enabled(disabled, "ASM050"@) {
            col_errors(
                hit_cols(Seq::new(lines(source).len(), |i: int| asm050_hit(lines(source), i))),
                tmpl(file, Severity::Info, "ASM050"@, "Jump to immediately following label"@, "Remove redundant jump"@),
            )
        } else {
            seq![]
        }
    }

    fn id(&self) -> (r: &'static str) {
        "ASM050"
    }

    fn severity(&self) -> (s: Severity) {
        Severity::Info
    }

    fn admits(&self, source: &str, config: &LintConfig) -> (b: bool) {
        true
    }

    fn check(&self, file: Option<&str>, source: &str, report: &mut LintReport, config: &LintConfig) {
        if !config.is_enabled(self.id()) {
            return;
        }
        let ls = lines_of_str(source);
        proof {
            lemma_lines_bounds(source@);
        }
        let ghost v = views(ls@);
        let mut hits: Vec<bool> = Vec::new();
        let mut i: usize = 0;
        while i < ls.len()
            invariant
                v == views(ls@),
                v == lines(source@),
                i <= ls@.len(),
                hits@.len() == i,
                forall|j: int| 0 <= j < i ==> hits@[j] == asm050_hit(v, j),
            decreases ls@.len() - i,
        {
            let h = if i + 1 < ls.len() {
                assert(v[i as int] == ls@[i as int]@);
                assert(v[i + 1] == ls@[i + 1]@);
                starts_with_lit(trimmed_start(ls[i].as_slice()).as_slice(), "jmp") && ends_with_lit(trimmed_end(ls[i + 1].as_slice()).as_slice(), ":")
            } else {
                false
            };
            hits.push(h);
            i += 1;
        }
        assert(hits@ =~= Seq::new(lines(source@).len(), |i: int| asm050_hit(lines(source@), i)));
        report_hits(report, file, &hits, Severity::Info, "ASM050", "Jump to immediately following label", "Remove redundant jump");
    }
}

/// ASM080: Redundant mov in\nstruction.
#[derive(Clone, Copy, Debug)]
pub struct RedundantMov;

/// Whether line `l` of source `src` is reported by ASM080.
pub open spec fn asm080_hit(l: Seq<char>, src: Seq<char>) -> bool {
    contains(l, "mov"@) && split_char(l, ',').len() == 2 && ends_with(trim(split_char(l, ',')[0]), trim(split_char(l, ',')[1]))
}

fn asm080_test(l: &[char], src: &[char]) -> (b: bool)
    requires
        fits(src@),
    ensures
        b == asm080_hit(l@, src@),
{
    if !contains_lit(l, "mov") {
        return false;
    }
    let parts = split_on(l, ',');
    if parts.len() != 2 {
        return false;
    }
    assert(views(parts@)[0] == parts@[0]@);
    assert(views(parts@)[1] == parts@[1]@);
    let a = trimmed(parts[0].as_slice());
    let b = trimmed(parts[1].as_slice());
    crate::text::has_suffix(a.as_slice(), b.as_slice())
}

impl Rule for RedundantMov {
    open spec fn spec_id(&self) -> Seq<char> {
        "ASM080"@
    }

    open spec fn spec_severity(&self) -> Severity {
        Severity::Info
    }

    open spec fn is_pure(&self) -> bool {
        true
    }

    open spec fn accepts(&self, source: Seq<char>, disabled: Seq<Seq<char>>) -> bool {
        true
    }

    fn id(&self) -> (r: &'static str) {
        "ASM080"
    }

    fn severity(&self) -> (s: Severity) {
        Severity::Info
    }

    fn admits(&self, source: &str, config: &LintConfig) -> (b: bool) {
        true
    }

    open spec fn findings(&self, file: Option<Seq<char>>, source: Seq<char>, disabled: Seq<Seq<char>>) -> Seq<ErrorView> {
        if enabled(disabled, "ASM080"@) {
            col_errors(hit_cols(lines(source).map_values(|l: Seq<char>| asm080_hit(l, source))), tmpl(file, Severity::Info, "ASM080"@, "Redundant mov in\nstruction"@, "Remove redundant mov"@))
        } else {
            seq![]
        }
    }

    fn check(&self, file: Option<&str>, source: &str, report: &mut LintReport, config: &LintConfig) {
        if !config.is_enabled(self.id()) {
            return;
        }
        let src = chars_of(source);
        let ls = lines_of_str(source);
        proof {
            lemma_lines_bounds(source@);
        }
        let mut hits: Vec<bool> = Vec::new();
        let mut i: usize = 0;
        while i < ls.len()
            invariant
                i <= ls@.len(),
                hits@.len() == i,
                src@ == source@,
                fits(source@),
                views(ls@) == lines(source@),
                forall|j: int| 0 <= j < i ==> hits@[j] == asm080_hit(lines(source@)[j], source@),
            decreases ls@.len() - i,
        {
            assert(views(ls@)[i as int] == ls@[i as int]@);
            hits.push(asm080_test(ls[i].as_slice(), src.as_slice()));
            i += 1;
        }
        assert(hits@ =~= lines(source@).map_values(|l: Seq<char>| asm080_hit(l, source@)));
        report_hits(report, file, &hits, Severity::Info, "ASM080", "Redundant mov in\nstruction", "Remove redundant mov");
    }
}



/// The rules of the NASM rule set, in order.
pub open spec fn rule_set() -> Seq<LintRule> {
    seq![LintRule::ASM001(TrailingWhitespace), LintRule::ASM010(MissingGlobalStart), LintRule::ASM011(MultipleTextSections), LintRule::ASM020(UnsafeIntUsage), LintRule::ASM021(DeprecatedInstruction), LintRule::ASM030(StackImbalance), LintRule::ASM031(PushWithoutPop), LintRule::ASM040(UnusedLabel), LintRule::ASM050(JumpToNextInstruction), LintRule::ASM060(HardcodedAddress), LintRule::ASM070(MissingBitsDirective), LintRule::ASM080(RedundantMov), LintRule::ASM081(ZeroWithMovInsteadOfXor)]
}

/// The NASM rule set.
pub fn linter() -> (l: Linter)
    ensures
        l@ == rule_set(),
{
    let l = Linter::new();
    assert(l@ == Seq::<LintRule>::empty());
    proof {
        lemma_fresh(l@, LintRule::ASM001(TrailingWhitespace));
    }
    let l = l.add_rule(LintRule::ASM001(TrailingWhitespace));
    proof {
        reveal_strlit("ASM001");
        reveal_strlit("ASM010");
        assert("ASM001"@[4] != "ASM010"@[4]);
        lemma_fresh(l@, LintRule::ASM010(MissingGlobalStart));
    }
    let l = l.add_rule(LintRule::ASM010(MissingGlobalStart));
    proof {
        reveal_strlit("ASM001");
        reveal_strlit("ASM010");
        reveal_strlit("ASM011");
        assert("ASM001"@[4] != "ASM011"@[4]);
        assert("ASM010"@[5] != "ASM011"@[5]);
        lemma_fresh(l@, LintRule::ASM011(MultipleTextSections));
    }
    let l = l.add_rule(LintRule::ASM011(MultipleTextSections));
    proof {
        reveal_strlit("ASM001");
        reveal_strlit("ASM010");
        reveal_strlit("ASM011");
        reveal_strlit("ASM020");
        assert("ASM001"@[4] != "ASM020"@[4]);
        assert("ASM010"@[4] != "ASM020"@[4]);
        assert("ASM011"@[4] != "ASM020"@[4]);
        lemma_fresh(l@, LintRule::ASM020(UnsafeIntUsage));
    }
    let l = l.add_rule(LintRule::ASM020(UnsafeIntUsage));
    proof {
        reveal_strlit("ASM001");
        reveal_strlit("ASM010");
        reveal_strlit("ASM011");
        reveal_strlit("ASM020");
        reveal_strlit("ASM021");
        assert("ASM001"@[4] != "ASM021"@[4]);
        assert("ASM010"@[4] != "ASM021"@[4]);
        assert("ASM011"@[4] != "ASM021"@[4]);
        assert("ASM020"@[5] != "ASM021"@[5]);
        lemma_fresh(l@, LintRule::ASM021(DeprecatedInstruction));
    }
    let l = l.add_rule(LintRule::ASM021(DeprecatedInstruction));
    proof {
        reveal_strlit("ASM001");
        reveal_strlit("ASM010");
        reveal_strlit("ASM011");
        reveal_strlit("ASM020");
        reveal_strlit("ASM021");
        reveal_strlit("ASM030");
        assert("ASM001"@[4] != "ASM030"@[4]);
        assert("ASM010"@[4] != "ASM030"@[4]);
        assert("ASM011"@[4] != "ASM030"@[4]);
        assert("ASM020"@[4] != "ASM030"@[4]);
        assert("ASM021"@[4] != "ASM030"@[4]);
        lemma_fresh(l@, LintRule::ASM030(StackImbalance));
    }
    let l = l.add_rule(LintRule::ASM030(StackImbalance));
    proof {
        reveal_strlit("ASM001");
        reveal_strlit("ASM010");
        reveal_strlit("ASM011");
        reveal_strlit("ASM020");
        reveal_strlit("ASM021");
        reveal_strlit("ASM030");
        reveal_strlit("ASM031");
        assert("ASM001"@[4] != "ASM031"@[4]);
        assert("ASM010"@[4] != "ASM031"@[4]);
        assert("ASM011"@[4] != "ASM031"@[4]);
        assert("ASM020"@[4] != "ASM031"@[4]);
        assert("ASM021"@[4] != "ASM031"@[4]);
        assert("ASM030"@[5] != "ASM031"@[5]);
        lemma_fresh(l@, LintRule::ASM031(PushWithoutPop));
    }
    let l = l.add_rule(LintRule::ASM031(PushWithoutPop));
    proof {
        reveal_strlit("ASM001");
        reveal_strlit("ASM010");
        reveal_strlit("ASM011");
        reveal_strlit("ASM020");
        reveal_strlit("ASM021");
        reveal_strlit("ASM030");
        reveal_strlit("ASM031");
        reveal_strlit("ASM040");
        assert("ASM001"@[4] != "ASM040"@[4]);
        assert("ASM010"@[4] != "ASM040"@[4]);
        assert("ASM011"@[4] != "ASM040"@[4]);
        assert("ASM020"@[4] != "ASM040"@[4]);
        assert("ASM021"@[4] != "ASM040"@[4]);
        assert("ASM030"@[4] != "ASM040"@[4]);
        assert("ASM031"@[4] != "ASM040"@[4]);
        lemma_fresh(l@, LintRule::ASM040(UnusedLabel));
    }
    let l = l.add_rule(LintRule::ASM040(UnusedLabel));
    proof {
        reveal_strlit("ASM001");
        reveal_strlit("ASM010");
        reveal_strlit("ASM011");
        reveal_strlit("ASM020");
        reveal_strlit("ASM021");
        reveal_strlit("ASM030");
        reveal_strlit("ASM031");
        reveal_strlit("ASM040");
        reveal_strlit("ASM050");
        assert("ASM001"@[4] != "ASM050"@[4]);
        assert("ASM010"@[4] != "ASM050"@[4]);
        assert("ASM011"@[4] != "ASM050"@[4]);
        assert("ASM020"@[4] != "ASM050"@[4]);
        assert("ASM021"@[4] != "ASM050"@[4]);
        assert("ASM030"@[4] != "ASM050"@[4]);
        assert("ASM031"@[4] != "ASM050"@[4]);
        assert("ASM040"@[4] != "ASM050"@[4]);
        lemma_fresh(l@, LintRule::ASM050(JumpToNextInstruction));
    }
    let l = l.add_rule(LintRule::ASM050(JumpToNextInstruction));
    proof {
        reveal_strlit("ASM001");
        reveal_strlit("ASM010");
        reveal_strlit("ASM011");
        reveal_strlit("ASM020");
        reveal_strlit("ASM021");
        reveal_strlit("ASM030");
        reveal_strlit("ASM031");
        reveal_strlit("ASM040");
        reveal_strlit("ASM050");
        reveal_strlit("ASM060");
        assert("ASM001"@[4] != "ASM060"@[4]);
        assert("ASM010"@[4] != "ASM060"@[4]);
        assert("ASM011"@[4] != "ASM060"@[4]);
        assert("ASM020"@[4] != "ASM060"@[4]);
        assert("ASM021"@[4] != "ASM060"@[4]);
        assert("ASM030"@[4] != "ASM060"@[4]);
        assert("ASM031"@[4] != "ASM060"@[4]);
        assert("ASM040"@[4] != "ASM060"@[4]);
        assert("ASM050"@[4] != "ASM060"@[4]);
        lemma_fresh(l@, LintRule::ASM060(HardcodedAddress));
    }
    let l = l.add_rule(LintRule::ASM060(HardcodedAddress));
    proof {
        reveal_strlit("ASM001");
        reveal_strlit("ASM010");
        reveal_strlit("ASM011");
        reveal_strlit("ASM020");
        reveal_strlit("ASM021");
        reveal_strlit("ASM030");
        reveal_strlit("ASM031");
        reveal_strlit("ASM040");
        reveal_strlit("ASM050");
        reveal_strlit("ASM060");
        reveal_strlit("ASM070");
        assert("ASM001"@[4] != "ASM070"@[4]);
        assert("ASM010"@[4] != "ASM070"@[4]);
        assert("ASM011"@[4] != "ASM070"@[4]);
        assert("ASM020"@[4] != "ASM070"@[4]);
        assert("ASM021"@[4] != "ASM070"@[4]);
        assert("ASM030"@[4] != "ASM070"@[4]);
        assert("ASM031"@[4] != "ASM070"@[4]);
        assert("ASM040"@[4] != "ASM070"@[4]);
        assert("ASM050"@[4] != "ASM070"@[4]);
        assert("ASM060"@[4] != "ASM070"@[4]);
        lemma_fresh(l@, LintRule::ASM070(MissingBitsDirective));
    }
    let l = l.add_rule(LintRule::ASM070(MissingBitsDirective));
    proof {
        reveal_strlit("ASM001");
        reveal_strlit("ASM010");
        reveal_strlit("ASM011");
        reveal_strlit("ASM020");
        reveal_strlit("ASM021");
        reveal_strlit("ASM030");
        reveal_strlit("ASM031");
        reveal_strlit("ASM040");
        reveal_strlit("ASM050");
        reveal_strlit("ASM060");
        reveal_strlit("ASM070");
        reveal_strlit("ASM080");
        assert("ASM001"@[4] != "ASM080"@[4]);
        assert("ASM010"@[4] != "ASM080"@[4]);
        assert("ASM011"@[4] != "ASM080"@[4]);
        assert("ASM020"@[4] != "ASM080"@[4]);
        assert("ASM021"@[4] != "ASM080"@[4]);
        assert("ASM030"@[4] != "ASM080"@[4]);
        assert("ASM031"@[4] != "ASM080"@[4]);
        assert("ASM040"@[4] != "ASM080"@[4]);
        assert("ASM050"@[4] != "ASM080"@[4]);
        assert("ASM060"@[4] != "ASM080"@[4]);
        assert("ASM070"@[4] != "ASM080"@[4]);
        lemma_fresh(l@, LintRule::ASM080(RedundantMov));
    }
    let l = l.add_rule(LintRule::ASM080(RedundantMov));
    proof {
        reveal_strlit("ASM001");
        reveal_strlit("ASM010");
        reveal_strlit("ASM011");
        reveal_strlit("ASM020");
        reveal_strlit("ASM021");
        reveal_strlit("ASM030");
        reveal_strlit("ASM031");
        reveal_strlit("ASM040");
        reveal_strlit("ASM050");
        reveal_strlit("ASM060");
        reveal_strlit("ASM070");
        reveal_strlit("ASM080");
        reveal_strlit("ASM081");
        assert("ASM001"@[4] != "ASM081"@[4]);
        assert("ASM010"@[4] != "ASM081"@[4]);
        assert("ASM011"@[4] != "ASM081"@[4]);
        assert("ASM020"@[4] != "ASM081"@[4]);
        assert("ASM021"@[4] != "ASM081"@[4]);
        assert("ASM030"@[4] != "ASM081"@[4]);
        assert("ASM031"@[4] != "ASM081"@[4]);
        assert("ASM040"@[4] != "ASM081"@[4]);
        assert("ASM050"@[4] != "ASM081"@[4]);
        assert("ASM060"@[4] != "ASM081"@[4]);
        assert("ASM070"@[4] != "ASM081"@[4]);
        assert("ASM080"@[5] != "ASM081"@[5]);
        lemma_fresh(l@, LintRule::ASM081(ZeroWithMovInsteadOfXor));
    }
    let l = l.add_rule(LintRule::ASM081(ZeroWithMovInsteadOfXor));
    l
}

} // verus!
