//! Turning the fixes of a report into one plan of edits, and applying it.
use vstd::prelude::*;
use crate::lint::edit::{EditView, TextEdit, edit_views};
use crate::lint::error::ErrorView;
use crate::lint::report::LintReport;
use crate::text::{chars_of, lemma_utf8_len_bounds, lemma_utf8_len_subrange, lemma_utf8_len_take, slice_of, string_of, utf8_len, width_of};

verus! {

// ------------------------------------------------------------------
// Building the plan
// ------------------------------------------------------------------

/// The edits of the fixes of `errs`, in order.
pub open spec fn fix_edits(errs: Seq<ErrorView>) -> Seq<EditView>
    decreases errs.len(),
{
    if errs.len() == 0 {
        seq![]
    } else {
        fix_edits(errs.drop_last()) + match errs.last().fix {
            Some(f) => f.edits,
            None => seq![],
        }
    }
}

/// `a` is ordered before `b`: by start, then by end.
pub open spec fn edit_le(a: EditView, b: EditView) -> bool {
    a.start < b.start || (a.start == b.start && a.end <= b.end)
}

/// `x` inserted into `s` after every edit that is not ordered after it.
pub open spec fn insert_edit(s: Seq<EditView>, x: EditView) -> Seq<EditView>
    decreases s.len(),
{
    if s.len() == 0 {
        seq![x]
    } else if edit_le(s.last(), x) {
        s.push(x)
    } else {
        insert_edit(s.drop_last(), x).push(s.last())
    }
}

/// The edits sorted by start, then end, keeping the order of equal ones
/// (the stable sort of `sort_by`).
pub open spec fn sort_edits(es: Seq<EditView>) -> Seq<EditView>
    decreases es.len(),
{
    if es.len() == 0 {
        es
    } else {
        insert_edit(sort_edits(es.drop_last()), es.last())
    }
}

/// From position `i` on: the edits that start at or after the end of the
/// last edit kept (`last_end`), each updating it.
pub open spec fn keep_from(es: Seq<EditView>, i: int, last_end: int) -> Seq<EditView>
    decreases es.len() - i,
{
    if i < 0 || i >= es.len() {
        seq![]
    } else if es[i].start >= last_end {
        seq![es[i]] + keep_from(es, i + 1, es[i].end)
    } else {
        keep_from(es, i + 1, last_end)
    }
}

/// The plan of a report: its fix edits sorted, without those that start
/// before the end of an edit already kept.
pub open spec fn plan_of(errs: Seq<ErrorView>) -> Seq<EditView> {
    keep_from(sort_edits(fix_edits(errs)), 0, 0)
}

// ------------------------------------------------------------------
// Applying the plan
// ------------------------------------------------------------------

/// Byte offset `b` is a character boundary of `s` (or its end).
pub open spec fn is_boundary(s: Seq<char>, b: int) -> bool {
    exists|j: int| 0 <= j <= s.len() && utf8_len(s.take(j)) == b
}

/// The character index at byte offset `b`.
pub open spec fn char_index(s: Seq<char>, b: int) -> int {
    choose|j: int| 0 <= j <= s.len() && utf8_len(s.take(j)) == b
}

/// `e` can be applied to `s`: its range is ordered and both ends are
/// character boundaries (otherwise `String::replace_range` panics).
pub open spec fn edit_fits(s: Seq<char>, e: EditView) -> bool {
    e.start <= e.end && is_boundary(s, e.start) && is_boundary(s, e.end)
}

/// `s` with bytes `e.start .. e.end` replaced by `e.replacement`.
pub open spec fn replace_edit(s: Seq<char>, e: EditView) -> Seq<char> {
    s.take(char_index(s, e.start)) + e.replacement + s.skip(char_index(s, e.end))
}

/// Applying `es` from the last to the first never panics.
pub open spec fn applies(s: Seq<char>, es: Seq<EditView>) -> bool
    decreases es.len(),
{
    es.len() == 0 || (edit_fits(s, es.last()) && applies(replace_edit(s, es.last()), es.drop_last()))
}

/// `s` after replacing the ranges of `es`, from the last to the first.
pub open spec fn apply_edits(s: Seq<char>, es: Seq<EditView>) -> Seq<char>
    decreases es.len(),
{
    if es.len() == 0 {
        s
    } else {
        apply_edits(replace_edit(s, es.last()), es.drop_last())
    }
}

/// Byte offsets of character prefixes grow strictly.
pub proof fn lemma_char_index_unique(s: Seq<char>, j1: int, j2: int)
    requires
        0 <= j1 <= s.len(),
        0 <= j2 <= s.len(),
        utf8_len(s.take(j1)) == utf8_len(s.take(j2)),
    ensures
        j1 == j2,
{
    if j1 != j2 {
        let (a, b) = if j1 < j2 {
            (j1, j2)
        } else {
            (j2, j1)
        };
        lemma_utf8_len_subrange(s, a, b);
        lemma_utf8_len_bounds(s.subrange(a, b));
    }
}

/// The character index of a byte offset, if it is a boundary.
fn byte_to_char(s: &[char], b: usize) -> (r: Option<usize>)
    ensures
        match r {
            Some(j) => is_boundary(s@, b as int) && char_index(s@, b as int) == j && j <= s@.len(),
            None => !is_boundary(s@, b as int),
        },
{
    let mut j: usize = 0;
    let mut acc: usize = 0;
    assert(s@.take(0) =~= Seq::<char>::empty());
    while j < s.len() && acc < b
        invariant
            j <= s@.len(),
            acc == utf8_len(s@.take(j as int)),
            acc <= b,
            forall|m: int| 0 <= m < j ==> utf8_len(#[trigger] s@.take(m)) < b,
        decreases s@.len() - j,
    {
        proof {
            assert(s@.take(j + 1).drop_last() =~= s@.take(j as int));
        }
        let w = width_of(s[j]);
        if w > b - acc {
            proof {
                assert forall|m: int| 0 <= m <= s@.len() implies utf8_len(#[trigger] s@.take(m)) != b by {
                    if m <= j {
                        if m == j {
                        } else {
                            assert(utf8_len(s@.take(m)) < b);
                        }
                    } else {
                        lemma_utf8_len_take(s@.take(m), j + 1);
                        assert(s@.take(m).take(j + 1) =~= s@.take(j + 1));
                    }
                }
            }
            return None;
        }
        acc = acc + w;
        j += 1;
    }
    if acc == b {
        proof {
            assert(utf8_len(s@.take(j as int)) == b);
            let k = char_index(s@, b as int);
            lemma_char_index_unique(s@, j as int, k);
        }
        Some(j)
    } else {
        proof {
            assert(j == s@.len());
            assert(s@.take(j as int) =~= s@);
            assert forall|m: int| 0 <= m <= s@.len() implies utf8_len(#[trigger] s@.take(m)) != b by {
                if m < j {
                } else {
                    assert(m == j);
                }
            }
        }
        None
    }
}

// ------------------------------------------------------------------
// Executable plan
// ------------------------------------------------------------------

/// The edits to apply to a source, in order of position.
#[derive(Debug)]
pub struct FixPlan {
    pub edits: Vec<TextEdit>,
}

fn le_exec(a: &TextEdit, b: &TextEdit) -> (r: bool)
    ensures
        r == edit_le(a@, b@),
{
    a.range.start < b.range.start || (a.range.start == b.range.start && a.range.end <= b.range.end)
}

proof fn lemma_insert_step(s: Seq<EditView>, x: EditView, p: int)
    requires
        0 < p <= s.len(),
        !edit_le(s[p - 1], x),
    ensures
        insert_edit(s.take(p), x) == insert_edit(s.take(p - 1), x).push(s[p - 1]),
{
    assert(s.take(p).drop_last() =~= s.take(p - 1));
}

/// Inserts `x` where `insert_edit` puts it.
fn insert_sorted(v: &mut Vec<TextEdit>, x: TextEdit)
    ensures
        edit_views(final(v)@) == insert_edit(edit_views(old(v)@), x@),
{
    let ghost s = edit_views(v@);
    let mut p: usize = v.len();
    assert(s.take(p as int) =~= s);
    assert(s.skip(p as int) =~= Seq::<EditView>::empty());
    while p > 0 && !le_exec(&v[p - 1], &x)
        invariant
            p <= v@.len(),
            s == edit_views(v@),
            insert_edit(s, x@) == insert_edit(s.take(p as int), x@) + s.skip(p as int),
        decreases p,
    {
        assert(s[p - 1] == v@[p - 1]@);
        proof {
            lemma_insert_step(s, x@, p as int);
            assert(s.skip(p - 1) =~= seq![s[p - 1]] + s.skip(p as int));
            assert(insert_edit(s.take(p - 1), x@).push(s[p - 1]) + s.skip(p as int) =~= insert_edit(
                s.take(p - 1),
                x@,
            ) + s.skip(p - 1));
        }
        p -= 1;
    }
    proof {
        if p > 0 {
            assert(s[p - 1] == v@[p - 1]@);
            assert(s.take(p as int).drop_last() =~= s.take(p - 1));
        } else {
            assert(s.take(0) =~= Seq::<EditView>::empty());
        }
        assert(insert_edit(s.take(p as int), x@) =~= s.take(p as int).push(x@));
    }
    let ghost xv = x@;
    v.insert(p, x);
    assert(edit_views(v@) =~= s.take(p as int).push(xv) + s.skip(p as int));
}

impl FixPlan {
    /// The plan of a report: the edits of all fixes, sorted by start and then
    /// end (equal ones in report order), without those that start before the
    /// end of an edit already kept.
    pub fn from_report(report: &LintReport) -> (p: Self)
        ensures
            edit_views(p.edits@) == plan_of(report@),
    {
        let ghost errs = report@;
        let mut all: Vec<TextEdit> = Vec::new();
        let mut i: usize = 0;
        while i < report.errors.len()
            invariant
                i <= report.errors@.len(),
                errs == report@,
                edit_views(all@) == fix_edits(errs.take(i as int)),
            decreases report.errors@.len() - i,
        {
            assert(errs.take(i + 1).drop_last() =~= errs.take(i as int));
            assert(errs[i as int] == report.errors@[i as int]@);
            match &report.errors[i].fix {
                Some(f) => {
                    let ghost before = edit_views(all@);
                    let mut k: usize = 0;
                    while k < f.edits.len()
                        invariant
                            k <= f.edits@.len(),
                            edit_views(all@) == before + edit_views(f.edits@).take(k as int),
                        decreases f.edits@.len() - k,
                    {
                        let ghost pre = edit_views(all@);
                        let d = f.edits[k].duplicate();
                        all.push(d);
                        assert(edit_views(all@) =~= pre.push(f.edits@[k as int]@));
                        assert(edit_views(f.edits@).take(k + 1) =~= edit_views(f.edits@).take(k as int).push(
                            f.edits@[k as int]@,
                        ));
                        assert(edit_views(all@) =~= before + edit_views(f.edits@).take(k + 1));
                        k += 1;
                    }
                    assert(edit_views(f.edits@).take(k as int) =~= edit_views(f.edits@));
                },
                None => {
                    assert(edit_views(all@) =~= fix_edits(errs.take(i + 1)));
                },
            }
            i += 1;
        }
        assert(errs.take(i as int) =~= errs);
        let ghost es = edit_views(all@);
        let mut sorted: Vec<TextEdit> = Vec::new();
        let mut j: usize = 0;
        assert(es.take(0) =~= Seq::<EditView>::empty());
        while j < all.len()
            invariant
                j <= all@.len(),
                es == edit_views(all@),
                edit_views(sorted@) == sort_edits(es.take(j as int)),
            decreases all@.len() - j,
        {
            assert(es.take(j + 1).drop_last() =~= es.take(j as int));
            assert(es[j as int] == all@[j as int]@);
            insert_sorted(&mut sorted, all[j].duplicate());
            j += 1;
        }
        assert(es.take(j as int) =~= es);
        let ghost ss = edit_views(sorted@);
        let mut kept: Vec<TextEdit> = Vec::new();
        let mut last_end: usize = 0;
        let mut k: usize = 0;
        while k < sorted.len()
            invariant
                k <= sorted@.len(),
                ss == edit_views(sorted@),
                keep_from(ss, 0, 0) == edit_views(kept@) + keep_from(ss, k as int, last_end as int),
            decreases sorted@.len() - k,
        {
            assert(ss[k as int] == sorted@[k as int]@);
            if sorted[k].range.start >= last_end {
                let ghost before = edit_views(kept@);
                last_end = sorted[k].range.end;
                kept.push(sorted[k].duplicate());
                assert(edit_views(kept@) =~= before + seq![ss[k as int]]);
            }
            k += 1;
        }
        FixPlan { edits: kept }
    }

    /// Whether `apply` can be called on `source` (every edit, applied from
    /// the last, has an ordered range whose ends are character boundaries).
    pub fn applies_to(&self, source: &str) -> (b: bool)
        ensures
            b == applies(source@, edit_views(self.edits@)),
    {
        let ghost es = edit_views(self.edits@);
        let mut cur = chars_of(source);
        let mut k: usize = self.edits.len();
        assert(es.take(k as int) =~= es);
        while k > 0
            invariant
                k <= self.edits@.len(),
                es == edit_views(self.edits@),
                applies(source@, es) == applies(cur@, es.take(k as int)),
            decreases k,
        {
            let e = &self.edits[k - 1];
            assert(es[k - 1] == e@);
            assert(es.take(k as int).last() == e@);
            assert(es.take(k as int).drop_last() =~= es.take(k - 1));
            if e.range.start > e.range.end {
                return false;
            }
            let cs = match byte_to_char(cur.as_slice(), e.range.start) {
                Some(c) => c,
                None => return false,
            };
            let ce = match byte_to_char(cur.as_slice(), e.range.end) {
                Some(c) => c,
                None => return false,
            };
            cur = splice(cur.as_slice(), cs, ce, e);
            k -= 1;
        }
        true
    }

    /// Applies the edits, from the last to the first, as
    /// `String::replace_range` does.
    pub fn apply(&self, source: &str) -> (r: String)
        requires
            applies(source@, edit_views(self.edits@)),
        ensures
            r@ == apply_edits(source@, edit_views(self.edits@)),
    {
        let ghost es = edit_views(self.edits@);
        let mut cur = chars_of(source);
        let mut k: usize = self.edits.len();
        assert(es.take(k as int) =~= es);
        while k > 0
            invariant
                k <= self.edits@.len(),
                es == edit_views(self.edits@),
                applies(cur@, es.take(k as int)),
                apply_edits(source@, es) == apply_edits(cur@, es.take(k as int)),
            decreases k,
        {
            let e = &self.edits[k - 1];
            assert(es[k - 1] == e@);
            assert(es.take(k as int).last() == e@);
            assert(es.take(k as int).drop_last() =~= es.take(k - 1));
            let cs = match byte_to_char(cur.as_slice(), e.range.start) {
                Some(c) => c,
                None => {
                    assert(false);
                    0
                },
            };
            let ce = match byte_to_char(cur.as_slice(), e.range.end) {
                Some(c) => c,
                None => {
                    assert(false);
                    0
                },
            };
            cur = splice(cur.as_slice(), cs, ce, e);
            k -= 1;
        }
        assert(es.take(0) =~= Seq::<EditView>::empty());
        string_of(cur.as_slice())
    }
}

/// `s[..cs] + e.replacement + s[ce..]`.
fn splice(s: &[char], cs: usize, ce: usize, e: &TextEdit) -> (r: Vec<char>)
    requires
        cs <= s@.len(),
        ce <= s@.len(),
        is_boundary(s@, e@.start),
        is_boundary(s@, e@.end),
        char_index(s@, e@.start) == cs,
        char_index(s@, e@.end) == ce,
    ensures
        r@ == replace_edit(s@, e@),
{
    let mut r = slice_of(s, 0, cs);
    let rep = chars_of(e.replacement.as_str());
    let mut k: usize = 0;
    let ghost head = r@;
    while k < rep.len()
        invariant
            k <= rep@.len(),
            r@ == head + rep@.take(k as int),
        decreases rep@.len() - k,
    {
        r.push(rep[k]);
        assert(rep@.take(k + 1) =~= rep@.take(k as int).push(rep@[k as int]));
        k += 1;
    }
    assert(rep@.take(k as int) =~= rep@);
    let tail = slice_of(s, ce, s.len());
    let mut m: usize = 0;
    let ghost mid = r@;
    while m < tail.len()
        invariant
            m <= tail@.len(),
            r@ == mid + tail@.take(m as int),
        decreases tail@.len() - m,
    {
        r.push(tail[m]);
        assert(tail@.take(m + 1) =~= tail@.take(m as int).push(tail@[m as int]));
        m += 1;
    }
    assert(tail@.take(m as int) =~= tail@);
    assert(s@.take(cs as int) =~= s@.subrange(0, cs as int));
    assert(s@.skip(ce as int) =~= s@.subrange(ce as int, s@.len() as int));
    r
}

/// Applies the fixes of `report` to `source`.
pub fn apply_fixes_to_string(report: &LintReport, source: &str) -> (r: String)
    requires
        applies(source@, plan_of(report@)),
    ensures
        r@ == apply_edits(source@, plan_of(report@)),
{
    FixPlan::from_report(report).apply(source)
}

// ------------------------------------------------------------------
// Properties of plans
// ------------------------------------------------------------------

/// Every edit is ordered before every later one.
pub open spec fn edits_sorted(s: Seq<EditView>) -> bool {
    forall|i: int, j: int| 0 <= i < j < s.len() ==> edit_le(#[trigger] s[i], #[trigger] s[j])
}

proof fn lemma_insert_sorted(s: Seq<EditView>, x: EditView)
    requires
        edits_sorted(s),
    ensures
        edits_sorted(insert_edit(s, x)),
        insert_edit(s, x).len() == s.len() + 1,
        forall|e: EditView| #[trigger] insert_edit(s, x).contains(e) ==> e == x || s.contains(e),
    decreases s.len(),
{
    if s.len() > 0 && !edit_le(s.last(), x) {
        let init = s.drop_last();
        assert forall|i: int, j: int| 0 <= i < j < init.len() implies edit_le(#[trigger] init[i], #[trigger] init[j]) by {
            assert(init[i] == s[i] && init[j] == s[j]);
        }
        lemma_insert_sorted(init, x);
        let r = insert_edit(init, x);
        let t = r.push(s.last());
        assert forall|e: EditView| #[trigger] t.contains(e) implies e == x || s.contains(e) by {
            if e != s.last() {
                let k = choose|k: int| 0 <= k < t.len() && t[k] == e;
                assert(r.contains(e));
                if e != x {
                    assert(init.contains(e));
                    let m = choose|m: int| 0 <= m < init.len() && init[m] == e;
                    assert(s[m] == e);
                }
            } else {
                assert(s[s.len() - 1] == e);
            }
        }
        assert forall|i: int, j: int| 0 <= i < j < t.len() implies edit_le(#[trigger] t[i], #[trigger] t[j]) by {
            if j == t.len() - 1 {
                let e = r[i];
                assert(r.contains(e));
                if e == x {
                    assert(!edit_le(s.last(), x));
                } else {
                    assert(init.contains(e));
                    let m = choose|m: int| 0 <= m < init.len() && init[m] == e;
                    assert(s[m] == e);
                    assert(edit_le(s[m], s[s.len() - 1]));
                }
            } else {
                assert(t[i] == r[i] && t[j] == r[j]);
            }
        }
    } else if s.len() > 0 {
        let t = s.push(x);
        assert forall|i: int, j: int| 0 <= i < j < t.len() implies edit_le(#[trigger] t[i], #[trigger] t[j]) by {
            if j == t.len() - 1 {
                if i < s.len() - 1 {
                    assert(edit_le(s[i], s[s.len() - 1]));
                }
            } else {
                assert(t[i] == s[i] && t[j] == s[j]);
            }
        }
        assert forall|e: EditView| #[trigger] t.contains(e) implies e == x || s.contains(e) by {
            let k = choose|k: int| 0 <= k < t.len() && t[k] == e;
            if k < s.len() {
                assert(s[k] == e);
            }
        }
    } else {
        assert forall|e: EditView| #[trigger] seq![x].contains(e) implies e == x || s.contains(e) by {
            let k = choose|k: int| 0 <= k < seq![x].len() && seq![x][k] == e;
        }
    }
}

proof fn lemma_sort_sorted(es: Seq<EditView>)
    ensures
        edits_sorted(sort_edits(es)),
        sort_edits(es).len() == es.len(),
    decreases es.len(),
{
    if es.len() > 0 {
        lemma_sort_sorted(es.drop_last());
        lemma_insert_sorted(sort_edits(es.drop_last()), es.last());
    }
}

proof fn lemma_keep_from(ss: Seq<EditView>, k: int, last_end: int)
    requires
        0 <= k,
        edits_sorted(ss),
    ensures
        forall|i: int, j: int|
            0 <= i < j < keep_from(ss, k, last_end).len() ==> (#[trigger] keep_from(ss, k, last_end)[i]).start
                <= (#[trigger] keep_from(ss, k, last_end)[j]).start,
        forall|i: int|
            0 < i < keep_from(ss, k, last_end).len() ==> (#[trigger] keep_from(ss, k, last_end)[i]).start
                >= keep_from(ss, k, last_end)[i - 1].end,
        keep_from(ss, k, last_end).len() > 0 ==> keep_from(ss, k, last_end)[0].start >= last_end,
        forall|i: int|
            0 <= i < keep_from(ss, k, last_end).len() ==> k < ss.len() && (#[trigger] keep_from(
                ss,
                k,
                last_end,
            )[i]).start >= ss[k].start,
    decreases ss.len() - k,
{
    if k < ss.len() {
        if ss[k].start >= last_end {
            lemma_keep_from(ss, k + 1, ss[k].end);
            let rest = keep_from(ss, k + 1, ss[k].end);
            let r = keep_from(ss, k, last_end);
            assert(r == seq![ss[k]] + rest);
            assert forall|i: int| 0 <= i < rest.len() implies (#[trigger] rest[i]).start >= ss[k].start by {
                assert(edit_le(ss[k], ss[k + 1]));
            }
            assert forall|i: int, j: int| 0 <= i < j < r.len() implies (#[trigger] r[i]).start <= (#[trigger] r[j]).start by {
                if i > 0 {
                    assert(r[i] == rest[i - 1] && r[j] == rest[j - 1]);
                } else {
                    assert(r[j] == rest[j - 1]);
                }
            }
            assert forall|i: int| 0 < i < r.len() implies (#[trigger] r[i]).start >= r[i - 1].end by {
                assert(r[i] == rest[i - 1]);
                if i > 1 {
                    assert(r[i - 1] == rest[i - 2]);
                }
            }
            assert forall|i: int| 0 <= i < r.len() implies k < ss.len() && (#[trigger] r[i]).start >= ss[k].start by {
                if i > 0 {
                    assert(r[i] == rest[i - 1]);
                }
            }
        } else {
            lemma_keep_from(ss, k + 1, last_end);
            let rest = keep_from(ss, k + 1, last_end);
            assert forall|i: int| 0 <= i < rest.len() implies (#[trigger] rest[i]).start >= ss[k].start by {
                assert(edit_le(ss[k], ss[k + 1]));
            }
        }
    }
}

/// A plan lists its edits by increasing start, and each edit starts at or
/// after the end of the one before it.
pub proof fn law_plan_ordered(errs: Seq<ErrorView>)
    ensures
        forall|i: int, j: int|
            0 <= i < j < plan_of(errs).len() ==> (#[trigger] plan_of(errs)[i]).start <= (
            #[trigger] plan_of(errs)[j]).start,
        forall|i: int|
            0 < i < plan_of(errs).len() ==> (#[trigger] plan_of(errs)[i]).start >= plan_of(errs)[i
                - 1].end,
{
    lemma_sort_sorted(fix_edits(errs));
    lemma_keep_from(sort_edits(fix_edits(errs)), 0, 0);
}

/// A report whose findings carry no fix gives an empty plan, and applying
/// an empty plan gives back the source.
pub proof fn law_no_fix_no_change(errs: Seq<ErrorView>, source: Seq<char>)
    requires
        forall|i: int| 0 <= i < errs.len() ==> (#[trigger] errs[i]).fix is None,
    ensures
        plan_of(errs) == Seq::<EditView>::empty(),
        applies(source, plan_of(errs)),
        apply_edits(source, plan_of(errs)) == source,
{
    lemma_no_fix_edits(errs);
}

proof fn lemma_no_fix_edits(errs: Seq<ErrorView>)
    requires
        forall|i: int| 0 <= i < errs.len() ==> (#[trigger] errs[i]).fix is None,
    ensures
        fix_edits(errs) == Seq::<EditView>::empty(),
    decreases errs.len(),
{
    if errs.len() > 0 {
        assert forall|i: int| 0 <= i < errs.drop_last().len() implies (#[trigger] errs.drop_last()[i]).fix is None by {
            assert(errs.drop_last()[i] == errs[i]);
        }
        lemma_no_fix_edits(errs.drop_last());
        assert(errs.last() == errs[errs.len() - 1]);
        assert(fix_edits(errs) =~= Seq::<EditView>::empty());
    }
}


pub proof fn lemma_prefix_boundary(s: Seq<char>, a: int, j: int)
    requires
        0 <= a <= s.len(),
        0 <= j <= s.len(),
        utf8_len(s.take(j)) <= utf8_len(s.take(a)),
    ensures
        j <= a,
{
    if j > a {
        lemma_utf8_len_subrange(s, a, j);
        lemma_utf8_len_bounds(s.subrange(a, j));
    }
}

/// A boundary at or before `e.start` stays one, at the same byte offset,
/// after `e` is applied.
pub proof fn lemma_boundary_kept(s: Seq<char>, e: EditView, x: int)
    requires
        edit_fits(s, e),
        is_boundary(s, x),
        x <= e.start,
    ensures
        is_boundary(replace_edit(s, e), x),
{
    let a = char_index(s, e.start);
    let j = choose|j: int| 0 <= j <= s.len() && utf8_len(s.take(j)) == x;
    lemma_prefix_boundary(s, a, j);
    let t = replace_edit(s, e);
    assert(t.take(j) =~= s.take(j));
}

pub proof fn lemma_ordered_pairs(es: Seq<EditView>)
    requires
        forall|i: int| 0 <= i < es.len() ==> (#[trigger] es[i]).start <= es[i].end,
        forall|i: int| 0 < i < es.len() ==> (#[trigger] es[i]).start >= es[i - 1].end,
    ensures
        forall|i: int, j: int| 0 <= i < j < es.len() ==> (#[trigger] es[i]).end <= (#[trigger] es[j]).start,
    decreases es.len(),
{
    if es.len() > 0 {
        let init = es.drop_last();
        assert forall|i: int| 0 <= i < init.len() implies (#[trigger] init[i]).start <= init[i].end by {
            assert(init[i] == es[i]);
        }
        assert forall|i: int| 0 < i < init.len() implies (#[trigger] init[i]).start >= init[i - 1].end by {
            assert(init[i] == es[i]);
            assert(init[i - 1] == es[i - 1]);
        }
        lemma_ordered_pairs(init);
        assert forall|i: int, j: int| 0 <= i < j < es.len() implies (#[trigger] es[i]).end <= (#[trigger] es[j]).start by {
            if j < es.len() - 1 {
                assert(init[i] == es[i] && init[j] == es[j]);
            } else if i < j - 1 {
                assert(init[i] == es[i] && init[j - 1] == es[j - 1]);
                assert(es[i].end <= es[j - 1].start);
            }
        }
    }
}

/// A plan whose edits each fit the source, listed in order and each
/// starting at or after the end of the one before, applies to the source:
/// applying the later edits keeps the ranges of the earlier ones in place.
pub proof fn law_plan_applies(s: Seq<char>, es: Seq<EditView>)
    requires
        forall|i: int| 0 <= i < es.len() ==> edit_fits(s, #[trigger] es[i]),
        forall|i: int| 0 < i < es.len() ==> (#[trigger] es[i]).start >= es[i - 1].end,
    ensures
        applies(s, es),
    decreases es.len(),
{
    if es.len() > 0 {
        lemma_ordered_pairs(es);
        let e = es.last();
        let init = es.drop_last();
        let t = replace_edit(s, e);
        assert(edit_fits(s, es[es.len() - 1]));
        assert forall|i: int| 0 <= i < init.len() implies edit_fits(t, #[trigger] init[i]) by {
            assert(init[i] == es[i]);
            assert(edit_fits(s, es[i]));
            assert(es[i].end <= es[es.len() - 1].start);
            lemma_boundary_kept(s, e, es[i].start);
            lemma_boundary_kept(s, e, es[i].end);
        }
        assert forall|i: int| 0 < i < init.len() implies (#[trigger] init[i]).start >= init[i - 1].end by {
            assert(init[i] == es[i]);
            assert(init[i - 1] == es[i - 1]);
        }
        law_plan_applies(t, init);
    }
}

proof fn lemma_sort_contains(es: Seq<EditView>)
    ensures
        forall|e: EditView| #[trigger] sort_edits(es).contains(e) ==> es.contains(e),
    decreases es.len(),
{
    if es.len() > 0 {
        lemma_sort_contains(es.drop_last());
        lemma_sort_sorted(es.drop_last());
        lemma_insert_sorted(sort_edits(es.drop_last()), es.last());
        assert forall|e: EditView| #[trigger] sort_edits(es).contains(e) implies es.contains(e) by {
            if e == es.last() {
                assert(es[es.len() - 1] == e);
            } else {
                assert(sort_edits(es.drop_last()).contains(e));
                let k = choose|k: int| 0 <= k < es.drop_last().len() && es.drop_last()[k] == e;
                assert(es[k] == e);
            }
        }
    }
}

proof fn lemma_keep_contains(ss: Seq<EditView>, k: int, last_end: int)
    requires
        0 <= k,
    ensures
        forall|e: EditView| #[trigger] keep_from(ss, k, last_end).contains(e) ==> ss.contains(e),
    decreases ss.len() - k,
{
    if k < ss.len() {
        if ss[k].start >= last_end {
            lemma_keep_contains(ss, k + 1, ss[k].end);
            let rest = keep_from(ss, k + 1, ss[k].end);
            assert forall|e: EditView| #[trigger] keep_from(ss, k, last_end).contains(e) implies ss.contains(e) by {
                let q = choose|q: int| 0 <= q < keep_from(ss, k, last_end).len() && keep_from(ss, k, last_end)[q] == e;
                assert(keep_from(ss, k, last_end) == seq![ss[k]] + rest);
                if q > 0 {
                    assert(rest[q - 1] == e);
                    assert(rest.contains(e));
                } else {
                    assert(ss[k] == e);
                }
            }
        } else {
            lemma_keep_contains(ss, k + 1, last_end);
            assert(keep_from(ss, k, last_end) == keep_from(ss, k + 1, last_end));
        }
    } else {
        assert(keep_from(ss, k, last_end) =~= Seq::<EditView>::empty());
    }
}

/// The plan of a report whose fix edits each fit the source applies to it.
pub proof fn law_report_fixes_apply(errs: Seq<ErrorView>, s: Seq<char>)
    requires
        forall|k: int| 0 <= k < fix_edits(errs).len() ==> edit_fits(s, #[trigger] fix_edits(errs)[k]),
    ensures
        applies(s, plan_of(errs)),
{
    let es = fix_edits(errs);
    let plan = plan_of(errs);
    lemma_sort_contains(es);
    lemma_keep_contains(sort_edits(es), 0, 0);
    law_plan_ordered(errs);
    assert forall|i: int| 0 <= i < plan.len() implies edit_fits(s, #[trigger] plan[i]) by {
        assert(plan.contains(plan[i]));
        assert(sort_edits(es).contains(plan[i]));
        let k = choose|k: int| 0 <= k < es.len() && es[k] == plan[i];
        assert(edit_fits(s, es[k]));
    }
    law_plan_applies(s, plan);
}

} // verus!
