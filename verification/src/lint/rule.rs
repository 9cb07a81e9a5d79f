use vstd::prelude::*;
use crate::lint::config::LintConfig;
use crate::lint::error::{ErrorView, Severity, opt_str_view};
use crate::lint::report::LintReport;
use crate::text::fits;

verus! {

/// The elements of `xs` whose flag in `keep` is set, in order.
pub open spec fn kept<T>(xs: Seq<T>, keep: Seq<bool>) -> Seq<T>
    decreases xs.len(),
{
    if xs.len() == 0 {
        seq![]
    } else {
        kept(xs.drop_last(), keep) + if keep[xs.len() - 1] {
            seq![xs.last()]
        } else {
            seq![]
        }
    }
}

proof fn lemma_kept_same_flags<T>(xs: Seq<T>, k1: Seq<bool>, k2: Seq<bool>)
    requires
        xs.len() <= k1.len(),
        xs.len() <= k2.len(),
        forall|j: int| 0 <= j < xs.len() ==> k1[j] == k2[j],
    ensures
        kept(xs, k1) == kept(xs, k2),
    decreases xs.len(),
{
    if xs.len() > 0 {
        lemma_kept_same_flags(xs.drop_last(), k1, k2);
    }
}

/// Keeping one more element, or not.
pub proof fn lemma_kept_push<T>(xs: Seq<T>, keep: Seq<bool>, x: T, b: bool)
    requires
        keep.len() == xs.len(),
    ensures
        kept(xs.push(x), keep.push(b)) == kept(xs, keep) + if b {
            seq![x]
        } else {
            seq![]
        },
{
    assert(xs.push(x).drop_last() =~= xs);
    lemma_kept_same_flags(xs, keep.push(b), keep);
}

/// `after` is `before` followed by some of `cands`, in order.
#[verifier::opaque]
pub open spec fn reports_some(before: Seq<ErrorView>, after: Seq<ErrorView>, cands: Seq<ErrorView>) -> bool {
    exists|keep: Seq<bool>| keep.len() == cands.len() && after == before + #[trigger] kept(cands, keep)
}

proof fn lemma_kept_concat<T>(a: Seq<T>, ka: Seq<bool>, b: Seq<T>, kb: Seq<bool>)
    requires
        ka.len() == a.len(),
        kb.len() == b.len(),
    ensures
        kept(a + b, ka + kb) == kept(a, ka) + kept(b, kb),
    decreases b.len(),
{
    if b.len() == 0 {
        assert(a + b =~= a);
        lemma_kept_same_flags(a, ka + kb, ka);
        assert(kept(a, ka) + Seq::<T>::empty() =~= kept(a, ka));
    } else {
        let b0 = b.drop_last();
        let k0 = kb.drop_last();
        lemma_kept_concat(a, ka, b0, k0);
        assert((a + b).drop_last() =~= a + b0);
        lemma_kept_same_flags(a + b0, ka + kb, ka + k0);
        lemma_kept_same_flags(b0, kb, k0);
        assert((ka + kb)[(a + b).len() - 1] == kb[b.len() - 1]);
        assert((a + b).last() == b.last());
    }
}

proof fn lemma_kept_all<T>(a: Seq<T>)
    ensures
        kept(a, Seq::new(a.len(), |i: int| true)) == a,
    decreases a.len(),
{
    if a.len() > 0 {
        lemma_kept_all(a.drop_last());
        lemma_kept_same_flags(a.drop_last(), Seq::new(a.len(), |i: int| true), Seq::new(a.drop_last().len(), |i: int| true));
        assert(a.drop_last() + seq![a.last()] =~= a);
    }
}

/// Reports that hold some of `found` go on holding some of the findings
/// when all of `more` is added.
pub proof fn lemma_reports_all(found: Seq<ErrorView>, report: Seq<ErrorView>, more: Seq<ErrorView>)
    requires
        reports_some(seq![], report, found),
    ensures
        reports_some(seq![], report + more, found + more),
{
    reveal(reports_some);
    let k = choose|keep: Seq<bool>| keep.len() == found.len() && report == seq![] + #[trigger] kept(found, keep);
    let all = Seq::new(more.len(), |i: int| true);
    lemma_kept_all(more);
    lemma_kept_concat(found, k, more, all);
    assert(seq![] + kept(found, k) =~= kept(found, k));
    assert(report + more =~= seq![] + kept(found + more, k + all));
}

/// Reports that hold some of `found` go on holding some of the findings
/// when some of `more` is added.
pub proof fn lemma_reports_some_more(
    found: Seq<ErrorView>,
    report: Seq<ErrorView>,
    more: Seq<ErrorView>,
    after: Seq<ErrorView>,
)
    requires
        reports_some(seq![], report, found),
        reports_some(report, after, more),
    ensures
        reports_some(seq![], after, found + more),
{
    reveal(reports_some);
    let k = choose|keep: Seq<bool>| keep.len() == found.len() && report == seq![] + #[trigger] kept(found, keep);
    let k2 = choose|keep: Seq<bool>| keep.len() == more.len() && after == report + #[trigger] kept(more, keep);
    lemma_kept_concat(found, k, more, k2);
    assert(seq![] + kept(found, k) =~= kept(found, k));
    assert(after =~= seq![] + kept(found + more, k + k2));
}

/// What a check appended to a report is some of its candidates.
pub proof fn lemma_reports_part(before: Seq<ErrorView>, after: Seq<ErrorView>, cands: Seq<ErrorView>)
    requires
        reports_some(before, after, cands),
    ensures
        before.len() <= after.len(),
        after == before + after.subrange(before.len() as int, after.len() as int),
        reports_some(seq![], after.subrange(before.len() as int, after.len() as int), cands),
{
    reveal(reports_some);
    let k = choose|keep: Seq<bool>| keep.len() == cands.len() && after == before + #[trigger] kept(cands, keep);
    let part = after.subrange(before.len() as int, after.len() as int);
    assert(part =~= kept(cands, k));
    assert(after =~= before + part);
    assert(part =~= seq![] + kept(cands, k));
}

/// A lint rule: an id, a severity, and a check that appends the rule's
/// findings on a source text to a report.
pub trait Rule {
    /// The rule's id.
    spec fn spec_id(&self) -> Seq<char>;

    /// The rule's severity.
    spec fn spec_severity(&self) -> Severity;

    /// Whether the findings depend on the source text alone. A rule that
    /// also consults the file system reports some of its `findings`.
    spec fn is_pure(&self) -> bool;

    /// The sources the rule can check under the disabled rule ids (the
    /// others would make it panic); a rule that returns at once when it is
    /// disabled accepts every source then.
    spec fn accepts(&self, source: Seq<char>, disabled: Seq<Seq<char>>) -> bool;

    /// The findings of the rule on `source`, given the disabled rule ids (for
    /// a rule that is not pure: the findings it may report).
    spec fn findings(
        &self,
        file: Option<Seq<char>>,
        source: Seq<char>,
        disabled: Seq<Seq<char>>,
    ) -> Seq<ErrorView>;

    fn id(&self) -> (r: &'static str)
        ensures
            r@ == self.spec_id(),
    ;

    fn severity(&self) -> (s: Severity)
        ensures
            s == self.spec_severity(),
    ;

    /// Whether `check` may be called on `source` under `config`.
    fn admits(&self, source: &str, config: &LintConfig) -> (b: bool)
        ensures
            b == self.accepts(source@, config@),
    ;

    /// Appends the rule's findings on `source` to `report`.
    fn check(&self, file: Option<&str>, source: &str, report: &mut LintReport, config: &LintConfig)
        requires
            fits(source@),
            self.accepts(source@, config@),
        ensures
            self.is_pure() ==> final(report)@ == old(report)@ + self.findings(
                opt_str_view(file),
                source@,
                config@,
            ),
            !self.is_pure() ==> reports_some(
                old(report)@,
                final(report)@,
                self.findings(opt_str_view(file), source@, config@),
            ),
    ;
}

} // verus!
