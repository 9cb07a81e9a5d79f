use vstd::prelude::*;
use crate::lint::error::{LintError, ErrorView, Severity};

verus! {

/// The findings collected by a run of the linter.
#[derive(Debug)]
pub struct LintReport {
    pub errors: Vec<LintError>,
}

/// Views of a sequence of findings.
pub open spec fn error_views(v: Seq<LintError>) -> Seq<ErrorView> {
    v.map_values(|e: LintError| e@)
}

impl View for LintReport {
    type V = Seq<ErrorView>;

    open spec fn view(&self) -> Seq<ErrorView> {
        error_views(self.errors@)
    }
}

impl Default for LintReport {
    /// An empty report.
    fn default() -> (r: Self)
        ensures
            r@ == Seq::<ErrorView>::empty(),
    {
        let r = LintReport { errors: Vec::new() };
        assert(r@ =~= Seq::<ErrorView>::empty());
        r
    }
}

impl LintReport {
    /// Appends a finding.
    pub fn push(&mut self, error: LintError)
        ensures
            final(self)@ == old(self)@.push(error@),
    {
        self.errors.push(error);
        assert(self@ =~= old(self)@.push(error@));
    }

    /// Whether the report holds no finding.
    pub fn is_clean(&self) -> (b: bool)
        ensures
            b == (self@.len() == 0),
    {
        self.errors.len() == 0
    }
}

/// Whether a finding of `severity` is shown at verbosity `v`: errors from
/// 1 on, warnings from 2 on, informational findings from 3 on.
pub open spec fn shown(severity: Severity, v: u8) -> bool {
    match severity {
        Severity::Error => v >= 1,
        Severity::Warning => v >= 2,
        Severity::Info => v >= 3,
    }
}

/// The findings of `es` that are shown at verbosity `v`, in order.
pub open spec fn shown_only(es: Seq<ErrorView>, v: u8) -> Seq<ErrorView>
    decreases es.len(),
{
    if es.len() == 0 {
        seq![]
    } else {
        shown_only(es.drop_last(), v) + if shown(es.last().severity, v) {
            seq![es.last()]
        } else {
            seq![]
        }
    }
}

impl LintReport {
    /// The report without the findings hidden at verbosity `v`.
    pub fn retain_shown(self, v: u8) -> (r: Self)
        ensures
            r@ == shown_only(self@, v),
    {
        let ghost all = self@;
        let mut rest = self.errors;
        let mut kept: Vec<LintError> = Vec::new();
        let ghost mut k: int = 0;
        while rest.len() > 0
            invariant
                0 <= k <= all.len(),
                error_views(rest@) == all.skip(k),
                error_views(kept@) == shown_only(all.take(k), v),
            decreases rest@.len(),
        {
            let ghost rv = error_views(rest@);
            assert(rv.len() == rest@.len());
            assert(k < all.len());
            assert(rv[0] == rest@[0]@);
            assert(all.skip(k)[0] == all[k]);
            let e = rest.remove(0);
            assert(e@ == all[k]);
            assert(all.take(k + 1).drop_last() =~= all.take(k));
            let ghost before = error_views(kept@);
            let show = match e.severity {
                Severity::Error => v >= 1,
                Severity::Warning => v >= 2,
                Severity::Info => v >= 3,
            };
            if show {
                kept.push(e);
                assert(error_views(kept@) =~= before.push(all[k]));
            }
            assert(error_views(rest@) =~= rv.skip(1));
            assert(rv.skip(1) =~= all.skip(k + 1));
            proof {
                k = k + 1;
            }
        }
        assert(all.take(k) =~= all);
        LintReport { errors: kept }
    }
}

} // verus!
