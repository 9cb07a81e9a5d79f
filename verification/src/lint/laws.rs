//! What holds of configurations and rules across calls.
use vstd::prelude::*;
use crate::lint::config::enabled;
use crate::lint::registry::LintRule;
use crate::lint::rule::{Rule, kept, reports_some};
use crate::linters::tags::law_findings_carry_id;
use crate::lint::linter::run_findings;
use crate::lint::error::ErrorView;
use crate::lint::report::{shown, shown_only};

verus! {

/// After `disable(id)` the rule `id` is disabled, and every other rule is
/// enabled exactly when it was before.
pub proof fn law_disable(disabled: Seq<Seq<char>>, id: Seq<char>, other: Seq<char>)
    ensures
        !enabled(disabled.push(id), id),
        other != id ==> enabled(disabled.push(other), id) == enabled(disabled, id),
{
    assert(disabled.push(id)[disabled.len() as int] == id);
    if other != id {
        assert forall|j: int| 0 <= j < disabled.len() implies disabled.push(other)[j] == disabled[j] by {}
        if disabled.push(other).contains(id) {
            let j = choose|j: int| 0 <= j < disabled.push(other).len() && disabled.push(other)[j] == id;
            assert(disabled[j] == id);
        }
    }
}

/// The rules that ask the configuration before they check: all but the
/// JavaScript rules and the HTML rules from `HTML003` on.
pub open spec fn consults_config(r: LintRule) -> bool {
    !(r is JS001 || r is JS002 || r is JS003 || r is JS004 || r is JS005 || r is JS006 || r is JS007
        || r is JS008 || r is HTML003 || r is HTML004 || r is HTML005 || r is HTML006)
}

/// A rule that consults the configuration finds nothing once its id is
/// disabled.
#[verifier::rlimit(60)]
pub proof fn law_disabled_rule_silent(
    r: LintRule,
    file: Option<Seq<char>>,
    source: Seq<char>,
    disabled: Seq<Seq<char>>,
)
    requires
        consults_config(r),
        disabled.contains(r.spec_id()),
    ensures
        r.findings(file, source, disabled) == Seq::<ErrorView>::empty(),
{
}

/// A linter whose rules all consult the configuration, run with all their
/// ids disabled, finds nothing.
pub proof fn law_all_disabled_silent(
    rs: Seq<LintRule>,
    file: Option<Seq<char>>,
    source: Seq<char>,
    disabled: Seq<Seq<char>>,
)
    requires
        forall|i: int| 0 <= i < rs.len() ==> consults_config(#[trigger] rs[i]),
        forall|i: int| 0 <= i < rs.len() ==> disabled.contains(#[trigger] rs[i].spec_id()),
    ensures
        run_findings(rs, file, source, disabled) == Seq::<ErrorView>::empty(),
    decreases rs.len(),
{
    if rs.len() > 0 {
        let init = rs.drop_last();
        assert forall|i: int| 0 <= i < init.len() implies consults_config(#[trigger] init[i]) by {
            assert(init[i] == rs[i]);
        }
        assert forall|i: int| 0 <= i < init.len() implies disabled.contains(#[trigger] init[i].spec_id()) by {
            assert(init[i] == rs[i]);
        }
        law_all_disabled_silent(init, file, source, disabled);
        assert(consults_config(rs[rs.len() - 1]));
        assert(disabled.contains(rs[rs.len() - 1].spec_id()));
        law_disabled_rule_silent(rs.last(), file, source, disabled);
        assert(Seq::<ErrorView>::empty() + Seq::<ErrorView>::empty() =~= Seq::<ErrorView>::empty());
    }
}

/// A run of such a linter, with all its ids disabled, reports nothing,
/// whether or not its rules are pure: a run reports some of the findings.
pub proof fn law_disabled_run_reports_nothing(
    rs: Seq<LintRule>,
    file: Option<Seq<char>>,
    source: Seq<char>,
    disabled: Seq<Seq<char>>,
    report: Seq<ErrorView>,
)
    requires
        forall|i: int| 0 <= i < rs.len() ==> consults_config(#[trigger] rs[i]),
        forall|i: int| 0 <= i < rs.len() ==> disabled.contains(#[trigger] rs[i].spec_id()),
        reports_some(seq![], report, run_findings(rs, file, source, disabled)),
    ensures
        report == Seq::<ErrorView>::empty(),
{
    law_all_disabled_silent(rs, file, source, disabled);
    reveal(reports_some);
    let k = choose|keep: Seq<bool>| keep.len() == 0 && report == seq![] + #[trigger] kept(Seq::<ErrorView>::empty(), keep);
    assert(report =~= Seq::<ErrorView>::empty());
}

/// Disabling an id leaves the findings of every other rule as they were
/// (and those of a rule that does not consult the configuration).
#[verifier::rlimit(80)]
pub proof fn law_disable_other_rule(
    r: LintRule,
    file: Option<Seq<char>>,
    source: Seq<char>,
    disabled: Seq<Seq<char>>,
    id: Seq<char>,
)
    requires
        !(consults_config(r) && r.spec_id() == id),
    ensures
        r.findings(file, source, disabled.push(id)) == r.findings(file, source, disabled),
{
    law_disable(disabled, id, id);
    if r.spec_id() != id {
        law_disable(disabled, r.spec_id(), id);
    }
}

/// The rules of `rs` but those that consult the configuration and have id
/// `id`, in order.
pub open spec fn except_id(rs: Seq<LintRule>, id: Seq<char>) -> Seq<LintRule>
    decreases rs.len(),
{
    if rs.len() == 0 {
        seq![]
    } else if consults_config(rs.last()) && rs.last().spec_id() == id {
        except_id(rs.drop_last(), id)
    } else {
        except_id(rs.drop_last(), id).push(rs.last())
    }
}

/// Disabling one id removes exactly the findings of the rules with that id
/// (those that consult the configuration) and keeps the others' findings,
/// in order.
pub proof fn law_disable_one_id(
    rs: Seq<LintRule>,
    file: Option<Seq<char>>,
    source: Seq<char>,
    disabled: Seq<Seq<char>>,
    id: Seq<char>,
)
    ensures
        run_findings(rs, file, source, disabled.push(id)) == run_findings(except_id(rs, id), file, source, disabled),
    decreases rs.len(),
{
    if rs.len() > 0 {
        let r = rs.last();
        law_disable_one_id(rs.drop_last(), file, source, disabled, id);
        let rest = run_findings(except_id(rs.drop_last(), id), file, source, disabled);
        if consults_config(r) && r.spec_id() == id {
            assert(disabled.push(id)[disabled.len() as int] == id);
            law_disabled_rule_silent(r, file, source, disabled.push(id));
            assert(rest + Seq::<ErrorView>::empty() =~= rest);
        } else {
            law_disable_other_rule(r, file, source, disabled, id);
            let e = except_id(rs.drop_last(), id).push(r);
            assert(e.drop_last() =~= except_id(rs.drop_last(), id));
            assert(e.last() == r);
        }
    }
}

/// The findings whose rule id is not `id`.
pub open spec fn other_id(id: Seq<char>) -> spec_fn(ErrorView) -> bool {
    |e: ErrorView| e.rule_id != id
}

proof fn lemma_filter_keeps_all(es: Seq<ErrorView>, id: Seq<char>)
    requires
        forall|i: int| 0 <= i < es.len() ==> (#[trigger] es[i]).rule_id != id,
    ensures
        es.filter(other_id(id)) == es,
    decreases es.len(),
{
    reveal(Seq::filter);
    if es.len() > 0 {
        assert forall|i: int| 0 <= i < es.drop_last().len() implies (#[trigger] es.drop_last()[i]).rule_id != id by {
            assert(es.drop_last()[i] == es[i]);
        }
        lemma_filter_keeps_all(es.drop_last(), id);
        assert(es[es.len() - 1].rule_id != id);
        assert(es.drop_last().push(es.last()) =~= es);
    }
}

proof fn lemma_filter_drops_all(es: Seq<ErrorView>, id: Seq<char>)
    requires
        forall|i: int| 0 <= i < es.len() ==> (#[trigger] es[i]).rule_id == id,
    ensures
        es.filter(other_id(id)) == Seq::<ErrorView>::empty(),
    decreases es.len(),
{
    reveal(Seq::filter);
    if es.len() > 0 {
        assert forall|i: int| 0 <= i < es.drop_last().len() implies (#[trigger] es.drop_last()[i]).rule_id == id by {
            assert(es.drop_last()[i] == es[i]);
        }
        lemma_filter_drops_all(es.drop_last(), id);
        assert(es[es.len() - 1].rule_id == id);
    } else {
        assert(es =~= Seq::<ErrorView>::empty());
    }
}

/// When every rule with id `id` consults the configuration, disabling `id`
/// removes exactly the findings with rule id `id` from a run and keeps the
/// rest as they were, in order.
pub proof fn law_disable_filters(
    rs: Seq<LintRule>,
    file: Option<Seq<char>>,
    source: Seq<char>,
    disabled: Seq<Seq<char>>,
    id: Seq<char>,
)
    requires
        forall|i: int| 0 <= i < rs.len() && (#[trigger] rs[i]).spec_id() == id ==> consults_config(rs[i]),
    ensures
        run_findings(rs, file, source, disabled.push(id)) == run_findings(rs, file, source, disabled).filter(other_id(id)),
    decreases rs.len(),
{
    if rs.len() == 0 {
        reveal(Seq::filter);
    } else {
        let init = rs.drop_last();
        let r = rs.last();
        assert forall|i: int| 0 <= i < init.len() && (#[trigger] init[i]).spec_id() == id implies consults_config(init[i]) by {
            assert(init[i] == rs[i]);
        }
        law_disable_filters(init, file, source, disabled, id);
        let f = r.findings(file, source, disabled);
        Seq::filter_distributes_over_add(run_findings(init, file, source, disabled), f, other_id(id));
        law_findings_carry_id(r, file, source, disabled);
        if r.spec_id() == id {
            assert(rs[rs.len() - 1] == r);
            assert(disabled.push(id)[disabled.len() as int] == id);
            law_disabled_rule_silent(r, file, source, disabled.push(id));
            lemma_filter_drops_all(f, id);
            assert(run_findings(init, file, source, disabled.push(id)) + Seq::<ErrorView>::empty()
                =~= run_findings(init, file, source, disabled.push(id)));
        } else {
            law_disable_other_rule(r, file, source, disabled, id);
            lemma_filter_keeps_all(f, id);
        }
    }
}

/// Keeping the findings shown at verbosity `v`, then those shown at a
/// verbosity `w` no higher, keeps those shown at `w`; in particular keeping
/// them twice at one verbosity is keeping them once.
pub proof fn law_retain_nested(es: Seq<ErrorView>, v: u8, w: u8)
    requires
        w <= v,
    ensures
        shown_only(shown_only(es, v), w) == shown_only(es, w),
    decreases es.len(),
{
    if es.len() > 0 {
        let init = es.drop_last();
        let l = es.last();
        law_retain_nested(init, v, w);
        let x = shown_only(init, v);
        if shown(l.severity, v) {
            assert(x.push(l).drop_last() =~= x);
            assert(x + seq![l] =~= x.push(l));
        } else {
            assert(x + Seq::<ErrorView>::empty() =~= x);
        }
    }
}

/// At verbosity 3 or more every finding is shown.
pub proof fn law_retain_all_from_info(es: Seq<ErrorView>, v: u8)
    requires
        v >= 3,
    ensures
        shown_only(es, v) == es,
    decreases es.len(),
{
    if es.len() > 0 {
        law_retain_all_from_info(es.drop_last(), v);
        assert(es.drop_last() + seq![es.last()] =~= es);
    }
}

} // verus!
