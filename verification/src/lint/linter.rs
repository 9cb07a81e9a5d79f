use vstd::prelude::*;
use crate::lint::config::LintConfig;
use crate::lint::error::{ErrorView, opt_str_view};
use crate::lint::registry::LintRule;
use crate::lint::report::LintReport;
use crate::lint::rule::{Rule, kept, lemma_reports_all, lemma_reports_part, lemma_reports_some_more, reports_some};
use crate::text::{fits, str_eq};

verus! {

/// Rules that can be copied out of a shared list.
pub trait RuleClone {
    /// A copy of the rule.
    fn clone_box(&self) -> LintRule;
}

impl RuleClone for LintRule {
    fn clone_box(&self) -> (r: LintRule)
        ensures
            r == *self,
    {
        *self
    }
}

/// A list of rules with pairwise distinct ids.
pub struct Linter {
    rules: Vec<LintRule>,
}

impl View for Linter {
    type V = Seq<LintRule>;

    /// The rules, in the order in which they run.
    closed spec fn view(&self) -> Seq<LintRule> {
        self.rules@
    }
}

/// Some rule of `rs` has id `id`.
pub open spec fn has_id(rs: Seq<LintRule>, id: Seq<char>) -> bool
    decreases rs.len(),
{
    rs.len() > 0 && (rs.last().spec_id() == id || has_id(rs.drop_last(), id))
}

/// `rs` with `r` appended unless a rule with the same id is already there.
pub open spec fn add_one(rs: Seq<LintRule>, r: LintRule) -> Seq<LintRule> {
    if has_id(rs, r.spec_id()) {
        rs
    } else {
        rs.push(r)
    }
}

/// `add_one` of each rule of `new`, in order.
pub open spec fn add_all(rs: Seq<LintRule>, new: Seq<LintRule>) -> Seq<LintRule>
    decreases new.len(),
{
    if new.len() == 0 {
        rs
    } else {
        add_one(add_all(rs, new.drop_last()), new.last())
    }
}

/// The findings of the rules `rs`, one rule after the other.
pub open spec fn run_findings(
    rs: Seq<LintRule>,
    file: Option<Seq<char>>,
    source: Seq<char>,
    disabled: Seq<Seq<char>>,
) -> Seq<ErrorView>
    decreases rs.len(),
{
    if rs.len() == 0 {
        seq![]
    } else {
        run_findings(rs.drop_last(), file, source, disabled) + rs.last().findings(
            file,
            source,
            disabled,
        )
    }
}

/// `parts[i]` is what rule `i` of `rs` reports: all its findings when it is
/// pure, else some of them, in order.
pub open spec fn rule_parts(
    rs: Seq<LintRule>,
    parts: Seq<Seq<ErrorView>>,
    file: Option<Seq<char>>,
    source: Seq<char>,
    disabled: Seq<Seq<char>>,
) -> bool {
    &&& parts.len() == rs.len()
    &&& forall|i: int|
        0 <= i < rs.len() ==> {
            &&& (rs[i].is_pure() ==> #[trigger] parts[i] == rs[i].findings(file, source, disabled))
            &&& (!rs[i].is_pure() ==> reports_some(seq![], parts[i], rs[i].findings(file, source, disabled)))
        }
}

/// Every rule of `rs` accepts `source` under the disabled ids.
pub open spec fn all_accept(rs: Seq<LintRule>, source: Seq<char>, disabled: Seq<Seq<char>>) -> bool {
    forall|i: int| 0 <= i < rs.len() ==> #[trigger] rs[i].accepts(source, disabled)
}

/// Every rule of `rs` is pure.
pub open spec fn all_pure(rs: Seq<LintRule>) -> bool {
    forall|i: int| 0 <= i < rs.len() ==> #[trigger] rs[i].is_pure()
}

/// No two rules of `rs` share an id.
pub open spec fn distinct_ids(rs: Seq<LintRule>) -> bool {
    forall|i: int, j: int| 0 <= i < j < rs.len() ==> #[trigger] rs[i].spec_id() != #[trigger] rs[j].spec_id()
}

pub proof fn lemma_has_id(rs: Seq<LintRule>, id: Seq<char>)
    ensures
        has_id(rs, id) <==> exists|j: int| 0 <= j < rs.len() && #[trigger] rs[j].spec_id() == id,
    decreases rs.len(),
{
    if rs.len() > 0 {
        lemma_has_id(rs.drop_last(), id);
        if has_id(rs.drop_last(), id) {
            let j = choose|j: int| 0 <= j < rs.drop_last().len() && #[trigger] rs.drop_last()[j].spec_id() == id;
            assert(rs[j].spec_id() == id);
        }
        if exists|j: int| 0 <= j < rs.len() && #[trigger] rs[j].spec_id() == id {
            let j = choose|j: int| 0 <= j < rs.len() && #[trigger] rs[j].spec_id() == id;
            if j < rs.len() - 1 {
                assert(rs.drop_last()[j].spec_id() == id);
            }
        }
    }
}

/// Adding rules keeps the ids distinct.
pub proof fn lemma_add_one_distinct(rs: Seq<LintRule>, r: LintRule)
    requires
        distinct_ids(rs),
    ensures
        distinct_ids(add_one(rs, r)),
{
    lemma_has_id(rs, r.spec_id());
    if !has_id(rs, r.spec_id()) {
        let n = rs.push(r);
        assert forall|i: int, j: int| 0 <= i < j < n.len() implies #[trigger] n[i].spec_id() != #[trigger] n[j].spec_id() by {
            if j == rs.len() {
                assert(rs[i].spec_id() != r.spec_id());
            }
        }
    }
}

/// Adding a rule whose id is new appends it.
pub proof fn lemma_fresh(rs: Seq<LintRule>, r: LintRule)
    requires
        forall|j: int| 0 <= j < rs.len() ==> #[trigger] rs[j].spec_id() != r.spec_id(),
    ensures
        add_one(rs, r) == rs.push(r),
{
    lemma_has_id(rs, r.spec_id());
}

/// Adding rules whose ids are all distinct, from each other and from those
/// already present, appends them in order.
pub proof fn lemma_add_all_fresh(rs: Seq<LintRule>, new: Seq<LintRule>)
    requires
        distinct_ids(rs + new),
    ensures
        add_all(rs, new) == rs + new,
    decreases new.len(),
{
    if new.len() > 0 {
        let init = new.drop_last();
        assert(rs + init =~= (rs + new).drop_last());
        assert forall|i: int, j: int| 0 <= i < j < (rs + init).len() implies #[trigger] (rs + init)[i].spec_id() != #[trigger] (rs + init)[j].spec_id() by {
            assert((rs + init)[i] == (rs + new)[i]);
            assert((rs + init)[j] == (rs + new)[j]);
        }
        lemma_add_all_fresh(rs, init);
        assert forall|j: int| 0 <= j < (rs + init).len() implies #[trigger] (rs + init)[j].spec_id() != new.last().spec_id() by {
            assert((rs + init)[j] == (rs + new)[j]);
            assert(new.last() == (rs + new)[(rs + new).len() - 1]);
        }
        lemma_fresh(rs + init, new.last());
        assert((rs + init).push(new.last()) =~= rs + new);
    } else {
        assert(rs + new =~= rs);
    }
}

impl Linter {
    /// An empty linter.
    pub fn new() -> (l: Self)
        ensures
            l@ == Seq::<LintRule>::empty(),
    {
        Linter { rules: Vec::new() }
    }

    /// Whether a rule with the id of `rule` is already present.
    fn contains_id(&self, rule: &LintRule) -> (b: bool)
        ensures
            b == has_id(self@, rule.spec_id()),
    {
        proof {
            lemma_has_id(self@, rule.spec_id());
        }
        let id = rule.id();
        let mut i: usize = 0;
        while i < self.rules.len()
            invariant
                i <= self@.len(),
                id@ == rule.spec_id(),
                forall|j: int| 0 <= j < i ==> #[trigger] self@[j].spec_id() != id@,
            decreases self@.len() - i,
        {
            if str_eq(self.rules[i].id(), id) {
                assert(self@[i as int].spec_id() == rule.spec_id());
                proof {
                    lemma_has_id(self@, rule.spec_id());
                }
                return true;
            }
            i += 1;
        }
        false
    }

    /// Adds `rule` unless a rule with the same id is already present.
    pub fn add_rule(self, rule: LintRule) -> (l: Self)
        ensures
            l@ == add_one(self@, rule),
    {
        let mut l = self;
        if !l.contains_id(&rule) {
            l.rules.push(rule);
        }
        l
    }

    /// Adds each rule of `rules` in turn, as `add_rule` does.
    pub fn add_rules(self, rules: Vec<LintRule>) -> (l: Self)
        ensures
            l@ == add_all(self@, rules@),
    {
        let mut l = self;
        let mut i: usize = 0;
        while i < rules.len()
            invariant
                i <= rules@.len(),
                l@ == add_all(self@, rules@.take(i as int)),
            decreases rules@.len() - i,
        {
            assert(rules@.take(i + 1).drop_last() =~= rules@.take(i as int));
            let r = rules[i];
            l = l.add_rule(r);
            i += 1;
        }
        assert(rules@.take(i as int) =~= rules@);
        l
    }

    /// Adds copies of the rules of `rules` in turn, as `add_rule` does.
    pub fn with_rules(&mut self, rules: &[LintRule])
        ensures
            final(self)@ == add_all(old(self)@, rules@),
    {
        let mut i: usize = 0;
        while i < rules.len()
            invariant
                i <= rules@.len(),
                self@ == add_all(old(self)@, rules@.take(i as int)),
            decreases rules@.len() - i,
        {
            assert(rules@.take(i + 1).drop_last() =~= rules@.take(i as int));
            let r = rules[i].clone_box();
            if !self.contains_id(&r) {
                self.rules.push(r);
            }
            i += 1;
        }
        assert(rules@.take(i as int) =~= rules@);
    }

    /// Whether every rule accepts `source` under `config`.
    pub fn admits(&self, source: &str, config: &LintConfig) -> (b: bool)
        ensures
            b == all_accept(self@, source@, config@),
    {
        let mut i: usize = 0;
        while i < self.rules.len()
            invariant
                i <= self@.len(),
                forall|j: int| 0 <= j < i ==> #[trigger] self@[j].accepts(source@, config@),
            decreases self@.len() - i,
        {
            if !self.rules[i].admits(source, config) {
                return false;
            }
            i += 1;
        }
        true
    }

    /// Runs every rule on `source` and collects the findings: exactly
    /// `run_findings` when every rule is pure.
    pub fn run(&self, file: Option<&str>, source: &str, config: &LintConfig) -> (r: LintReport)
        requires
            fits(source@),
            all_accept(self@, source@, config@),
        ensures
            all_pure(self@) ==> r@ == run_findings(self@, opt_str_view(file), source@, config@),
            reports_some(seq![], r@, run_findings(self@, opt_str_view(file), source@, config@)),
            exists|parts: Seq<Seq<ErrorView>>|
                rule_parts(self@, parts, opt_str_view(file), source@, config@) && r@ == #[trigger] parts.flatten(),
    {
        let ghost mut parts: Seq<Seq<ErrorView>> = seq![];
        let mut report = LintReport::default();
        proof {
            reveal(reports_some);
            assert(report@ =~= Seq::<ErrorView>::empty() + kept(Seq::<ErrorView>::empty(), Seq::<bool>::empty()));
        }
        let mut i: usize = 0;
        while i < self.rules.len()
            invariant
                i <= self@.len(),
                fits(source@),
                all_accept(self@, source@, config@),
                all_pure(self@.take(i as int)) ==> report@ == run_findings(
                    self@.take(i as int),
                    opt_str_view(file),
                    source@,
                    config@,
                ),
                reports_some(seq![], report@, run_findings(self@.take(i as int), opt_str_view(file), source@, config@)),
                rule_parts(self@.take(i as int), parts, opt_str_view(file), source@, config@),
                report@ == parts.flatten(),
            decreases self@.len() - i,
        {
            assert(self@.take(i + 1).drop_last() =~= self@.take(i as int));
            assert(self@[i as int].accepts(source@, config@));
            proof {
                if all_pure(self@.take(i + 1)) {
                    assert(self@.take(i + 1)[i as int] == self@[i as int]);
                    assert(self@[i as int].is_pure());
                    assert forall|j: int| 0 <= j < i implies #[trigger] self@.take(
                        i as int,
                    )[j].is_pure() by {
                        assert(self@.take(i + 1)[j].is_pure());
                    }
                }
            }
            let ghost before = report@;
            self.rules[i].check(file, source, &mut report, config);
            proof {
                let f = self@[i as int].findings(opt_str_view(file), source@, config@);
                let rf = run_findings(self@.take(i as int), opt_str_view(file), source@, config@);
                assert(run_findings(self@.take(i + 1), opt_str_view(file), source@, config@) == rf + f);
                let part = report@.subrange(before.len() as int, report@.len() as int);
                if self@[i as int].is_pure() {
                    lemma_reports_all(rf, before, f);
                    assert(part =~= f);
                } else {
                    lemma_reports_some_more(rf, before, f, report@);
                    lemma_reports_part(before, report@, f);
                }
                assert(report@ =~= before + part);
                parts.lemma_flatten_push(part);
                let np = parts.push(part);
                let ti = self@.take(i + 1);
                assert forall|j: int| 0 <= j < ti.len() implies {
                    &&& (ti[j].is_pure() ==> #[trigger] np[j] == ti[j].findings(opt_str_view(file), source@, config@))
                    &&& (!ti[j].is_pure() ==> reports_some(seq![], np[j], ti[j].findings(opt_str_view(file), source@, config@)))
                } by {
                    if j < i {
                        assert(ti[j] == self@.take(i as int)[j]);
                        assert(np[j] == parts[j]);
                    } else {
                        assert(ti[j] == self@[i as int]);
                        assert(np[j] == part);
                    }
                }
                parts = np;
            }
            i += 1;
        }
        assert(self@.take(i as int) =~= self@);
        report
    }
}

} // verus!
