//! CSS
pub mod rules;

use vstd::prelude::*;
use crate::lint::linter::{Linter, distinct_ids, lemma_add_all_fresh};
use crate::lint::registry::LintRule;
use crate::linters::css::rules::{info, error, warning};
use crate::linters::css::rules::info::{TrailingWhitespace, UppercaseHexColor, InlineBlockStyle, ZeroWithUnit, MultipleBlankLines, LeadingZeroDecimal, UniversalSelector};
use crate::linters::css::rules::error::MissingSemicolon;
use crate::linters::css::rules::warning::{MissingColonSpace, ImportantUsage};

verus! {

/// The rules of the CSS rule set, in order.
pub open spec fn rule_set() -> Seq<LintRule> {
    seq![LintRule::CSS001(TrailingWhitespace), LintRule::CSS004(UppercaseHexColor), LintRule::CSS006(InlineBlockStyle), LintRule::CSS007(ZeroWithUnit), LintRule::CSS008(MultipleBlankLines), LintRule::CSS009(LeadingZeroDecimal), LintRule::CSS010(UniversalSelector), LintRule::CSS003(MissingSemicolon), LintRule::CSS002(MissingColonSpace), LintRule::CSS005(ImportantUsage)]
}

/// The CSS rule set: the informational rules, then the errors, then the
/// warnings.
pub fn linter() -> (l: Linter)
    ensures
        l@ == rule_set(),
{
    let a = info::rules();
    let b = error::rules();
    let c = warning::rules();
    proof {
        reveal_strlit("CSS001");
        reveal_strlit("CSS004");
        reveal_strlit("CSS006");
        reveal_strlit("CSS007");
        reveal_strlit("CSS008");
        reveal_strlit("CSS009");
        reveal_strlit("CSS010");
        reveal_strlit("CSS003");
        reveal_strlit("CSS002");
        reveal_strlit("CSS005");
        assert("CSS001"@[5] != "CSS004"@[5]);
        assert("CSS001"@[5] != "CSS006"@[5]);
        assert("CSS001"@[5] != "CSS007"@[5]);
        assert("CSS001"@[5] != "CSS008"@[5]);
        assert("CSS001"@[5] != "CSS009"@[5]);
        assert("CSS001"@[4] != "CSS010"@[4]);
        assert("CSS001"@[5] != "CSS003"@[5]);
        assert("CSS001"@[5] != "CSS002"@[5]);
        assert("CSS001"@[5] != "CSS005"@[5]);
        assert("CSS004"@[5] != "CSS006"@[5]);
        assert("CSS004"@[5] != "CSS007"@[5]);
        assert("CSS004"@[5] != "CSS008"@[5]);
        assert("CSS004"@[5] != "CSS009"@[5]);
        assert("CSS004"@[4] != "CSS010"@[4]);
        assert("CSS004"@[5] != "CSS003"@[5]);
        assert("CSS004"@[5] != "CSS002"@[5]);
        assert("CSS004"@[5] != "CSS005"@[5]);
        assert("CSS006"@[5] != "CSS007"@[5]);
        assert("CSS006"@[5] != "CSS008"@[5]);
        assert("CSS006"@[5] != "CSS009"@[5]);
        assert("CSS006"@[4] != "CSS010"@[4]);
        assert("CSS006"@[5] != "CSS003"@[5]);
        assert("CSS006"@[5] != "CSS002"@[5]);
        assert("CSS006"@[5] != "CSS005"@[5]);
        assert("CSS007"@[5] != "CSS008"@[5]);
        assert("CSS007"@[5] != "CSS009"@[5]);
        assert("CSS007"@[4] != "CSS010"@[4]);
        assert("CSS007"@[5] != "CSS003"@[5]);
        assert("CSS007"@[5] != "CSS002"@[5]);
        assert("CSS007"@[5] != "CSS005"@[5]);
        assert("CSS008"@[5] != "CSS009"@[5]);
        assert("CSS008"@[4] != "CSS010"@[4]);
        assert("CSS008"@[5] != "CSS003"@[5]);
        assert("CSS008"@[5] != "CSS002"@[5]);
        assert("CSS008"@[5] != "CSS005"@[5]);
        assert("CSS009"@[4] != "CSS010"@[4]);
        assert("CSS009"@[5] != "CSS003"@[5]);
        assert("CSS009"@[5] != "CSS002"@[5]);
        assert("CSS009"@[5] != "CSS005"@[5]);
        assert("CSS010"@[4] != "CSS003"@[4]);
        assert("CSS010"@[4] != "CSS002"@[4]);
        assert("CSS010"@[4] != "CSS005"@[4]);
        assert("CSS003"@[5] != "CSS002"@[5]);
        assert("CSS003"@[5] != "CSS005"@[5]);
        assert("CSS002"@[5] != "CSS005"@[5]);
        let all = seq![LintRule::CSS001(TrailingWhitespace), LintRule::CSS004(UppercaseHexColor), LintRule::CSS006(InlineBlockStyle), LintRule::CSS007(ZeroWithUnit), LintRule::CSS008(MultipleBlankLines), LintRule::CSS009(LeadingZeroDecimal), LintRule::CSS010(UniversalSelector), LintRule::CSS003(MissingSemicolon), LintRule::CSS002(MissingColonSpace), LintRule::CSS005(ImportantUsage)];
        assert(distinct_ids(all));
        let e = Seq::<LintRule>::empty();
        assert(distinct_ids(e + a@)) by {
            assert(e + a@ =~= all.take(7));
        }
        lemma_add_all_fresh(e, a@);
        assert(distinct_ids(a@ + b@)) by {
            assert(a@ + b@ =~= all.take(8));
        }
        lemma_add_all_fresh(a@, b@);
        assert(distinct_ids(a@ + b@ + c@)) by {
            assert(a@ + b@ + c@ =~= all);
        }
        lemma_add_all_fresh(a@ + b@, c@);
        assert(e + a@ =~= a@);
        assert(a@ + b@ + c@ =~= all);
    }
    Linter::new().add_rules(a).add_rules(b).add_rules(c)
}

} // verus!
