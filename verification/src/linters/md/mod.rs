//! Markdown
pub mod rules;

use vstd::prelude::*;
use crate::lint::linter::{Linter, distinct_ids, lemma_add_all_fresh};
use crate::lint::registry::LintRule;
use crate::linters::md::rules::{image, list};
use crate::linters::md::rules::image::{IncorrectImageSyntax, MissingAltText, ImageUrlNotHttps, SpacesInImageSyntax, MissingImageTitle, ImageFileNotExist, ImageFilenameSpaces, DuplicateAltText, ExternalImageHttps};
use crate::linters::md::rules::list::{ListFormatting, MixedListMarkers, TrailingSpacesInList, BlankLineAfterListItem, SeparateConsecutiveLists, OrderedListNumbering};

verus! {

/// The rules of the Markdown rule set, in order.
pub open spec fn rule_set() -> Seq<LintRule> {
    seq![LintRule::MD005(IncorrectImageSyntax), LintRule::MD016(MissingAltText), LintRule::MD017(ImageUrlNotHttps), LintRule::MD018(SpacesInImageSyntax), LintRule::MD019(MissingImageTitle), LintRule::MD020(ImageFileNotExist), LintRule::MD021(ImageFilenameSpaces), LintRule::MD022(DuplicateAltText), LintRule::MD024(ExternalImageHttps), LintRule::MD006(ListFormatting), LintRule::MD011(MixedListMarkers), LintRule::MD030(TrailingSpacesInList), LintRule::MD031(BlankLineAfterListItem), LintRule::MD032(SeparateConsecutiveLists), LintRule::MD033(OrderedListNumbering)]
}

/// The Markdown rule set: the image rules, then the list rules.
pub fn linter() -> (l: Linter)
    ensures
        l@ == rule_set(),
{
    let a = image::rules();
    let b = list::rules();
    proof {
        reveal_strlit("MD005");
        reveal_strlit("MD016");
        reveal_strlit("MD017");
        reveal_strlit("MD018");
        reveal_strlit("MD019");
        reveal_strlit("MD020");
        reveal_strlit("MD021");
        reveal_strlit("MD022");
        reveal_strlit("MD024");
        reveal_strlit("MD006");
        reveal_strlit("MD011");
        reveal_strlit("MD030");
        reveal_strlit("MD031");
        reveal_strlit("MD032");
        reveal_strlit("MD033");
        assert("MD005"@[3] != "MD016"@[3]);
        assert("MD005"@[3] != "MD017"@[3]);
        assert("MD005"@[3] != "MD018"@[3]);
        assert("MD005"@[3] != "MD019"@[3]);
        assert("MD005"@[3] != "MD020"@[3]);
        assert("MD005"@[3] != "MD021"@[3]);
        assert("MD005"@[3] != "MD022"@[3]);
        assert("MD005"@[3] != "MD024"@[3]);
        assert("MD005"@[4] != "MD006"@[4]);
        assert("MD005"@[3] != "MD011"@[3]);
        assert("MD005"@[3] != "MD030"@[3]);
        assert("MD005"@[3] != "MD031"@[3]);
        assert("MD005"@[3] != "MD032"@[3]);
        assert("MD005"@[3] != "MD033"@[3]);
        assert("MD016"@[4] != "MD017"@[4]);
        assert("MD016"@[4] != "MD018"@[4]);
        assert("MD016"@[4] != "MD019"@[4]);
        assert("MD016"@[3] != "MD020"@[3]);
        assert("MD016"@[3] != "MD021"@[3]);
        assert("MD016"@[3] != "MD022"@[3]);
        assert("MD016"@[3] != "MD024"@[3]);
        assert("MD016"@[3] != "MD006"@[3]);
        assert("MD016"@[4] != "MD011"@[4]);
        assert("MD016"@[3] != "MD030"@[3]);
        assert("MD016"@[3] != "MD031"@[3]);
        assert("MD016"@[3] != "MD032"@[3]);
        assert("MD016"@[3] != "MD033"@[3]);
        assert("MD017"@[4] != "MD018"@[4]);
        assert("MD017"@[4] != "MD019"@[4]);
        assert("MD017"@[3] != "MD020"@[3]);
        assert("MD017"@[3] != "MD021"@[3]);
        assert("MD017"@[3] != "MD022"@[3]);
        assert("MD017"@[3] != "MD024"@[3]);
        assert("MD017"@[3] != "MD006"@[3]);
        assert("MD017"@[4] != "MD011"@[4]);
        assert("MD017"@[3] != "MD030"@[3]);
        assert("MD017"@[3] != "MD031"@[3]);
        assert("MD017"@[3] != "MD032"@[3]);
        assert("MD017"@[3] != "MD033"@[3]);
        assert("MD018"@[4] != "MD019"@[4]);
        assert("MD018"@[3] != "MD020"@[3]);
        assert("MD018"@[3] != "MD021"@[3]);
        assert("MD018"@[3] != "MD022"@[3]);
        assert("MD018"@[3] != "MD024"@[3]);
        assert("MD018"@[3] != "MD006"@[3]);
        assert("MD018"@[4] != "MD011"@[4]);
        assert("MD018"@[3] != "MD030"@[3]);
        assert("MD018"@[3] != "MD031"@[3]);
        assert("MD018"@[3] != "MD032"@[3]);
        assert("MD018"@[3] != "MD033"@[3]);
        assert("MD019"@[3] != "MD020"@[3]);
        assert("MD019"@[3] != "MD021"@[3]);
        assert("MD019"@[3] != "MD022"@[3]);
        assert("MD019"@[3] != "MD024"@[3]);
        assert("MD019"@[3] != "MD006"@[3]);
        assert("MD019"@[4] != "MD011"@[4]);
        assert("MD019"@[3] != "MD030"@[3]);
        assert("MD019"@[3] != "MD031"@[3]);
        assert("MD019"@[3] != "MD032"@[3]);
        assert("MD019"@[3] != "MD033"@[3]);
        assert("MD020"@[4] != "MD021"@[4]);
        assert("MD020"@[4] != "MD022"@[4]);
        assert("MD020"@[4] != "MD024"@[4]);
        assert("MD020"@[3] != "MD006"@[3]);
        assert("MD020"@[3] != "MD011"@[3]);
        assert("MD020"@[3] != "MD030"@[3]);
        assert("MD020"@[3] != "MD031"@[3]);
        assert("MD020"@[3] != "MD032"@[3]);
        assert("MD020"@[3] != "MD033"@[3]);
        assert("MD021"@[4] != "MD022"@[4]);
        assert("MD021"@[4] != "MD024"@[4]);
        assert("MD021"@[3] != "MD006"@[3]);
        assert("MD021"@[3] != "MD011"@[3]);
        assert("MD021"@[3] != "MD030"@[3]);
        assert("MD021"@[3] != "MD031"@[3]);
        assert("MD021"@[3] != "MD032"@[3]);
        assert("MD021"@[3] != "MD033"@[3]);
        assert("MD022"@[4] != "MD024"@[4]);
        assert("MD022"@[3] != "MD006"@[3]);
        assert("MD022"@[3] != "MD011"@[3]);
        assert("MD022"@[3] != "MD030"@[3]);
        assert("MD022"@[3] != "MD031"@[3]);
        assert("MD022"@[3] != "MD032"@[3]);
        assert("MD022"@[3] != "MD033"@[3]);
        assert("MD024"@[3] != "MD006"@[3]);
        assert("MD024"@[3] != "MD011"@[3]);
        assert("MD024"@[3] != "MD030"@[3]);
        assert("MD024"@[3] != "MD031"@[3]);
        assert("MD024"@[3] != "MD032"@[3]);
        assert("MD024"@[3] != "MD033"@[3]);
        assert("MD006"@[3] != "MD011"@[3]);
        assert("MD006"@[3] != "MD030"@[3]);
        assert("MD006"@[3] != "MD031"@[3]);
        assert("MD006"@[3] != "MD032"@[3]);
        assert("MD006"@[3] != "MD033"@[3]);
        assert("MD011"@[3] != "MD030"@[3]);
        assert("MD011"@[3] != "MD031"@[3]);
        assert("MD011"@[3] != "MD032"@[3]);
        assert("MD011"@[3] != "MD033"@[3]);
        assert("MD030"@[4] != "MD031"@[4]);
        assert("MD030"@[4] != "MD032"@[4]);
        assert("MD030"@[4] != "MD033"@[4]);
        assert("MD031"@[4] != "MD032"@[4]);
        assert("MD031"@[4] != "MD033"@[4]);
        assert("MD032"@[4] != "MD033"@[4]);
        let all = seq![LintRule::MD005(IncorrectImageSyntax), LintRule::MD016(MissingAltText), LintRule::MD017(ImageUrlNotHttps), LintRule::MD018(SpacesInImageSyntax), LintRule::MD019(MissingImageTitle), LintRule::MD020(ImageFileNotExist), LintRule::MD021(ImageFilenameSpaces), LintRule::MD022(DuplicateAltText), LintRule::MD024(ExternalImageHttps), LintRule::MD006(ListFormatting), LintRule::MD011(MixedListMarkers), LintRule::MD030(TrailingSpacesInList), LintRule::MD031(BlankLineAfterListItem), LintRule::MD032(SeparateConsecutiveLists), LintRule::MD033(OrderedListNumbering)];
        assert(distinct_ids(all));
        let e = Seq::<LintRule>::empty();
        assert(distinct_ids(e + a@)) by {
            assert(e + a@ =~= all.take(9));
        }
        lemma_add_all_fresh(e, a@);
        assert(distinct_ids(a@ + b@)) by {
            assert(a@ + b@ =~= all);
        }
        lemma_add_all_fresh(a@, b@);
        assert(e + a@ =~= a@);
        assert(a@ + b@ =~= all);
    }
    Linter::new().add_rules(a).add_rules(b)
}

} // verus!
