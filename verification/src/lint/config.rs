use vstd::prelude::*;
use crate::text::str_eq;

verus! {

/// Which rules are switched off.
#[derive(Debug)]
pub struct LintConfig {
    disabled_rules: Vec<&'static str>,
}

/// A rule id is enabled when no disabled entry equals it.
pub open spec fn enabled(disabled: Seq<Seq<char>>, id: Seq<char>) -> bool {
    !disabled.contains(id)
}

impl View for LintConfig {
    type V = Seq<Seq<char>>;

    /// The ids of the disabled rules, in the order they were disabled.
    closed spec fn view(&self) -> Seq<Seq<char>> {
        self.disabled_rules@.map_values(|s: &'static str| s@)
    }
}

impl LintConfig {
    /// A configuration with every rule enabled.
    pub fn new() -> (c: Self)
        ensures
            c@ == Seq::<Seq<char>>::empty(),
    {
        let c = LintConfig { disabled_rules: Vec::new() };
        assert(c@ =~= Seq::<Seq<char>>::empty());
        c
    }

    /// The same configuration with rule `id` disabled as well.
    pub fn disable(self, id: &'static str) -> (c: Self)
        ensures
            c@ == self@.push(id@),
    {
        let mut rules = self.disabled_rules;
        rules.push(id);
        let c = LintConfig { disabled_rules: rules };
        assert(c@ =~= self@.push(id@));
        c
    }

    /// Whether rule `id` is enabled.
    pub fn is_enabled(&self, id: &str) -> (b: bool)
        ensures
            b == enabled(self@, id@),
    {
        let mut i: usize = 0;
        while i < self.disabled_rules.len()
            invariant
                i <= self@.len(),
                self@.len() == self.disabled_rules@.len(),
                forall|j: int| 0 <= j < i ==> self@[j] != id@,
            decreases self@.len() - i,
        {
            if str_eq(self.disabled_rules[i], id) {
                assert(self@[i as int] == id@);
                return false;
            }
            i += 1;
        }
        true
    }
}

} // verus!
