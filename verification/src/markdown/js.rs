//! The JavaScript snippets a rendered page needs, each kept once.
use vstd::prelude::*;
use crate::text::{owned, push_str, str_eq};

verus! {

/// No snippet occurs twice.
pub open spec fn distinct(s: Seq<Seq<char>>) -> bool {
    forall|i: int, j: int| 0 <= i < j < s.len() ==> s[i] != s[j]
}

/// `s` with `c` added unless it is already there.
pub open spec fn with_snippet(s: Seq<Seq<char>>, c: Seq<char>) -> Seq<Seq<char>> {
    if s.contains(c) {
        s
    } else {
        s.push(c)
    }
}

/// `s` with each snippet of `cs` added in turn.
pub open spec fn with_all(s: Seq<Seq<char>>, cs: Seq<Seq<char>>) -> Seq<Seq<char>>
    decreases cs.len(),
{
    if cs.len() == 0 {
        s
    } else {
        with_snippet(with_all(s, cs.drop_last()), cs.last())
    }
}

/// Each snippet between line breaks, one after the other.
pub open spec fn js_text(s: Seq<Seq<char>>) -> Seq<char>
    decreases s.len(),
{
    if s.len() == 0 {
        seq![]
    } else {
        js_text(s.drop_last()) + seq!['\n'] + s.last() + seq!['\n']
    }
}

/// A set of JavaScript snippets, each held once, in the order in which they
/// were first added.
#[derive(Clone)]
pub struct Js {
    code: Vec<String>,
}

impl View for Js {
    type V = Seq<Seq<char>>;

    closed spec fn view(&self) -> Seq<Seq<char>> {
        self.code@.map_values(|s: String| s@)
    }
}

impl Js {
    /// No snippet.
    pub fn new() -> (r: Self)
        ensures
            r@ == Seq::<Seq<char>>::empty(),
    {
        let r = Js { code: Vec::new() };
        assert(r@ =~= Seq::<Seq<char>>::empty());
        r
    }

    /// The single snippet `code`.
    pub fn from(code: &str) -> (r: Self)
        ensures
            r@ == seq![code@],
    {
        let mut v: Vec<String> = Vec::new();
        v.push(owned(code));
        assert(v@.map_values(|s: String| s@) =~= seq![code@]);
        Js { code: v }
    }

    /// Whether `code` is already held.
    fn holds(&self, code: &str) -> (b: bool)
        ensures
            b == self@.contains(code@),
    {
        let mut i: usize = 0;
        while i < self.code.len()
            invariant
                i <= self.code@.len(),
                forall|k: int| 0 <= k < i ==> self@[k] != code@,
            decreases self.code@.len() - i,
        {
            assert(self@[i as int] == self.code@[i as int]@);
            if str_eq(self.code[i].as_str(), code) {
                assert(self@[i as int] == code@);
                return true;
            }
            i += 1;
        }
        false
    }

    /// Adds `code` unless it is already held.
    pub fn add(&mut self, code: &str)
        ensures
            final(self)@ == with_snippet(old(self)@, code@),
    {
        if !self.holds(code) {
            let ghost before = self@;
            let mut v: Vec<String> = Vec::new();
            std::mem::swap(&mut v, &mut self.code);
            v.push(owned(code));
            assert(v@.map_values(|s: String| s@) =~= before.push(code@));
            self.code = v;
        }
    }

    /// Adds every snippet of `codes`, in its order.
    pub fn combine(&mut self, codes: &Self)
        ensures
            final(self)@ == with_all(old(self)@, codes@),
    {
        let ghost cs = codes@;
        let mut i: usize = 0;
        while i < codes.code.len()
            invariant
                i <= codes.code@.len(),
                cs == codes@,
                self@ == with_all(old(self)@, cs.take(i as int)),
            decreases codes.code@.len() - i,
        {
            assert(cs.take(i + 1).drop_last() =~= cs.take(i as int));
            assert(cs[i as int] == codes.code@[i as int]@);
            self.add(codes.code[i].as_str());
            i += 1;
        }
        assert(cs.take(i as int) =~= cs);
    }

    /// Every snippet between line breaks.
    pub fn output(&self) -> (r: String)
        ensures
            r@ == js_text(self@),
    {
        let mut r = String::new();
        let mut i: usize = 0;
        while i < self.code.len()
            invariant
                i <= self.code@.len(),
                r@ == js_text(self@.take(i as int)),
            decreases self.code@.len() - i,
        {
            assert(self@.take(i + 1).drop_last() =~= self@.take(i as int));
            assert(self@[i as int] == self.code@[i as int]@);
            push_str(&mut r, "\n");
            push_str(&mut r, self.code[i].as_str());
            push_str(&mut r, "\n");
            proof {
                reveal_strlit("\n");
                assert("\n"@ =~= seq!['\n']);
            }
            i += 1;
        }
        assert(self@.take(i as int) =~= self@);
        r
    }
}

/// Snippets are held once: adding keeps them distinct, and a new set or a
/// set made from one snippet has no repetition.
pub proof fn law_js_distinct(s: Seq<Seq<char>>, c: Seq<char>, cs: Seq<Seq<char>>)
    requires
        distinct(s),
    ensures
        distinct(with_snippet(s, c)),
        distinct(with_all(s, cs)),
        distinct(Seq::<Seq<char>>::empty()),
        distinct(seq![c]),
    decreases cs.len(),
{
    if cs.len() > 0 {
        law_js_distinct(s, c, cs.drop_last());
        law_js_distinct(with_all(s, cs.drop_last()), cs.last(), seq![]);
    }
    if !s.contains(c) {
        let t = s.push(c);
        assert forall|i: int, j: int| 0 <= i < j < t.len() implies t[i] != t[j] by {
            if j == s.len() {
                assert(s[i] == t[i]);
            }
        }
    }
}

} // verus!
