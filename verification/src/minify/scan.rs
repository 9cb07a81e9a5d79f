//! Output-buffer operations shared by the scanners.
use vstd::prelude::*;
use crate::text::chars_of;

verus! {

/// `out` with all trailing `' '` characters removed.
pub open spec fn strip_spaces(out: Seq<char>) -> Seq<char>
    decreases out.len(),
{
    if out.len() > 0 && out.last() == ' ' {
        strip_spaces(out.drop_last())
    } else {
        out
    }
}

/// Whether `out` ends with the character `c`.
pub open spec fn ends_in(out: Seq<char>, c: char) -> bool {
    out.len() > 0 && out.last() == c
}

/// Four spaces per level of nesting.
pub open spec fn indent(level: nat) -> Seq<char> {
    Seq::new(4 * level, |k: int| ' ')
}

/// The character after position `i`, if any, equals `c`.
pub open spec fn next_is(s: Seq<char>, i: int, c: char) -> bool {
    i + 1 < s.len() && s[i + 1] == c
}

/// Pops trailing spaces (`while out.ends_with(' ') { out.pop(); }`).
pub fn pop_spaces(out: &mut Vec<char>)
    ensures
        final(out)@ == strip_spaces(old(out)@),
{
    while out.len() > 0 && out[out.len() - 1] == ' '
        invariant
            strip_spaces(out@) == strip_spaces(old(out)@),
        decreases out@.len(),
    {
        let ghost o = out@;
        out.pop();
        assert(out@ =~= o.drop_last());
    }
}

/// Whether the buffer ends with `c`.
pub fn last_is(out: &Vec<char>, c: char) -> (b: bool)
    ensures
        b == ends_in(out@, c),
{
    out.len() > 0 && out[out.len() - 1] == c
}

/// `s[i + 1] == c`, for the scanners' one-character look-ahead.
pub fn peek_is(s: &[char], i: usize, c: char) -> (b: bool)
    ensures
        b == next_is(s@, i as int, c),
{
    i < s.len() && i + 1 < s.len() && s[i + 1] == c
}

/// Appends the characters of a literal.
pub fn push_lit(out: &mut Vec<char>, t: &str)
    ensures
        final(out)@ == old(out)@ + t@,
{
    let tc = chars_of(t);
    let mut k: usize = 0;
    while k < tc.len()
        invariant
            k <= tc@.len(),
            tc@ == t@,
            out@ == old(out)@ + tc@.take(k as int),
        decreases tc@.len() - k,
    {
        out.push(tc[k]);
        assert(tc@.take(k + 1) =~= tc@.take(k as int).push(tc@[k as int]));
        k += 1;
    }
    assert(tc@.take(k as int) =~= tc@);
}

/// Appends `indent(level)`.
pub fn push_indent(out: &mut Vec<char>, level: usize)
    ensures
        final(out)@ == old(out)@ + indent(level as nat),
{
    let mut k: usize = 0;
    while k < level
        invariant
            k <= level,
            out@ == old(out)@ + indent(k as nat),
        decreases level - k,
    {
        let ghost o = out@;
        out.push(' ');
        out.push(' ');
        out.push(' ');
        out.push(' ');
        assert(indent((k + 1) as nat) =~= indent(k as nat) + seq![' ', ' ', ' ', ' ']);
        assert(out@ =~= old(out)@ + indent((k + 1) as nat));
        k += 1;
    }
}

} // verus!

verus! {

/// Pieces joined with `'\n'` between them (`[..].join("\n")`).
pub open spec fn join_nl(ls: Seq<Seq<char>>) -> Seq<char>
    decreases ls.len(),
{
    if ls.len() == 0 {
        seq![]
    } else if ls.len() == 1 {
        ls[0]
    } else {
        join_nl(ls.drop_last()) + seq!['\n'] + ls.last()
    }
}

} // verus!

verus! {

/// The pieces concatenated in order.
pub open spec fn join_all(ps: Seq<Seq<char>>) -> Seq<char>
    decreases ps.len(),
{
    if ps.len() == 0 {
        seq![]
    } else {
        join_all(ps.drop_last()) + ps.last()
    }
}

} // verus!
