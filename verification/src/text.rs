//! Character-level text primitives shared by the linters, the minifiers and
//! the Markdown renderer. Text is modelled as a sequence of `char`s; byte
//! offsets (as Rust's `str` APIs report them) are recovered with `utf8_len`.
use vstd::prelude::*;

verus! {

// ------------------------------------------------------------------
// Character classes
// ------------------------------------------------------------------

/// Unicode `White_Space` property, as tested by `char::is_whitespace`.
pub open spec fn is_ws(c: char) -> bool {
    let u = c as u32;
    ||| (0x09 <= u && u <= 0x0d)
    ||| u == 0x20
    ||| u == 0x85
    ||| u == 0xa0
    ||| u == 0x1680
    ||| (0x2000 <= u && u <= 0x200a)
    ||| u == 0x2028
    ||| u == 0x2029
    ||| u == 0x202f
    ||| u == 0x205f
    ||| u == 0x3000
}

/// Exec version of `is_ws`.
pub fn is_whitespace(c: char) -> (b: bool)
    ensures
        b == is_ws(c),
{
    let u = c as u32;
    (0x09 <= u && u <= 0x0d) || u == 0x20 || u == 0x85 || u == 0xa0 || u == 0x1680 || (0x2000
        <= u && u <= 0x200a) || u == 0x2028 || u == 0x2029 || u == 0x202f || u == 0x205f || u
        == 0x3000
}

pub open spec fn is_ascii_upper(c: char) -> bool {
    'A' <= c && c <= 'Z'
}

pub open spec fn is_ascii_digit(c: char) -> bool {
    '0' <= c && c <= '9'
}

/// Number of bytes of the UTF-8 encoding of `c`.
pub open spec fn char_width(c: char) -> nat {
    let u = c as u32;
    if u < 0x80 {
        1
    } else if u < 0x800 {
        2
    } else if u < 0x10000 {
        3
    } else {
        4
    }
}

/// Exec version of `char_width` (`char::len_utf8`).
pub fn width_of(c: char) -> (w: usize)
    ensures
        w == char_width(c),
{
    let u = c as u32;
    if u < 0x80 {
        1
    } else if u < 0x800 {
        2
    } else if u < 0x10000 {
        3
    } else {
        4
    }
}

/// Length in bytes of the UTF-8 encoding of `s` (what `str::len` reports).
pub open spec fn utf8_len(s: Seq<char>) -> nat
    decreases s.len(),
{
    if s.len() == 0 {
        0
    } else {
        utf8_len(s.drop_last()) + char_width(s.last())
    }
}

/// A text whose UTF-8 encoding fits in memory (Rust strings never exceed
/// `isize::MAX` bytes).
pub open spec fn fits(s: Seq<char>) -> bool {
    utf8_len(s) <= isize::MAX
}

pub proof fn lemma_utf8_len_concat(a: Seq<char>, b: Seq<char>)
    ensures
        utf8_len(a + b) == utf8_len(a) + utf8_len(b),
    decreases b.len(),
{
    if b.len() == 0 {
        assert(a + b =~= a);
    } else {
        lemma_utf8_len_concat(a, b.drop_last());
        assert((a + b).drop_last() =~= a + b.drop_last());
    }
}

pub proof fn lemma_utf8_len_bounds(s: Seq<char>)
    ensures
        s.len() <= utf8_len(s),
        utf8_len(s) <= 4 * s.len(),
    decreases s.len(),
{
    if s.len() > 0 {
        lemma_utf8_len_bounds(s.drop_last());
    }
}

pub proof fn lemma_utf8_len_take(s: Seq<char>, i: int)
    requires
        0 <= i <= s.len(),
    ensures
        utf8_len(s.take(i)) <= utf8_len(s),
        utf8_len(s.take(i)) + utf8_len(s.skip(i)) == utf8_len(s),
{
    lemma_utf8_len_concat(s.take(i), s.skip(i));
    assert(s.take(i) + s.skip(i) =~= s);
}

pub proof fn lemma_utf8_len_subrange(s: Seq<char>, i: int, j: int)
    requires
        0 <= i <= j <= s.len(),
    ensures
        utf8_len(s.subrange(i, j)) <= utf8_len(s),
        utf8_len(s.take(i)) + utf8_len(s.subrange(i, j)) == utf8_len(s.take(j)),
{
    lemma_utf8_len_concat(s.take(i), s.subrange(i, j));
    assert(s.take(i) + s.subrange(i, j) =~= s.take(j));
    lemma_utf8_len_take(s, j);
}

/// Byte length of a character slice.
pub fn byte_len(s: &[char]) -> (n: usize)
    requires
        utf8_len(s@) <= usize::MAX,
    ensures
        n == utf8_len(s@),
{
    let mut n: usize = 0;
    let mut i: usize = 0;
    while i < s.len()
        invariant
            i <= s@.len(),
            n == utf8_len(s@.take(i as int)),
            utf8_len(s@) <= usize::MAX,
        decreases s@.len() - i,
    {
        proof {
            assert(s@.take(i + 1).drop_last() =~= s@.take(i as int));
            lemma_utf8_len_take(s@, i + 1);
        }
        n = n + width_of(s[i]);
        i += 1;
    }
    assert(s@.take(i as int) =~= s@);
    n
}

/// Byte length of the first `k` characters of `s` (a char index turned
/// into a byte offset).
pub fn prefix_bytes(s: &[char], k: usize) -> (n: usize)
    requires
        k <= s@.len(),
        utf8_len(s@) <= usize::MAX,
    ensures
        n == utf8_len(s@.take(k as int)),
{
    let mut n: usize = 0;
    let mut i: usize = 0;
    while i < k
        invariant
            i <= k <= s@.len(),
            n == utf8_len(s@.take(i as int)),
            utf8_len(s@) <= usize::MAX,
        decreases k - i,
    {
        proof {
            assert(s@.take(i + 1).drop_last() =~= s@.take(i as int));
            lemma_utf8_len_take(s@, i + 1);
        }
        n = n + width_of(s[i]);
        i += 1;
    }
    n
}

// ------------------------------------------------------------------
// Conversions between `str` and character vectors
// ------------------------------------------------------------------

/// The characters of `s`.
pub fn chars_of(s: &str) -> (v: Vec<char>)
    ensures
        v@ == s@,
{
    let mut v: Vec<char> = Vec::new();
    for c in it: s.chars()
        invariant
            v@ == it.seq().take(it.index() as int),
            it.seq() == s@,
    {
        v.push(c);
    }
    v
}

/// A `String` holding the characters of `v`.
pub fn string_of(v: &[char]) -> (s: String)
    ensures
        s@ == v@,
{
    let mut s = String::new();
    let mut i: usize = 0;
    while i < v.len()
        invariant
            i <= v@.len(),
            s@ == v@.take(i as int),
        decreases v@.len() - i,
    {
        push_char(&mut s, v[i]);
        assert(v@.take(i + 1) =~= v@.take(i as int).push(v@[i as int]));
        i += 1;
    }
    assert(v@.take(i as int) =~= v@);
    s
}

/// `String::push`.
#[verifier::external_body]
pub fn push_char(s: &mut String, c: char)
    ensures
        final(s)@ == old(s)@.push(c),
{
    s.push(c);
}

/// `String::push_str`.
#[verifier::external_body]
pub fn push_str(s: &mut String, t: &str)
    ensures
        final(s)@ == old(s)@ + t@,
{
    s.push_str(t);
}

/// Appends the characters of `t` to `s`.
pub fn push_chars(s: &mut String, t: &[char])
    ensures
        final(s)@ == old(s)@ + t@,
{
    let mut i: usize = 0;
    while i < t.len()
        invariant
            i <= t@.len(),
            s@ == old(s)@ + t@.take(i as int),
        decreases t@.len() - i,
    {
        push_char(s, t[i]);
        assert(t@.take(i + 1) =~= t@.take(i as int).push(t@[i as int]));
        i += 1;
    }
    assert(t@.take(i as int) =~= t@);
}

/// A fresh `String` equal to the literal or slice `t`.
pub fn owned(t: &str) -> (s: String)
    ensures
        s@ == t@,
{
    let mut s = String::new();
    push_str(&mut s, t);
    s
}

/// The characters `s[a..b]` as a new vector.
pub fn slice_of(s: &[char], a: usize, b: usize) -> (r: Vec<char>)
    requires
        a <= b <= s@.len(),
    ensures
        r@ == s@.subrange(a as int, b as int),
{
    let mut r: Vec<char> = Vec::new();
    let mut i: usize = a;
    while i < b
        invariant
            a <= i <= b <= s@.len(),
            r@ == s@.subrange(a as int, i as int),
        decreases b - i,
    {
        r.push(s[i]);
        assert(s@.subrange(a as int, i + 1) =~= s@.subrange(a as int, i as int).push(s@[i as int]));
        i += 1;
    }
    r
}

/// Equality of two character slices.
pub fn chars_eq(a: &[char], b: &[char]) -> (r: bool)
    ensures
        r == (a@ == b@),
{
    if a.len() != b.len() {
        return false;
    }
    let mut i: usize = 0;
    while i < a.len()
        invariant
            a@.len() == b@.len(),
            i <= a@.len(),
            forall|j: int| 0 <= j < i ==> a@[j] == b@[j],
        decreases a@.len() - i,
    {
        if a[i] != b[i] {
            return false;
        }
        i += 1;
    }
    assert(a@ =~= b@);
    true
}

/// Equality of two string slices.
pub fn str_eq(a: &str, b: &str) -> (r: bool)
    ensures
        r == (a@ == b@),
{
    let x = chars_of(a);
    let y = chars_of(b);
    chars_eq(x.as_slice(), y.as_slice())
}

// ------------------------------------------------------------------
// Prefixes, suffixes and trimming
// ------------------------------------------------------------------

pub open spec fn starts_with(s: Seq<char>, p: Seq<char>) -> bool {
    p.len() <= s.len() && s.take(p.len() as int) == p
}

pub open spec fn ends_with(s: Seq<char>, p: Seq<char>) -> bool {
    p.len() <= s.len() && s.skip(s.len() - p.len()) == p
}

pub fn has_prefix(s: &[char], p: &[char]) -> (r: bool)
    ensures
        r == starts_with(s@, p@),
{
    if p.len() > s.len() {
        return false;
    }
    let mut i: usize = 0;
    while i < p.len()
        invariant
            p@.len() <= s@.len(),
            i <= p@.len(),
            forall|j: int| 0 <= j < i ==> s@[j] == p@[j],
        decreases p@.len() - i,
    {
        if s[i] != p[i] {
            assert(s@.take(p@.len() as int)[i as int] != p@[i as int]);
            return false;
        }
        i += 1;
    }
    assert(s@.take(p@.len() as int) =~= p@);
    true
}

pub fn has_suffix(s: &[char], p: &[char]) -> (r: bool)
    ensures
        r == ends_with(s@, p@),
{
    if p.len() > s.len() {
        return false;
    }
    let off = s.len() - p.len();
    let mut i: usize = 0;
    while i < p.len()
        invariant
            p@.len() <= s@.len(),
            s@.len() <= usize::MAX,
            off == s@.len() - p@.len(),
            i <= p@.len(),
            forall|j: int| 0 <= j < i ==> s@[off + j] == p@[j],
        decreases p@.len() - i,
    {
        if s[off + i] != p[i] {
            assert(s@.skip(off as int)[i as int] != p@[i as int]);
            return false;
        }
        i += 1;
    }
    assert(s@.skip(off as int) =~= p@);
    true
}

/// `str::starts_with` with a literal pattern.
pub fn starts_with_lit(s: &[char], p: &str) -> (r: bool)
    ensures
        r == starts_with(s@, p@),
{
    let pc = chars_of(p);
    has_prefix(s, pc.as_slice())
}

/// `str::ends_with` with a literal pattern.
pub fn ends_with_lit(s: &[char], p: &str) -> (r: bool)
    ensures
        r == ends_with(s@, p@),
{
    let pc = chars_of(p);
    has_suffix(s, pc.as_slice())
}

/// `s` with trailing whitespace removed (`str::trim_end`).
pub open spec fn trim_end(s: Seq<char>) -> Seq<char>
    decreases s.len(),
{
    if s.len() > 0 && is_ws(s.last()) {
        trim_end(s.drop_last())
    } else {
        s
    }
}

/// `s` with leading whitespace removed (`str::trim_start`).
pub open spec fn trim_start(s: Seq<char>) -> Seq<char>
    decreases s.len(),
{
    if s.len() > 0 && is_ws(s[0]) {
        trim_start(s.drop_first())
    } else {
        s
    }
}

/// `str::trim`.
pub open spec fn trim(s: Seq<char>) -> Seq<char> {
    trim_end(trim_start(s))
}

/// Whether a line is blank (`line.trim().is_empty()`).
pub open spec fn is_blank(s: Seq<char>) -> bool {
    trim(s).len() == 0
}

pub proof fn lemma_trim_end_prefix(s: Seq<char>)
    ensures
        trim_end(s).len() <= s.len(),
        trim_end(s) == s.take(trim_end(s).len() as int),
    decreases s.len(),
{
    if s.len() > 0 && is_ws(s.last()) {
        lemma_trim_end_prefix(s.drop_last());
        assert(s.drop_last().take(trim_end(s).len() as int) =~= s.take(trim_end(s).len() as int));
    } else {
        assert(s.take(s.len() as int) =~= s);
    }
}

pub proof fn lemma_trim_start_suffix(s: Seq<char>)
    ensures
        trim_start(s).len() <= s.len(),
        trim_start(s) == s.skip(s.len() - trim_start(s).len()),
    decreases s.len(),
{
    if s.len() > 0 && is_ws(s[0]) {
        lemma_trim_start_suffix(s.drop_first());
        assert(s.drop_first().skip(s.drop_first().len() - trim_start(s).len()) =~= s.skip(
            s.len() - trim_start(s).len(),
        ));
    } else {
        assert(s.skip(0) =~= s);
    }
}

/// Length of `trim_end(s)`.
pub fn trim_end_len(s: &[char]) -> (k: usize)
    ensures
        k <= s@.len(),
        s@.take(k as int) == trim_end(s@),
{
    let mut k: usize = s.len();
    assert(s@.take(s@.len() as int) =~= s@);
    while k > 0 && is_whitespace(s[k - 1])
        invariant
            k <= s@.len(),
            trim_end(s@) == trim_end(s@.take(k as int)),
        decreases k,
    {
        assert(s@.take(k as int).drop_last() =~= s@.take(k - 1));
        k -= 1;
    }
    assert(s@.take(s@.len() as int) =~= s@);
    k
}

/// Number of leading whitespace characters (`s.len() - trim_start(s).len()`).
pub fn trim_start_idx(s: &[char]) -> (k: usize)
    ensures
        k <= s@.len(),
        s@.skip(k as int) == trim_start(s@),
{
    let mut k: usize = 0;
    assert(s@.skip(0) =~= s@);
    while k < s.len() && is_whitespace(s[k])
        invariant
            k <= s@.len(),
            trim_start(s@) == trim_start(s@.skip(k as int)),
        decreases s@.len() - k,
    {
        assert(s@.skip(k as int).drop_first() =~= s@.skip(k + 1));
        k += 1;
    }
    assert(s@.skip(0) =~= s@);
    k
}

/// `str::trim_end` as a new vector.
pub fn trimmed_end(s: &[char]) -> (r: Vec<char>)
    ensures
        r@ == trim_end(s@),
{
    let k = trim_end_len(s);
    slice_of(s, 0, k)
}

/// `str::trim_start` as a new vector.
pub fn trimmed_start(s: &[char]) -> (r: Vec<char>)
    ensures
        r@ == trim_start(s@),
{
    let k = trim_start_idx(s);
    slice_of(s, k, s.len())
}

/// `str::trim` as a new vector.
pub fn trimmed(s: &[char]) -> (r: Vec<char>)
    ensures
        r@ == trim(s@),
{
    let a = trimmed_start(s);
    trimmed_end(a.as_slice())
}

// ------------------------------------------------------------------
// Searching
// ------------------------------------------------------------------

/// `p` occurs in `s` at index `i`.
pub open spec fn matches_at(s: Seq<char>, p: Seq<char>, i: int) -> bool {
    0 <= i && i + p.len() <= s.len() && s.subrange(i, i + p.len()) == p
}

/// First occurrence of `p` in `s` at or after `i`.
pub open spec fn find_from(s: Seq<char>, p: Seq<char>, i: int) -> Option<int>
    decreases s.len() + 1 - i,
{
    if i < 0 || i + p.len() > s.len() {
        None
    } else if matches_at(s, p, i) {
        Some(i)
    } else {
        find_from(s, p, i + 1)
    }
}

/// First occurrence of `p` in `s` (character index), as `str::find`.
pub open spec fn find(s: Seq<char>, p: Seq<char>) -> Option<int> {
    find_from(s, p, 0)
}

/// `str::contains`.
pub open spec fn contains(s: Seq<char>, p: Seq<char>) -> bool {
    find(s, p) is Some
}

pub proof fn lemma_find_from(s: Seq<char>, p: Seq<char>, i: int)
    requires
        0 <= i,
    ensures
        find_from(s, p, i) matches Some(k) ==> i <= k && matches_at(s, p, k) && forall|j: int|
            i <= j < k ==> !matches_at(s, p, j),
        find_from(s, p, i) is None ==> forall|j: int| i <= j ==> !matches_at(s, p, j),
    decreases s.len() + 1 - i,
{
    if i + p.len() > s.len() {
    } else if matches_at(s, p, i) {
    } else {
        lemma_find_from(s, p, i + 1);
    }
}

/// Characterisation of `find`: the first index where `p` occurs.
pub proof fn lemma_find(s: Seq<char>, p: Seq<char>)
    ensures
        find(s, p) matches Some(k) ==> matches_at(s, p, k) && forall|j: int|
            0 <= j < k ==> !matches_at(s, p, j),
        find(s, p) is None ==> forall|j: int| !matches_at(s, p, j),
        contains(s, p) <==> exists|j: int| matches_at(s, p, j),
{
    lemma_find_from(s, p, 0);
    if let Some(k) = find(s, p) {
        assert(matches_at(s, p, k));
    }
}

/// Exec `find` over character slices.
pub fn find_chars(s: &[char], p: &[char]) -> (r: Option<usize>)
    ensures
        match r {
            Some(k) => find(s@, p@) == Some(k as int),
            None => find(s@, p@) is None,
        },
{
    if p.len() > s.len() {
        return None;
    }
    let last = s.len() - p.len();
    let mut i: usize = 0;
    loop
        invariant
            p@.len() <= s@.len(),
            s@.len() <= usize::MAX,
            last == s@.len() - p@.len(),
            i <= last,
            find(s@, p@) == find_from(s@, p@, i as int),
        decreases last - i,
    {
        let mut j: usize = 0;
        let mut ok = true;
        while j < p.len() && ok
            invariant
                i <= last,
                p@.len() <= s@.len(),
                s@.len() <= usize::MAX,
                last == s@.len() - p@.len(),
                j <= p@.len(),
                ok ==> forall|t: int| 0 <= t < j ==> s@[i + t] == p@[t],
                !ok ==> !matches_at(s@, p@, i as int),
            decreases p@.len() - j,
        {
            if s[i + j] != p[j] {
                ok = false;
                assert(s@.subrange(i as int, i + p@.len())[j as int] != p@[j as int]);
            }
            j += 1;
        }
        if ok {
            assert(s@.subrange(i as int, i + p@.len()) =~= p@);
            return Some(i);
        }
        if i == last {
            return None;
        }
        i += 1;
    }
}

/// Exec `find_from`: the first occurrence of `p` in `s` at or after `from`.
pub fn find_chars_from(s: &[char], p: &[char], from: usize) -> (r: Option<usize>)
    requires
        from <= s@.len(),
    ensures
        match r {
            Some(k) => find_from(s@, p@, from as int) == Some(k as int),
            None => find_from(s@, p@, from as int) is None,
        },
{
    if p.len() > s.len() || from > s.len() - p.len() {
        return None;
    }
    let last = s.len() - p.len();
    let mut i: usize = from;
    loop
        invariant
            p@.len() <= s@.len(),
            s@.len() <= usize::MAX,
            last == s@.len() - p@.len(),
            from <= i <= last,
            find_from(s@, p@, from as int) == find_from(s@, p@, i as int),
        decreases last - i,
    {
        let mut j: usize = 0;
        let mut ok = true;
        while j < p.len() && ok
            invariant
                i <= last,
                p@.len() <= s@.len(),
                s@.len() <= usize::MAX,
                last == s@.len() - p@.len(),
                j <= p@.len(),
                ok ==> forall|t: int| 0 <= t < j ==> s@[i + t] == p@[t],
                !ok ==> !matches_at(s@, p@, i as int),
            decreases p@.len() - j,
        {
            if s[i + j] != p[j] {
                ok = false;
                assert(s@.subrange(i as int, i + p@.len())[j as int] != p@[j as int]);
            }
            j += 1;
        }
        if ok {
            assert(s@.subrange(i as int, i + p@.len()) =~= p@);
            return Some(i);
        }
        if i == last {
            return None;
        }
        i += 1;
    }
}

/// Character indices of the non-overlapping occurrences of `p` in `s`
/// at or after `i`, from left to right (`str::match_indices`).
pub open spec fn matches_from(s: Seq<char>, p: Seq<char>, i: int) -> Seq<int>
    decreases s.len() + 1 - i,
{
    if p.len() == 0 || i < 0 {
        seq![]
    } else {
        match find_from(s, p, i) {
            Some(k) => if i <= k && k + p.len() <= s.len() {
                seq![k] + matches_from(s, p, k + p.len())
            } else {
                seq![]
            },
            None => seq![],
        }
    }
}

/// `str::match_indices`, in character indices.
pub open spec fn match_indices(s: Seq<char>, p: Seq<char>) -> Seq<int> {
    matches_from(s, p, 0)
}

pub proof fn lemma_matches_from_at(s: Seq<char>, p: Seq<char>, i: int)
    requires
        0 <= i,
    ensures
        forall|m: int|
            0 <= m < matches_from(s, p, i).len() ==> matches_at(s, p, #[trigger] matches_from(s, p, i)[m]),
    decreases s.len() + 1 - i,
{
    if p.len() > 0 {
        if let Some(k) = find_from(s, p, i) {
            lemma_find_from(s, p, i);
            if i <= k && k + p.len() <= s.len() {
                lemma_matches_from_at(s, p, k + p.len());
                let r = matches_from(s, p, i);
                assert forall|m: int| 0 <= m < r.len() implies matches_at(s, p, #[trigger] r[m]) by {
                    if m > 0 {
                        assert(r[m] == matches_from(s, p, k + p.len())[m - 1]);
                    }
                }
            }
        }
    }
}

/// Every match index is a position where `p` occurs.
pub proof fn lemma_match_indices_at(s: Seq<char>, p: Seq<char>)
    ensures
        forall|m: int|
            0 <= m < match_indices(s, p).len() ==> matches_at(s, p, #[trigger] match_indices(s, p)[m]),
{
    lemma_matches_from_at(s, p, 0);
}

/// The character positions of the matches of `p` in `s`.
pub fn match_positions(s: &[char], p: &[char]) -> (r: Vec<usize>)
    requires
        p@.len() > 0,
    ensures
        r@.map_values(|k: usize| k as int) == match_indices(s@, p@),
        forall|j: int| 0 <= j < r@.len() ==> #[trigger] r@[j] + p@.len() <= s@.len(),
{
    let mut r: Vec<usize> = Vec::new();
    let mut i: usize = 0;
    let n = s.len();
    loop
        invariant
            p@.len() > 0,
            n == s@.len(),
            i <= s@.len(),
            match_indices(s@, p@) == r@.map_values(|k: usize| k as int) + matches_from(s@, p@, i as int),
            forall|j: int| 0 <= j < r@.len() ==> #[trigger] r@[j] + p@.len() <= s@.len(),
        decreases s@.len() + 1 - i,
    {
        proof {
            lemma_find_from(s@, p@, i as int);
        }
        match find_chars_from(s, p, i) {
            None => {
                assert(matches_from(s@, p@, i as int) =~= Seq::<int>::empty());
                assert(r@.map_values(|k: usize| k as int) + Seq::<int>::empty() =~= r@.map_values(|k: usize| k as int));
                return r;
            },
            Some(k) => {
                assert(matches_at(s@, p@, k as int));
                let ghost old_r = r@;
                r.push(k);
                assert(r@.map_values(|k: usize| k as int) =~= old_r.map_values(|k: usize| k as int).push(k as int));
                assert(matches_from(s@, p@, i as int) == seq![k as int] + matches_from(s@, p@, k + p@.len()));
                assert(old_r.map_values(|k: usize| k as int) + matches_from(s@, p@, i as int) =~= r@.map_values(|k: usize| k as int) + matches_from(s@, p@, k + p@.len()));
                i = k + p.len();
            },
        }
    }
}

/// `match_positions` with a literal pattern.
pub fn match_positions_lit(s: &[char], p: &str) -> (r: Vec<usize>)
    requires
        p@.len() > 0,
    ensures
        r@.map_values(|k: usize| k as int) == match_indices(s@, p@),
        forall|j: int| 0 <= j < r@.len() ==> #[trigger] r@[j] + p@.len() <= s@.len(),
{
    let pc = chars_of(p);
    match_positions(s, pc.as_slice())
}

/// `str::find` with a literal pattern.
pub fn find_lit(s: &[char], p: &str) -> (r: Option<usize>)
    ensures
        match r {
            Some(k) => find(s@, p@) == Some(k as int),
            None => find(s@, p@) is None,
        },
{
    let pc = chars_of(p);
    find_chars(s, pc.as_slice())
}

/// `str::contains` with a literal pattern.
pub fn contains_lit(s: &[char], p: &str) -> (r: bool)
    ensures
        r == contains(s@, p@),
{
    find_lit(s, p).is_some()
}

/// `str::find` with a single-character pattern.
pub fn find_char(s: &[char], c: char) -> (r: Option<usize>)
    ensures
        match r {
            Some(k) => find(s@, seq![c]) == Some(k as int),
            None => find(s@, seq![c]) is None,
        },
{
    let pc = vec![c];
    assert(pc@ =~= seq![c]);
    find_chars(s, pc.as_slice())
}

/// `str::contains` with a single-character pattern.
pub fn contains_char(s: &[char], c: char) -> (r: bool)
    ensures
        r == contains(s@, seq![c]),
{
    find_char(s, c).is_some()
}

/// Last index of `c` in `s` (`str::rfind` with a character pattern).
pub open spec fn rfind_char(s: Seq<char>, c: char) -> Option<int>
    decreases s.len(),
{
    if s.len() == 0 {
        None
    } else if s.last() == c {
        Some(s.len() - 1)
    } else {
        rfind_char(s.drop_last(), c)
    }
}

pub proof fn lemma_rfind_char(s: Seq<char>, c: char)
    ensures
        rfind_char(s, c) matches Some(k) ==> 0 <= k < s.len() && s[k] == c,
    decreases s.len(),
{
    if s.len() > 0 && s.last() != c {
        lemma_rfind_char(s.drop_last(), c);
    }
}

/// Whether `utf8_len(s) <= isize::MAX`, computed without overflow.
pub fn fits_exec(s: &[char]) -> (b: bool)
    ensures
        b == fits(s@),
{
    let mut n: usize = 0;
    let mut i: usize = 0;
    while i < s.len()
        invariant
            i <= s@.len(),
            n == utf8_len(s@.take(i as int)),
            n <= isize::MAX,
        decreases s@.len() - i,
    {
        proof {
            assert(s@.take(i + 1).drop_last() =~= s@.take(i as int));
            lemma_utf8_len_take(s@, i + 1);
            lemma_utf8_len_take(s@, i as int);
        }
        let w = width_of(s[i]);
        if w > (isize::MAX as usize) - n {
            proof {
                lemma_utf8_len_take(s@, i + 1);
            }
            return false;
        }
        n = n + w;
        i += 1;
    }
    assert(s@.take(i as int) =~= s@);
    true
}

pub fn rfind_char_exec(s: &[char], c: char) -> (r: Option<usize>)
    ensures
        match r {
            Some(k) => rfind_char(s@, c) == Some(k as int),
            None => rfind_char(s@, c) is None,
        },
{
    let mut k: usize = s.len();
    assert(s@.take(s@.len() as int) =~= s@);
    while k > 0
        invariant
            k <= s@.len(),
            rfind_char(s@, c) == rfind_char(s@.take(k as int), c),
        decreases k,
    {
        if s[k - 1] == c {
            return Some(k - 1);
        }
        assert(s@.take(k as int).drop_last() =~= s@.take(k - 1));
        k -= 1;
    }
    assert(s@.take(s@.len() as int) =~= s@);
    None
}

// ------------------------------------------------------------------
// Splitting
// ------------------------------------------------------------------

/// `str::split(c)`: the pieces of `s` between occurrences of `c`
/// (always at least one piece).
pub open spec fn split_char(s: Seq<char>, c: char) -> Seq<Seq<char>>
    decreases s.len(),
{
    if s.len() == 0 {
        seq![Seq::<char>::empty()]
    } else {
        let r = split_char(s.drop_last(), c);
        if s.last() == c {
            r.push(Seq::<char>::empty())
        } else {
            r.update(r.len() - 1, r.last().push(s.last()))
        }
    }
}

pub proof fn lemma_split_nonempty(s: Seq<char>, c: char)
    ensures
        split_char(s, c).len() >= 1,
    decreases s.len(),
{
    if s.len() > 0 {
        lemma_split_nonempty(s.drop_last(), c);
    }
}

/// A line terminated by `\n` loses one trailing `\r`.
pub open spec fn strip_cr(l: Seq<char>) -> Seq<char> {
    if l.len() > 0 && l.last() == '\r' {
        l.drop_last()
    } else {
        l
    }
}

/// `str::lines`: split at `\n`, drop a `\r` before each `\n`, and drop the
/// empty piece after a final `\n`.
pub open spec fn lines(s: Seq<char>) -> Seq<Seq<char>> {
    let p = split_char(s, '\n');
    let n = p.len();
    let init = p.take(n - 1).map_values(|l: Seq<char>| strip_cr(l));
    if p[n - 1].len() == 0 {
        init
    } else {
        init.push(p[n - 1])
    }
}

/// The character sequences held by a vector of character vectors.
pub open spec fn views(v: Seq<Vec<char>>) -> Seq<Seq<char>> {
    v.map_values(|l: Vec<char>| l@)
}

/// Exec `str::split` with a character separator.
pub fn split_on(s: &[char], c: char) -> (r: Vec<Vec<char>>)
    ensures
        views(r@) == split_char(s@, c),
{
    let mut done: Vec<Vec<char>> = Vec::new();
    let mut cur: Vec<char> = Vec::new();
    let mut i: usize = 0;
    while i < s.len()
        invariant
            i <= s@.len(),
            split_char(s@.take(i as int), c) == views(done@).push(cur@),
        decreases s@.len() - i,
    {
        assert(s@.take(i + 1).drop_last() =~= s@.take(i as int));
        if s[i] == c {
            let old_cur = cur;
            let ghost d = views(done@);
            done.push(old_cur);
            assert(views(done@) =~= d.push(old_cur@));
            cur = Vec::new();
            assert(split_char(s@.take(i + 1), c) =~= views(done@).push(cur@));
        } else {
            let ghost d = views(done@);
            let ghost oc = cur@;
            cur.push(s[i]);
            assert(split_char(s@.take(i + 1), c) =~= d.push(oc).update(d.len() as int, oc.push(s@[i as int])));
            assert(d.push(oc).update(d.len() as int, oc.push(s@[i as int])) =~= d.push(cur@));
        }
        i += 1;
    }
    assert(s@.take(i as int) =~= s@);
    let ghost d = views(done@);
    done.push(cur);
    assert(views(done@) =~= d.push(cur@));
    done
}

/// Removes one trailing `\r`.
pub fn strip_cr_exec(l: Vec<char>) -> (r: Vec<char>)
    ensures
        r@ == strip_cr(l@),
{
    let mut l = l;
    if l.len() > 0 && l[l.len() - 1] == '\r' {
        l.pop();
    }
    l
}

/// Exec `str::lines`.
pub fn lines_of(s: &[char]) -> (r: Vec<Vec<char>>)
    ensures
        views(r@) == lines(s@),
{
    let pieces = split_on(s, '\n');
    proof {
        lemma_split_nonempty(s@, '\n');
    }
    let ghost p = views(pieces@);
    let n = pieces.len();
    let mut out: Vec<Vec<char>> = Vec::new();
    let mut i: usize = 0;
    while i + 1 < n
        invariant
            n == p.len(),
            n >= 1,
            p == views(pieces@),
            i + 1 <= n,
            views(out@) == p.take(i as int).map_values(|l: Seq<char>| strip_cr(l)),
        decreases n - i,
    {
        let piece = pieces[i].clone();
        let ghost d = views(out@);
        assert(piece@ == p[i as int]);
        let stripped = strip_cr_exec(piece);
        out.push(stripped);
        assert(views(out@) =~= d.push(strip_cr(p[i as int])));
        assert(p.take(i + 1).map_values(|l: Seq<char>| strip_cr(l)) =~= p.take(i as int).map_values(
            |l: Seq<char>| strip_cr(l),
        ).push(strip_cr(p[i as int])));
        i += 1;
    }
    if pieces[n - 1].len() != 0 {
        let last = pieces[n - 1].clone();
        let ghost d = views(out@);
        out.push(last);
        assert(views(out@) =~= d.push(p[n - 1]));
    }
    out
}

/// The lines of a string slice.
pub fn lines_of_str(s: &str) -> (r: Vec<Vec<char>>)
    ensures
        views(r@) == lines(s@),
{
    let c = chars_of(s);
    lines_of(c.as_slice())
}

} // verus!

verus! {

/// Equality of a character slice with a literal.
pub fn eq_lit(s: &[char], p: &str) -> (r: bool)
    ensures
        r == (s@ == p@),
{
    let pc = chars_of(p);
    chars_eq(s, pc.as_slice())
}

/// The Unicode upper-case mapping of `s`, as `str::to_uppercase` computes it.
pub uninterp spec fn upper(s: Seq<char>) -> Seq<char>;

/// `str::to_uppercase`. Its result depends on `s` alone and is named
/// `upper(s)`; the Unicode case tables themselves are not restated.
#[verifier::external_body]
fn to_uppercase(s: &str) -> (r: String)
    ensures
        r@ == upper(s@),
{
    s.to_uppercase()
}

/// The upper-case mapping of a character slice.
pub fn upper_of(s: &[char]) -> (r: Vec<char>)
    ensures
        r@ == upper(s@),
{
    let st = string_of(s);
    let u = to_uppercase(st.as_str());
    chars_of(u.as_str())
}

} // verus!

verus! {

/// The Unicode lower-case mapping of `s`, as `str::to_lowercase` computes it.
pub uninterp spec fn lower(s: Seq<char>) -> Seq<char>;

/// `str::to_lowercase`. Its result depends on `s` alone and is named
/// `lower(s)`; the Unicode case tables are not restated.
#[verifier::external_body]
fn to_lowercase(s: &str) -> (r: String)
    ensures
        r@ == lower(s@),
{
    s.to_lowercase()
}

/// The lower-case mapping of a character slice.
pub fn lower_of(s: &[char]) -> (r: Vec<char>)
    ensures
        r@ == lower(s@),
{
    let st = string_of(s);
    let u = to_lowercase(st.as_str());
    chars_of(u.as_str())
}

/// The Unicode `Uppercase` property of `c`, as `char::is_uppercase` tests it.
pub uninterp spec fn upper_char(c: char) -> bool;

/// `char::is_uppercase`, named `upper_char(c)`.
#[verifier::external_body]
pub fn is_uppercase(c: char) -> (b: bool)
    ensures
        b == upper_char(c),
{
    c.is_uppercase()
}

/// The Unicode `Numeric` property of `c`, as `char::is_numeric` tests it.
pub uninterp spec fn numeric_char(c: char) -> bool;

/// `char::is_numeric`, named `numeric_char(c)`.
#[verifier::external_body]
pub fn is_numeric(c: char) -> (b: bool)
    ensures
        b == numeric_char(c),
{
    c.is_numeric()
}

/// The Unicode `Alphabetic`-or-`Numeric` property of `c`, as
/// `char::is_alphanumeric` tests it.
pub uninterp spec fn alnum_char(c: char) -> bool;

/// `char::is_alphanumeric`, named `alnum_char(c)`.
#[verifier::external_body]
pub fn is_alphanumeric(c: char) -> (b: bool)
    ensures
        b == alnum_char(c),
{
    c.is_alphanumeric()
}

/// Some character of `s` satisfies `upper_char`.
pub open spec fn any_upper(s: Seq<char>) -> bool {
    exists|i: int| 0 <= i < s.len() && upper_char(#[trigger] s[i])
}

pub fn has_upper(s: &[char]) -> (b: bool)
    ensures
        b == any_upper(s@),
{
    let mut i: usize = 0;
    while i < s.len()
        invariant
            i <= s@.len(),
            forall|j: int| 0 <= j < i ==> !upper_char(#[trigger] s@[j]),
        decreases s@.len() - i,
    {
        if is_uppercase(s[i]) {
            return true;
        }
        i += 1;
    }
    false
}

} // verus!

verus! {

// ------------------------------------------------------------------
// Decimal numbers
// ------------------------------------------------------------------

/// The ASCII digit for `d < 10`.
pub open spec fn digit_char(d: nat) -> char {
    (('0' as u32) + d) as char
}

/// The decimal representation of `n` (as `format!("{}", n)` writes it).
pub open spec fn decimal(n: nat) -> Seq<char>
    decreases n,
{
    if n < 10 {
        seq![digit_char(n)]
    } else {
        decimal(n / 10).push(digit_char(n % 10))
    }
}

/// The value of a string of ASCII digits.
pub open spec fn digits_value(d: Seq<char>) -> nat
    decreases d.len(),
{
    if d.len() == 0 {
        0
    } else {
        digits_value(d.drop_last()) * 10 + ((d.last() as u32) - ('0' as u32)) as nat
    }
}

/// Every character is an ASCII digit.
pub open spec fn all_digits(d: Seq<char>) -> bool {
    forall|i: int| 0 <= i < d.len() ==> is_ascii_digit(#[trigger] d[i])
}

/// `s.parse::<usize>()`: an optional `+`, then one or more ASCII digits
/// whose value fits in `usize`.
pub open spec fn parse_usize(s: Seq<char>) -> Option<nat> {
    let d = if s.len() > 0 && s[0] == '+' {
        s.skip(1)
    } else {
        s
    };
    if d.len() > 0 && all_digits(d) && digits_value(d) <= usize::MAX {
        Some(digits_value(d))
    } else {
        None
    }
}

proof fn lemma_digits_value_grows(d: Seq<char>, k: int)
    requires
        0 <= k <= d.len(),
        all_digits(d),
    ensures
        digits_value(d.take(k)) <= digits_value(d),
    decreases d.len() - k,
{
    if k < d.len() {
        lemma_digits_value_grows(d, k + 1);
        assert(d.take(k + 1).drop_last() =~= d.take(k));
    } else {
        assert(d.take(k) =~= d);
    }
}

/// Exec `parse_usize`.
pub fn parse_usize_exec(s: &[char]) -> (r: Option<usize>)
    ensures
        match r {
            Some(v) => parse_usize(s@) == Some(v as nat),
            None => parse_usize(s@) is None,
        },
{
    let start: usize = if s.len() > 0 && s[0] == '+' {
        1
    } else {
        0
    };
    let ghost d = if s@.len() > 0 && s@[0] == '+' {
        s@.skip(1)
    } else {
        s@
    };
    assert(d =~= s@.skip(start as int));
    if start >= s.len() {
        return None;
    }
    let mut v: usize = 0;
    let mut i: usize = start;
    while i < s.len()
        invariant
            start <= i <= s@.len(),
            d == s@.skip(start as int),
            d == (if s@.len() > 0 && s@[0] == '+' {
                s@.skip(1)
            } else {
                s@
            }),
            v == digits_value(d.take(i - start)),
            forall|m: int| 0 <= m < i - start ==> is_ascii_digit(#[trigger] d[m]),
        decreases s@.len() - i,
    {
        let c = s[i];
        assert(d[i - start] == c);
        if !('0' <= c && c <= '9') {
            assert(!is_ascii_digit(d[i - start]));
            return None;
        }
        let dig: usize = ((c as u32) - ('0' as u32)) as usize;
        assert(d.take(i - start + 1).drop_last() =~= d.take(i - start));
        if v > (usize::MAX - dig) / 10 {
            proof {
                if all_digits(d) {
                    lemma_digits_value_grows(d, i - start + 1);
                    assert(digits_value(d.take(i - start + 1)) == v * 10 + dig);
                    assert(v * 10 + dig > usize::MAX) by (nonlinear_arith)
                        requires
                            v > (usize::MAX - dig) / 10,
                            dig <= 9,
                    ;
                }
            }
            return None;
        }
        assert(v * 10 + dig <= usize::MAX) by (nonlinear_arith)
            requires
                v <= (usize::MAX - dig) / 10,
                dig <= 9,
        ;
        v = v * 10 + dig;
        i += 1;
    }
    assert(d.take(i - start) =~= d);
    Some(v)
}

/// Exec `decimal`: the digits of `n`.
pub fn decimal_chars(n: usize) -> (r: Vec<char>)
    ensures
        r@ == decimal(n as nat),
    decreases n,
{
    if n < 10 {
        let c = digit_of(n);
        let mut r: Vec<char> = Vec::new();
        r.push(c);
        r
    } else {
        let mut r = decimal_chars(n / 10);
        r.push(digit_of(n % 10));
        r
    }
}

fn digit_of(d: usize) -> (c: char)
    requires
        d < 10,
    ensures
        c == digit_char(d as nat),
{
    let b: u8 = d as u8;
    (b + 48) as char
}

} // verus!
