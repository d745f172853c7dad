use vstd::prelude::*;
use vstd::string::StrSliceExecFns;

verus! {

/// The whitespace characters that trimming removes: the ASCII whitespace
/// characters, including the vertical tab and the form feed.
pub open spec fn is_space(c: char) -> bool {
    c == ' ' || c == '\t' || c == '\n' || c == '\r' || c == '\x0b' || c == '\x0c'
}

/// `s` with its leading whitespace removed.
pub open spec fn trim_leading_spec(s: Seq<char>) -> Seq<char>
    decreases s.len(),
{
    if s.len() > 0 && is_space(s[0]) {
        trim_leading_spec(s.drop_first())
    } else {
        s
    }
}

/// `s` with its trailing whitespace removed.
pub open spec fn trim_trailing_spec(s: Seq<char>) -> Seq<char>
    decreases s.len(),
{
    if s.len() > 0 && is_space(s.last()) {
        trim_trailing_spec(s.drop_last())
    } else {
        s
    }
}

/// `s` with both leading and trailing whitespace removed.
pub open spec fn trim_spec(s: Seq<char>) -> Seq<char> {
    trim_trailing_spec(trim_leading_spec(s))
}

/// Whether the pattern `p` occurs in `s` starting at position `i`.
pub open spec fn match_at(s: Seq<char>, p: Seq<char>, i: int) -> bool {
    0 <= i && i + p.len() <= s.len() && s.subrange(i, i + p.len()) == p
}

/// The first position at or after `from` where `p` occurs in `s`, if any.
pub open spec fn first_match_from(s: Seq<char>, p: Seq<char>, from: int) -> Option<int>
    decreases s.len() - from,
{
    if from < 0 || from + p.len() > s.len() {
        None
    } else if p.len() == 0 {
        Some(from)
    } else if match_at(s, p, from) {
        Some(from)
    } else {
        first_match_from(s, p, from + 1)
    }
}

/// The position of the first occurrence of `p` in `s`, if any.
pub open spec fn first_match(s: Seq<char>, p: Seq<char>) -> Option<int> {
    first_match_from(s, p, 0)
}

/// Whether `p` occurs anywhere in `s`.
pub open spec fn contains_sub(s: Seq<char>, p: Seq<char>) -> bool {
    first_match(s, p) is Some
}

/// Whether `p` is a prefix of `s`.
pub open spec fn has_prefix(s: Seq<char>, p: Seq<char>) -> bool {
    p.len() <= s.len() && s.subrange(0, p.len() as int) == p
}

/// Whether `c` counts as whitespace for trimming.
pub fn is_space_char(c: char) -> (b: bool)
    ensures
        b == is_space(c),
{
    c == ' ' || c == '\t' || c == '\n' || c == '\r' || c == '\x0b' || c == '\x0c'
}

/// The characters of `s`, collected into a vector.
pub fn str_to_chars(s: &str) -> (v: Vec<char>)
    ensures
        v@ == s@,
{
    let n: usize = s.unicode_len();
    let mut v: Vec<char> = Vec::new();
    let mut i: usize = 0;
    while i < n
        invariant
            n == s@.len(),
            i <= n,
            v@ =~= s@.subrange(0, i as int),
        decreases n - i,
    {
        v.push(s.get_char(i));
        i += 1;
    }
    proof {
        assert(v@ =~= s@);
    }
    v
}

/// The characters of `v` from position `a` (inclusive) to `b` (exclusive).
pub fn subrange_chars(v: &Vec<char>, a: usize, b: usize) -> (r: Vec<char>)
    requires
        a <= b <= v@.len(),
    ensures
        r@ == v@.subrange(a as int, b as int),
{
    let mut r: Vec<char> = Vec::new();
    let mut k: usize = a;
    while k < b
        invariant
            a <= k <= b <= v@.len(),
            r@ =~= v@.subrange(a as int, k as int),
        decreases b - k,
    {
        r.push(v[k]);
        k += 1;
    }
    proof {
        assert(r@ =~= v@.subrange(a as int, b as int));
    }
    r
}

/// Compares `p` against `s` at position `i`.
fn match_at_exec(s: &Vec<char>, p: &Vec<char>, i: usize) -> (b: bool)
    requires
        i + p@.len() <= s@.len(),
    ensures
        b == match_at(s@, p@, i as int),
{
    let sn: usize = s.len();
    let mut j: usize = 0;
    while j < p.len()
        invariant
            sn == s@.len(),
            i + p@.len() <= s@.len(),
            j <= p@.len(),
            forall|k: int| 0 <= k < j ==> s@[i + k] == p@[k],
        decreases p@.len() - j,
    {
        if s[i + j] != p[j] {
            proof {
                assert(s@.subrange(i as int, i + p@.len())[j as int] == s@[i + j]);
            }
            return false;
        }
        j += 1;
    }
    proof {
        assert(s@.subrange(i as int, i + p@.len()) =~= p@);
    }
    true
}

/// The position of the first occurrence of `p` in `s`, if any.
pub fn find_sub(s: &Vec<char>, p: &Vec<char>) -> (r: Option<usize>)
    ensures
        match r {
            Some(u) => first_match(s@, p@) == Some(u as int),
            None => first_match(s@, p@) is None,
        },
{
    if p.len() > s.len() {
        return None;
    }
    if p.len() == 0 {
        return Some(0);
    }
    let mut i: usize = 0;
    while i <= s.len() - p.len()
        invariant
            1 <= p@.len() <= s@.len(),
            i <= s@.len(),
            first_match(s@, p@) == first_match_from(s@, p@, i as int),
        decreases s@.len() - i,
    {
        if match_at_exec(s, p, i) {
            return Some(i);
        }
        i += 1;
    }
    None
}

/// Whether `p` occurs anywhere in `s`.
pub fn contains_chars(s: &Vec<char>, p: &Vec<char>) -> (b: bool)
    ensures
        b == contains_sub(s@, p@),
{
    match find_sub(s, p) {
        Some(_) => true,
        None => false,
    }
}

/// Whether `p` is a prefix of `s`.
pub fn starts_with_chars(s: &Vec<char>, p: &Vec<char>) -> (b: bool)
    ensures
        b == has_prefix(s@, p@),
{
    if p.len() > s.len() {
        return false;
    }
    match_at_exec(s, p, 0)
}

/// Removing leading whitespace keeps exactly the suffix that starts at the
/// first non-whitespace character.
proof fn lemma_trim_leading_at(s: Seq<char>, lo: int)
    requires
        0 <= lo <= s.len(),
        forall|i: int| 0 <= i < lo ==> is_space(s[i]),
        lo < s.len() ==> !is_space(s[lo]),
    ensures
        trim_leading_spec(s) =~= s.subrange(lo, s.len() as int),
    decreases lo,
{
    if lo == 0 {
        if s.len() > 0 && is_space(s[0]) {
            assert(false);
        }
        assert(trim_leading_spec(s) =~= s.subrange(0, s.len() as int));
    } else {
        assert(is_space(s[0]));
        let t = s.drop_first();
        assert(forall|i: int| 0 <= i < lo - 1 ==> is_space(t[i]));
        lemma_trim_leading_at(t, lo - 1);
        assert(t.subrange(lo - 1, t.len() as int) =~= s.subrange(lo, s.len() as int));
    }
}

/// Removing trailing whitespace keeps exactly the prefix that ends just
/// after the last non-whitespace character.
proof fn lemma_trim_trailing_at(s: Seq<char>, hi: int)
    requires
        0 <= hi <= s.len(),
        forall|i: int| hi <= i < s.len() ==> is_space(s[i]),
        hi > 0 ==> !is_space(s[hi - 1]),
    ensures
        trim_trailing_spec(s) =~= s.subrange(0, hi),
    decreases s.len(),
{
    if hi == s.len() {
        if s.len() > 0 && is_space(s.last()) {
            assert(false);
        }
        assert(trim_trailing_spec(s) =~= s.subrange(0, hi));
    } else {
        assert(is_space(s.last()));
        let t = s.drop_last();
        assert(forall|i: int| hi <= i < t.len() ==> is_space(t[i]));
        lemma_trim_trailing_at(t, hi);
        assert(t.subrange(0, hi) =~= s.subrange(0, hi));
    }
}

/// `v` with its leading whitespace removed.
pub fn trim_leading_chars(v: &Vec<char>) -> (r: Vec<char>)
    ensures
        r@ == trim_leading_spec(v@),
{
    let mut lo: usize = 0;
    while lo < v.len() && is_space_char(v[lo])
        invariant
            lo <= v@.len(),
            forall|i: int| 0 <= i < lo ==> is_space(v@[i]),
        decreases v@.len() - lo,
    {
        lo += 1;
    }
    proof {
        lemma_trim_leading_at(v@, lo as int);
    }
    subrange_chars(v, lo, v.len())
}

/// `v` with leading and trailing whitespace removed.
pub fn trim_chars(v: &Vec<char>) -> (r: Vec<char>)
    ensures
        r@ == trim_spec(v@),
{
    let mut lo: usize = 0;
    while lo < v.len() && is_space_char(v[lo])
        invariant
            lo <= v@.len(),
            forall|i: int| 0 <= i < lo ==> is_space(v@[i]),
        decreases v@.len() - lo,
    {
        lo += 1;
    }
    let mut hi: usize = v.len();
    while hi > lo && is_space_char(v[hi - 1])
        invariant
            lo <= hi <= v@.len(),
            forall|i: int| hi <= i < v@.len() ==> is_space(v@[i]),
        decreases hi,
    {
        hi -= 1;
    }
    proof {
        lemma_trim_leading_at(v@, lo as int);
        let t = v@.subrange(lo as int, v@.len() as int);
        assert(forall|i: int| hi - lo <= i < t.len() ==> is_space(t[i]));
        if hi > lo {
            assert(t[hi - lo - 1] == v@[hi - 1]);
        }
        lemma_trim_trailing_at(t, hi - lo);
        assert(t.subrange(0, hi - lo) =~= v@.subrange(lo as int, hi as int));
    }
    subrange_chars(v, lo, hi)
}

} // verus!
