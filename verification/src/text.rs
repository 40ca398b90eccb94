//! Character-level helpers on strings.
//!
//! Every helper states its result over `Seq<char>`, the view of `str` and
//! `String`, so that the parsers built on them can be specified as plain
//! sequence equations.

use vstd::prelude::*;
use vstd::string::*;
use vstd::utf8::*;
use vstd::std_specs::iter::IteratorSpec;

verus! {

/// `pat` occurs in `s` starting at index `i`.
pub open spec fn occurs_at(s: Seq<char>, pat: Seq<char>, i: int) -> bool {
    0 <= i && i + pat.len() <= s.len() && s.subrange(i, i + pat.len()) == pat
}

/// `i` is the first index at which `pat` occurs in `s`.
pub open spec fn first_occurrence(s: Seq<char>, pat: Seq<char>, i: int) -> bool {
    occurs_at(s, pat, i) && forall|j: int| 0 <= j < i ==> !occurs_at(s, pat, j)
}

/// `i` is the first index of `s` that holds `c`.
pub open spec fn first_index_of(s: Seq<char>, c: char, i: int) -> bool {
    0 <= i < s.len() && s[i] == c && forall|j: int| 0 <= j < i ==> s[j] != c
}

/// The first index of `s` that holds `c`, where there is one.
pub open spec fn index_of_char(s: Seq<char>, c: char) -> int {
    choose|i: int| first_index_of(s, c, i)
}

/// `pat` occurs somewhere in `s`.
pub open spec fn contains_pattern(s: Seq<char>, pat: Seq<char>) -> bool {
    exists|i: int| occurs_at(s, pat, i)
}

/// The first index at which `pat` occurs in `s`, where it occurs.
pub open spec fn index_of_pattern(s: Seq<char>, pat: Seq<char>) -> int {
    choose|i: int| first_occurrence(s, pat, i)
}

/// The first index that holds a character is the only one that is first.
pub proof fn lemma_index_of_char(s: Seq<char>, c: char, i: int)
    requires
        first_index_of(s, c, i),
    ensures
        index_of_char(s, c) == i,
        s.contains(c),
{
    let j = index_of_char(s, c);
    assert(first_index_of(s, c, j));
    assert(s[i] == c && s[j] == c);
}

/// The first index at which a pattern occurs is the only one that is first.
pub proof fn lemma_index_of_pattern(s: Seq<char>, pat: Seq<char>, i: int)
    requires
        first_occurrence(s, pat, i),
    ensures
        index_of_pattern(s, pat) == i,
        contains_pattern(s, pat),
{
    let j = index_of_pattern(s, pat);
    assert(first_occurrence(s, pat, j));
    assert(occurs_at(s, pat, i) && occurs_at(s, pat, j));
}

/// `s` with every leading `c` removed.
pub open spec fn trim_leading_char(s: Seq<char>, c: char) -> Seq<char>
    decreases s.len(),
{
    if s.len() > 0 && s[0] == c {
        trim_leading_char(s.drop_first(), c)
    } else {
        s
    }
}

/// `s` with every leading repetition of `pat` removed.
pub open spec fn trim_leading_pattern(s: Seq<char>, pat: Seq<char>) -> Seq<char>
    decreases s.len(),
{
    if pat.len() > 0 && occurs_at(s, pat, 0) {
        trim_leading_pattern(s.skip(pat.len() as int), pat)
    } else {
        s
    }
}

/// `s` with every trailing repetition of `pat` removed.
pub open spec fn trim_trailing_pattern(s: Seq<char>, pat: Seq<char>) -> Seq<char>
    decreases s.len(),
{
    if pat.len() > 0 && occurs_at(s, pat, s.len() - pat.len()) {
        trim_trailing_pattern(s.take(s.len() - pat.len()), pat)
    } else {
        s
    }
}

/// The characters that Unicode gives the property `White_Space`.
pub open spec fn is_whitespace(c: char) -> bool {
    let u = c as u32;
    (0x09 <= u && u <= 0x0D) || u == 0x20 || u == 0x85 || u == 0xA0 || u == 0x1680 || (0x2000
        <= u && u <= 0x200A) || u == 0x2028 || u == 0x2029 || u == 0x202F || u == 0x205F || u
        == 0x3000
}

/// Nothing but white space, which is what is left of such a string after trimming: nothing.
pub open spec fn is_blank(s: Seq<char>) -> bool {
    forall|i: int| 0 <= i < s.len() ==> is_whitespace(#[trigger] s[i])
}

/// The characters of `s`, one by one.
pub fn chars_of(s: &str) -> (v: Vec<char>)
    ensures
        v@ == s@,
{
    let mut v: Vec<char> = Vec::new();
    let start = s.chars();
    for c in it: start
        invariant
            v@ == it.seq().take(it.index() as int),
            it.seq() == s@,
    {
        v.push(c);
    }
    v
}

/// Whether two strings hold the same characters.
pub fn str_eq(a: &str, b: &str) -> (same: bool)
    ensures
        same == (a@ == b@),
{
    let x = a.as_bytes();
    let y = b.as_bytes();
    proof {
        encode_utf8_decode_utf8(a@);
        encode_utf8_decode_utf8(b@);
    }
    if x.len() != y.len() {
        return false;
    }
    let mut i: usize = 0;
    while i < x.len()
        invariant
            i <= x.len(),
            x.len() == y.len(),
            x@ == a.spec_bytes(),
            y@ == b.spec_bytes(),
            forall|j: int| 0 <= j < i ==> x@[j] == y@[j],
        decreases x.len() - i,
    {
        if x[i] != y[i] {
            return false;
        }
        i += 1;
    }
    assert(x@ =~= y@);
    true
}

/// Whether two optional strings hold the same characters, or are both absent.
pub fn opt_str_eq(a: &Option<String>, b: &Option<String>) -> (same: bool)
    ensures
        same == (opt_view(*a) == opt_view(*b)),
{
    match (a, b) {
        (None, None) => true,
        (Some(x), Some(y)) => str_eq(x.as_str(), y.as_str()),
        _ => false,
    }
}

/// The view of an optional string.
pub open spec fn opt_view(o: Option<String>) -> Option<Seq<char>> {
    match o {
        Some(s) => Some(s@),
        None => None,
    }
}

/// A copy of an optional string.
pub fn opt_clone(o: &Option<String>) -> (r: Option<String>)
    ensures
        opt_view(r) == opt_view(*o),
{
    match o {
        Some(s) => Some(s.clone()),
        None => None,
    }
}

/// The first index of `v` that holds `c`, if any does.
pub fn find_char(v: &Vec<char>, c: char) -> (r: Option<usize>)
    ensures
        match r {
            Some(i) => first_index_of(v@, c, i as int) && i == index_of_char(v@, c),
            None => !v@.contains(c),
        },
        r is Some <==> v@.contains(c),
{
    let mut i: usize = 0;
    while i < v.len()
        invariant
            i <= v.len(),
            forall|j: int| 0 <= j < i ==> v@[j] != c,
        decreases v.len() - i,
    {
        if v[i] == c {
            proof {
                lemma_index_of_char(v@, c, i as int);
            }
            return Some(i);
        }
        i += 1;
    }
    None
}

/// Whether `pat` occurs in `v` at index `i`.
pub fn matches_at(v: &Vec<char>, pat: &Vec<char>, i: usize) -> (r: bool)
    requires
        i <= v.len(),
    ensures
        r == occurs_at(v@, pat@, i as int),
{
    if pat.len() > v.len() - i {
        return false;
    }
    let mut k: usize = 0;
    while k < pat.len()
        invariant
            k <= pat.len(),
            i + pat.len() <= v.len(),
            forall|j: int| 0 <= j < k ==> v@[i + j] == pat@[j],
        decreases pat.len() - k,
    {
        if v[i + k] != pat[k] {
            proof {
                let sub = v@.subrange(i as int, i + pat.len());
                assert(sub[k as int] == v@[i + k]);
            }
            return false;
        }
        k += 1;
    }
    assert(v@.subrange(i as int, i + pat.len()) =~= pat@);
    true
}

/// The first index at which `pat` occurs in `v`, if it occurs.
pub fn find_pattern(v: &Vec<char>, pat: &Vec<char>) -> (r: Option<usize>)
    ensures
        match r {
            Some(i) => first_occurrence(v@, pat@, i as int) && i == index_of_pattern(v@, pat@),
            None => !contains_pattern(v@, pat@),
        },
        r is Some <==> contains_pattern(v@, pat@),
{
    let mut i: usize = 0;
    while i < v.len()
        invariant
            i <= v.len(),
            forall|j: int| 0 <= j < i ==> !occurs_at(v@, pat@, j),
        decreases v.len() - i,
    {
        if matches_at(v, pat, i) {
            proof {
                lemma_index_of_pattern(v@, pat@, i as int);
            }
            return Some(i);
        }
        i += 1;
    }
    if matches_at(v, pat, i) {
        proof {
            lemma_index_of_pattern(v@, pat@, i as int);
        }
        Some(i)
    } else {
        None
    }
}

/// How many characters `trim_leading_char` removes from `v`.
pub fn leading_run(v: &Vec<char>, c: char) -> (n: usize)
    ensures
        n <= v.len(),
        trim_leading_char(v@, c) == v@.skip(n as int),
{
    let mut n: usize = 0;
    assert(v@.skip(0) =~= v@);
    while n < v.len() && v[n] == c
        invariant
            n <= v.len(),
            trim_leading_char(v@, c) == trim_leading_char(v@.skip(n as int), c),
        decreases v.len() - n,
    {
        proof {
            let rest = v@.skip(n as int);
            assert(rest[0] == c);
            assert(rest.drop_first() =~= v@.skip(n + 1));
        }
        n += 1;
    }
    proof {
        let rest = v@.skip(n as int);
        if n < v.len() {
            assert(rest[0] == v@[n as int]);
        }
    }
    n
}

/// How many characters `trim_leading_pattern` removes from `v`.
pub fn leading_pattern_run(v: &Vec<char>, pat: &Vec<char>) -> (n: usize)
    ensures
        n <= v.len(),
        trim_leading_pattern(v@, pat@) == v@.skip(n as int),
{
    if pat.len() == 0 {
        assert(v@.skip(0) =~= v@);
        return 0;
    }
    let mut n: usize = 0;
    assert(v@.skip(0) =~= v@);
    while matches_at(v, pat, n)
        invariant
            n <= v.len(),
            pat.len() > 0,
            trim_leading_pattern(v@, pat@) == trim_leading_pattern(v@.skip(n as int), pat@),
        decreases v.len() - n,
    {
        proof {
            let rest = v@.skip(n as int);
            assert(rest.subrange(0, pat.len() as int) =~= v@.subrange(n as int, n + pat.len()));
            assert(occurs_at(rest, pat@, 0));
            assert(rest.skip(pat.len() as int) =~= v@.skip(n + pat.len()));
        }
        n += pat.len();
    }
    proof {
        let rest = v@.skip(n as int);
        if occurs_at(rest, pat@, 0) {
            assert(rest.subrange(0, pat.len() as int) =~= v@.subrange(n as int, n + pat.len()));
            assert(false);
        }
    }
    n
}

/// How many characters are left of `v[..end]` once `trim_trailing_pattern` is done with it.
pub fn trailing_pattern_keep(v: &Vec<char>, end: usize, pat: &Vec<char>) -> (n: usize)
    requires
        end <= v.len(),
    ensures
        n <= end,
        trim_trailing_pattern(v@.take(end as int), pat@) == v@.take(n as int),
{
    if pat.len() == 0 {
        return end;
    }
    let mut n: usize = end;
    while n >= pat.len() && matches_at(v, pat, n - pat.len())
        invariant
            n <= end,
            end <= v.len(),
            pat.len() > 0,
            trim_trailing_pattern(v@.take(end as int), pat@) == trim_trailing_pattern(
                v@.take(n as int),
                pat@,
            ),
        decreases n,
    {
        proof {
            let cur = v@.take(n as int);
            assert(cur.subrange(n - pat.len(), n as int) =~= v@.subrange(
                n - pat.len(),
                n as int,
            ));
            assert(occurs_at(cur, pat@, cur.len() - pat.len()));
            assert(cur.take(cur.len() - pat.len()) =~= v@.take(n - pat.len()));
        }
        n -= pat.len();
    }
    proof {
        let cur = v@.take(n as int);
        if occurs_at(cur, pat@, cur.len() - pat.len()) {
            assert(cur.subrange(n - pat.len(), n as int) =~= v@.subrange(
                n - pat.len(),
                n as int,
            ));
            assert(false);
        }
    }
    n
}

/// Whether `c` is white space.
pub fn char_is_whitespace(c: char) -> (r: bool)
    ensures
        r == is_whitespace(c),
{
    let u = c as u32;
    (0x09 <= u && u <= 0x0D) || u == 0x20 || u == 0x85 || u == 0xA0 || u == 0x1680 || (0x2000
        <= u && u <= 0x200A) || u == 0x2028 || u == 0x2029 || u == 0x202F || u == 0x205F || u
        == 0x3000
}

/// Whether `s` holds nothing but white space.
pub fn str_is_blank(s: &str) -> (r: bool)
    ensures
        r == is_blank(s@),
{
    let v = chars_of(s);
    let mut i: usize = 0;
    while i < v.len()
        invariant
            i <= v.len(),
            v@ == s@,
            forall|j: int| 0 <= j < i ==> is_whitespace(#[trigger] v@[j]),
        decreases v.len() - i,
    {
        if !char_is_whitespace(v[i]) {
            assert(!is_whitespace(s@[i as int]));
            return false;
        }
        i += 1;
    }
    true
}

/// Whether `s` begins with `prefix`.
pub fn str_starts_with(s: &str, prefix: &str) -> (r: bool)
    ensures
        r == occurs_at(s@, prefix@, 0),
{
    let v = chars_of(s);
    let p = chars_of(prefix);
    matches_at(&v, &p, 0)
}

/// The characters `from..to` of `s`, as a string of their own.
pub fn slice_of(s: &str, from: usize, to: usize) -> (r: String)
    requires
        from <= to <= s@.len(),
    ensures
        r@ == s@.subrange(from as int, to as int),
{
    s.substring_char(from, to).to_owned()
}

} // verus!
