use vstd::prelude::*;
use vstd::slice::{slice_subrange, slice_to_vec};
use vstd::std_specs::iter::IteratorSpec;

verus! {

/// Whitespace as Unicode's `White_Space` property defines it: the class that
/// both `str::trim` and the placeholder syntax treat as blank.
pub open spec fn is_ws(c: char) -> bool {
    ('\u{9}' <= c && c <= '\u{d}') || c == ' ' || c == '\u{85}' || c == '\u{a0}'
        || c == '\u{1680}' || ('\u{2000}' <= c && c <= '\u{200a}') || c == '\u{2028}'
        || c == '\u{2029}' || c == '\u{202f}' || c == '\u{205f}' || c == '\u{3000}'
}

pub fn is_ws_char(c: char) -> (r: bool)
    ensures
        r == is_ws(c),
{
    ('\u{9}' <= c && c <= '\u{d}') || c == ' ' || c == '\u{85}' || c == '\u{a0}'
        || c == '\u{1680}' || ('\u{2000}' <= c && c <= '\u{200a}') || c == '\u{2028}'
        || c == '\u{2029}' || c == '\u{202f}' || c == '\u{205f}' || c == '\u{3000}'
}

/// The characters of a string slice, in order.
pub fn chars_of(s: &str) -> (r: Vec<char>)
    ensures
        r@ == s@,
{
    let mut r: Vec<char> = Vec::new();
    let mut it = s.chars();
    loop
        invariant_except_break
            r@ + it.remaining() == s@,
            it.obeys_prophetic_iter_laws(),
            it.decrease() is Some,
        ensures
            r@ == s@,
        decreases it.decrease()->0,
    {
        match it.next() {
            Some(c) => r.push(c),
            None => {
                assert(r@ + it.remaining() =~= r@);
                break;
            },
        }
    }
    r
}

/// Builds a `String` from characters.
///
/// Relies on `String`'s `FromIterator<&char>`: the characters are kept in order.
#[verifier::external_body]
pub(crate) fn string_of(v: &[char]) -> (r: String)
    ensures
        r@ == v@,
{
    String::from_iter(v)
}

/// What `str::to_lowercase` makes of a string.
pub uninterp spec fn lower_of(s: Seq<char>) -> Seq<char>;

/// Relies on `str::to_lowercase`: the result depends on the characters alone.
#[verifier::external_body]
pub(crate) fn to_lower(s: &str) -> (r: String)
    ensures
        r@ == lower_of(s@),
{
    s.to_lowercase()
}

/// `p` occurs in `s` starting at index `i`.
pub open spec fn matches_at(s: Seq<char>, i: int, p: Seq<char>) -> bool {
    0 <= i && i + p.len() <= s.len() && s.subrange(i, i + p.len()) == p
}

/// `p` occurs somewhere in `s` (the empty sequence occurs in every `s`).
pub open spec fn contains(s: Seq<char>, p: Seq<char>) -> bool {
    exists|i: int| matches_at(s, i, p)
}

pub fn matches_at_exec(s: &[char], i: usize, p: &[char]) -> (r: bool)
    ensures
        r == matches_at(s@, i as int, p@),
{
    if i > s.len() || p.len() > s.len() - i {
        return false;
    }
    let mut k: usize = 0;
    while k < p.len()
        invariant
            i + p.len() <= s.len(),
            k <= p.len(),
            forall|j: int| 0 <= j < k ==> s@[i + j] == p@[j],
        decreases p.len() - k,
    {
        if s[i + k] != p[k] {
            assert(s@.subrange(i as int, i + p.len())[k as int] != p@[k as int]);
            return false;
        }
        k = k + 1;
    }
    assert(s@.subrange(i as int, i + p.len()) =~= p@);
    true
}

/// The first index at or after `from` where `p` occurs in `s`.
pub fn find_from(s: &[char], from: usize, p: &[char]) -> (r: Option<usize>)
    ensures
        match r {
            Some(i) => from <= i && matches_at(s@, i as int, p@) && forall|j: int|
                from <= j < i ==> !matches_at(s@, j, p@),
            None => forall|j: int| from <= j ==> !matches_at(s@, j, p@),
        },
{
    let mut i: usize = from;
    while i < s.len()
        invariant
            from <= i,
            i > s.len() ==> i == from,
            forall|j: int| from <= j < i ==> !matches_at(s@, j, p@),
        decreases s.len() - i,
    {
        if matches_at_exec(s, i, p) {
            return Some(i);
        }
        i = i + 1;
    }
    if i == s.len() && matches_at_exec(s, i, p) {
        return Some(i);
    }
    None
}

/// The first index at or after `from` where `p` occurs in `s`.
pub open spec fn first_match(s: Seq<char>, from: int, p: Seq<char>) -> Option<int>
    decreases s.len() + 1 - from,
{
    if from < 0 || from > s.len() {
        None
    } else if matches_at(s, from, p) {
        Some(from)
    } else {
        first_match(s, from + 1, p)
    }
}

proof fn lemma_first_match_found(s: Seq<char>, from: int, p: Seq<char>, k: int)
    requires
        0 <= from <= k,
        matches_at(s, k, p),
        forall|j: int| from <= j < k ==> !matches_at(s, j, p),
    ensures
        first_match(s, from, p) == Some(k),
    decreases k - from,
{
    if from < k {
        lemma_first_match_found(s, from + 1, p, k);
    }
}

proof fn lemma_first_match_none(s: Seq<char>, from: int, p: Seq<char>)
    requires
        0 <= from,
        forall|j: int| from <= j ==> !matches_at(s, j, p),
    ensures
        first_match(s, from, p) is None,
    decreases s.len() + 1 - from,
{
    if from <= s.len() {
        lemma_first_match_none(s, from + 1, p);
    }
}

/// `find_from`, stated through `first_match`.
pub fn first_match_exec(s: &[char], from: usize, p: &[char]) -> (r: Option<usize>)
    ensures
        match r {
            Some(i) => first_match(s@, from as int, p@) == Some(i as int),
            None => first_match(s@, from as int, p@) is None,
        },
{
    let r = find_from(s, from, p);
    proof {
        match r {
            Some(i) => lemma_first_match_found(s@, from as int, p@, i as int),
            None => lemma_first_match_none(s@, from as int, p@),
        }
    }
    r
}

pub fn contains_exec(s: &[char], p: &[char]) -> (r: bool)
    ensures
        r == contains(s@, p@),
{
    match find_from(s, 0, p) {
        Some(i) => true,
        None => false,
    }
}

/// Number of whitespace characters in the run that starts at `i`.
pub open spec fn ws_len(s: Seq<char>, i: int) -> nat
    decreases s.len() - i,
{
    if 0 <= i < s.len() && is_ws(s[i]) {
        1 + ws_len(s, i + 1)
    } else {
        0
    }
}

/// Number of whitespace characters in the run that ends just before `i`.
pub open spec fn ws_len_back(s: Seq<char>, i: int) -> nat
    decreases i,
{
    if 0 < i <= s.len() && is_ws(s[i - 1]) {
        1 + ws_len_back(s, i - 1)
    } else {
        0
    }
}

/// `s` without its leading whitespace, as `str::trim_start` gives it.
pub open spec fn trim_start(s: Seq<char>) -> Seq<char> {
    s.subrange(ws_len(s, 0) as int, s.len() as int)
}

/// `s` without its trailing whitespace, as `str::trim_end` gives it.
pub open spec fn trim_end(s: Seq<char>) -> Seq<char> {
    s.subrange(0, s.len() - ws_len_back(s, s.len() as int))
}

/// `s` without leading and trailing whitespace, as `str::trim` gives it.
pub open spec fn trim(s: Seq<char>) -> Seq<char> {
    trim_end(trim_start(s))
}

/// A sequence that is whitespace only (its trimmed form is empty).
pub open spec fn is_blank(s: Seq<char>) -> bool {
    forall|i: int| 0 <= i < s.len() ==> is_ws(s[i])
}

pub proof fn lemma_ws_len_bound(s: Seq<char>, i: int)
    requires
        0 <= i <= s.len(),
    ensures
        i + ws_len(s, i) <= s.len(),
        forall|j: int| i <= j < i + ws_len(s, i) ==> is_ws(s[j]),
        i + ws_len(s, i) < s.len() ==> !is_ws(s[i + ws_len(s, i)]),
    decreases s.len() - i,
{
    if i < s.len() && is_ws(s[i]) {
        lemma_ws_len_bound(s, i + 1);
    }
}

pub proof fn lemma_ws_len_back_bound(s: Seq<char>, i: int)
    requires
        0 <= i <= s.len(),
    ensures
        ws_len_back(s, i) <= i,
        forall|j: int| i - ws_len_back(s, i) <= j < i ==> is_ws(s[j]),
        ws_len_back(s, i) < i ==> !is_ws(s[i - ws_len_back(s, i) - 1]),
    decreases i,
{
    if 0 < i && is_ws(s[i - 1]) {
        lemma_ws_len_back_bound(s, i - 1);
    }
}

/// The run of whitespace in `s` that starts at `i`, as an index past it.
pub fn skip_ws(s: &[char], i: usize) -> (r: usize)
    requires
        i <= s@.len(),
    ensures
        r == i + ws_len(s@, i as int),
        r <= s@.len(),
{
    let mut k: usize = i;
    while k < s.len() && is_ws_char(s[k])
        invariant
            i <= k <= s@.len(),
            ws_len(s@, i as int) == (k - i) + ws_len(s@, k as int),
        decreases s.len() - k,
    {
        k = k + 1;
    }
    k
}

/// The run of whitespace in `s` that ends just before `hi`, as the index where it starts.
pub fn skip_ws_back(s: &[char], hi: usize) -> (r: usize)
    requires
        hi <= s@.len(),
    ensures
        r == hi - ws_len_back(s@, hi as int),
{
    let mut k: usize = hi;
    while k > 0 && is_ws_char(s[k - 1])
        invariant
            k <= hi <= s@.len(),
            ws_len_back(s@, hi as int) == (hi - k) + ws_len_back(s@, k as int),
        decreases k,
    {
        k = k - 1;
    }
    k
}

/// Whether a slice is whitespace only.
pub fn is_blank_exec(s: &[char]) -> (r: bool)
    ensures
        r == is_blank(s@),
{
    let k = skip_ws(s, 0);
    proof {
        lemma_ws_len_bound(s@, 0);
    }
    k == s.len()
}

/// `s` with leading whitespace removed.
pub fn trim_start_exec(s: &[char]) -> (r: Vec<char>)
    ensures
        r@ == trim_start(s@),
{
    let lo = skip_ws(s, 0);
    slice_to_vec(slice_subrange(s, lo, s.len()))
}

/// `s` with leading and trailing whitespace removed.
pub fn trim_exec(s: &[char]) -> (r: Vec<char>)
    ensures
        r@ == trim(s@),
{
    let u = trim_start_exec(s);
    let hi = skip_ws_back(u.as_slice(), u.len());
    proof {
        lemma_ws_len_back_bound(u@, u@.len() as int);
    }
    slice_to_vec(slice_subrange(u.as_slice(), 0, hi))
}

/// Whether two character slices are equal.
pub fn chars_eq(a: &[char], b: &[char]) -> (r: bool)
    ensures
        r == (a@ == b@),
{
    if a.len() != b.len() {
        return false;
    }
    let r = matches_at_exec(a, 0, b);
    proof {
        if r {
            assert(a@ =~= a@.subrange(0, b@.len() as int));
        } else {
            assert(a@.subrange(0, b@.len() as int) =~= a@);
        }
    }
    r
}

} // verus!
