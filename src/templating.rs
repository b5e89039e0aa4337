use vstd::prelude::*;
use vstd::slice::slice_subrange;

use crate::context::{value_or_empty, ExecutionContext};
use crate::text::{chars_of, lemma_ws_len_bound, skip_ws, string_of, ws_len};

verus! {

/// Characters allowed in a placeholder's key: ASCII letters, digits, `_` and `-`.
pub open spec fn is_key_char(c: char) -> bool {
    ('a' <= c && c <= 'z') || ('A' <= c && c <= 'Z') || ('0' <= c && c <= '9') || c == '_'
        || c == '-'
}

/// Number of key characters in the run that starts at `i`.
pub open spec fn key_len(s: Seq<char>, i: int) -> nat
    decreases s.len() - i,
{
    if 0 <= i < s.len() && is_key_char(s[i]) {
        1 + key_len(s, i + 1)
    } else {
        0
    }
}

/// The placeholder `{{ key }}` that starts at index `i` of `s`, if one does:
/// the bounds of its key and the index just past its closing braces.
/// Whitespace may stand on either side of the key.
pub open spec fn placeholder_at(s: Seq<char>, i: int) -> Option<(int, int, int)> {
    let k0 = i + 2 + ws_len(s, i + 2);
    let k1 = k0 + key_len(s, k0);
    let e = k1 + ws_len(s, k1);
    if 0 <= i && i + 2 <= s.len() && s[i] == '{' && s[i + 1] == '{' && key_len(s, k0) > 0 && e + 2
        <= s.len() && s[e] == '}' && s[e + 1] == '}' {
        Some((k0, k1, e + 2))
    } else {
        None
    }
}

/// `s` holds no placeholder at all.
pub open spec fn has_no_placeholder(s: Seq<char>) -> bool {
    forall|i: int| 0 <= i < s.len() ==> placeholder_at(s, i) is None
}

/// Rendering of `s` from index `i` on, in one left-to-right pass: each
/// placeholder gives way to its key's value in `m` (empty when `m` has none),
/// every other character is kept.
pub open spec fn render_from(s: Seq<char>, i: int, m: Map<Seq<char>, Seq<char>>) -> Seq<char>
    decreases s.len() - i,
{
    if i < 0 || i >= s.len() {
        Seq::empty()
    } else {
        match placeholder_at(s, i) {
            Some((a, b, e)) => value_or_empty(m, s.subrange(a, b)) + render_from(s, e, m),
            None => seq![s[i]] + render_from(s, i + 1, m),
        }
    }
}

/// The rendering of a whole template.
pub open spec fn render(s: Seq<char>, m: Map<Seq<char>, Seq<char>>) -> Seq<char> {
    render_from(s, 0, m)
}

proof fn lemma_key_len_bound(s: Seq<char>, i: int)
    requires
        0 <= i <= s.len(),
    ensures
        i + key_len(s, i) <= s.len(),
    decreases s.len() - i,
{
    if i < s.len() && is_key_char(s[i]) {
        lemma_key_len_bound(s, i + 1);
    }
}

fn is_key_char_exec(c: char) -> (r: bool)
    ensures
        r == is_key_char(c),
{
    ('a' <= c && c <= 'z') || ('A' <= c && c <= 'Z') || ('0' <= c && c <= '9') || c == '_'
        || c == '-'
}

fn skip_key(s: &[char], i: usize) -> (r: usize)
    requires
        i <= s@.len(),
    ensures
        r == i + key_len(s@, i as int),
{
    let mut k: usize = i;
    while k < s.len() && is_key_char_exec(s[k])
        invariant
            i <= k <= s@.len(),
            key_len(s@, i as int) == (k - i) + key_len(s@, k as int),
        decreases s.len() - k,
    {
        k = k + 1;
    }
    k
}

/// The placeholder that starts at index `i`, as `placeholder_at` gives it.
fn placeholder_exec(s: &[char], i: usize) -> (r: Option<(usize, usize, usize)>)
    requires
        i < s@.len(),
    ensures
        match r {
            Some((a, b, e)) => placeholder_at(s@, i as int) == Some((a as int, b as int, e as int)),
            None => placeholder_at(s@, i as int) is None,
        },
{
    if s.len() - i < 2 || s[i] != '{' || s[i + 1] != '{' {
        return None;
    }
    let k0 = skip_ws(s, i + 2);
    let k1 = skip_key(s, k0);
    proof {
        lemma_key_len_bound(s@, k0 as int);
    }
    let e = skip_ws(s, k1);
    if k1 == k0 || s.len() - e < 2 || s[e] != '}' || s[e + 1] != '}' {
        return None;
    }
    Some((k0, k1, e + 2))
}

/// Replaces every `{{ key }}` of `input` with the value of `key` in `context`,
/// or with nothing where `context` has no such key, in a single pass: what a
/// value brings in is not expanded again.
pub fn render_template(input: &str, context: &ExecutionContext) -> (r: String)
    ensures
        r@ == render(input@, context@),
{
    let s = chars_of(input);
    let ghost m = context@;
    let mut out: Vec<char> = Vec::new();
    let mut i: usize = 0;
    while i < s.len()
        invariant
            i <= s@.len(),
            s@ == input@,
            m == context@,
            out@ + render_from(s@, i as int, m) == render(s@, m),
        decreases s.len() - i,
    {
        match placeholder_exec(s.as_slice(), i) {
            Some((a, b, e)) => {
                let key = string_of(slice_subrange(s.as_slice(), a, b));
                let ghost before = out@;
                match context.get(key.as_str()) {
                    Some(v) => {
                        let mut vc = chars_of(v.as_str());
                        out.append(&mut vc);
                    },
                    None => {},
                }
                assert(out@ == before + value_or_empty(m, s@.subrange(a as int, b as int)));
                i = e;
            },
            None => {
                let ghost before = out@;
                out.push(s[i]);
                assert(out@ == before + seq![s@[i as int]]);
                i = i + 1;
            },
        }
    }
    string_of(out.as_slice())
}

/// A template without placeholders renders to itself, whatever the mapping.
pub proof fn lemma_render_plain(s: Seq<char>, m: Map<Seq<char>, Seq<char>>)
    requires
        has_no_placeholder(s),
    ensures
        render(s, m) == s,
{
    lemma_render_from_plain(s, 0, m);
    assert(s.subrange(0, s.len() as int) =~= s);
}

proof fn lemma_render_from_plain(s: Seq<char>, i: int, m: Map<Seq<char>, Seq<char>>)
    requires
        has_no_placeholder(s),
        0 <= i <= s.len(),
    ensures
        render_from(s, i, m) == s.subrange(i, s.len() as int),
    decreases s.len() - i,
{
    if i < s.len() {
        lemma_render_from_plain(s, i + 1, m);
        assert(seq![s[i]] + s.subrange(i + 1, s.len() as int) =~= s.subrange(i, s.len() as int));
    } else {
        assert(s.subrange(i, s.len() as int) =~= Seq::<char>::empty());
    }
}

/// Rendering a template without placeholders a second time changes nothing.
pub proof fn lemma_render_idempotent(t: Seq<char>, m: Map<Seq<char>, Seq<char>>)
    requires
        has_no_placeholder(t),
    ensures
        render(render(t, m), m) == render(t, m),
{
    lemma_render_plain(t, m);
    lemma_render_plain(t, m);
}

} // verus!
