use vstd::prelude::*;
use vstd::slice::{slice_subrange, slice_to_vec};

use crate::context::{value_or_empty, ExecutionContext};
use crate::templating::{key_len, placeholder_at, render, render_from, render_template};
use crate::text::{
    chars_eq, chars_of, find_from, is_blank, is_blank_exec, is_ws, lemma_ws_len_bound, matches_at,
    matches_at_exec, trim, trim_end, trim_exec, trim_start, ws_len, ws_len_back,
};

verus! {

/// The suffix `== ''`.
pub open spec fn empty_test() -> Seq<char> {
    seq!['=', '=', ' ', '\'', '\'']
}

/// The suffix `!= ''`.
pub open spec fn nonempty_test() -> Seq<char> {
    seq!['!', '=', ' ', '\'', '\'']
}

/// The operator `==`.
pub open spec fn eq_op() -> Seq<char> {
    seq!['=', '=']
}

pub open spec fn ends_with(s: Seq<char>, p: Seq<char>) -> bool {
    p.len() <= s.len() && matches_at(s, s.len() - p.len(), p)
}

/// Number of `'` characters in the run that starts at `i`.
pub open spec fn quote_len(s: Seq<char>, i: int) -> nat
    decreases s.len() - i,
{
    if 0 <= i < s.len() && s[i] == '\'' {
        1 + quote_len(s, i + 1)
    } else {
        0
    }
}

/// Number of `'` characters in the run that ends just before `i`.
pub open spec fn quote_len_back(s: Seq<char>, i: int) -> nat
    decreases i,
{
    if 0 < i <= s.len() && s[i - 1] == '\'' {
        1 + quote_len_back(s, i - 1)
    } else {
        0
    }
}

/// `s` without the single quotes at either end (all of them).
pub open spec fn strip_quotes(s: Seq<char>) -> Seq<char> {
    let a = quote_len(s, 0);
    if a == s.len() {
        Seq::empty()
    } else {
        s.subrange(a as int, s.len() - quote_len_back(s, s.len() as int))
    }
}

/// `k` is where `==` first occurs in `t`.
pub open spec fn first_eq_op(t: Seq<char>, k: int) -> bool {
    matches_at(t, k, eq_op()) && forall|j: int| 0 <= j < k ==> !matches_at(t, j, eq_op())
}

/// The value of a guard expression once its placeholders are resolved:
/// `X == ''` holds when `X` is blank, `X != ''` when it is not, and
/// `L == R` when the two sides agree after trimming and after dropping the
/// quotes around `R`. Any other expression is false.
pub open spec fn eval_condition(resolved: Seq<char>) -> bool {
    let t = trim(resolved);
    if ends_with(t, empty_test()) {
        is_blank(t.subrange(0, t.len() - 5))
    } else if ends_with(t, nonempty_test()) {
        !is_blank(t.subrange(0, t.len() - 5))
    } else {
        exists|k: int|
            first_eq_op(t, k) && trim(t.subrange(0, k)) == strip_quotes(
                trim(t.subrange(k + 2, t.len() as int)),
            )
    }
}

proof fn lemma_quote_len_bound(s: Seq<char>, i: int)
    requires
        0 <= i <= s.len(),
    ensures
        i + quote_len(s, i) <= s.len(),
        i + quote_len(s, i) < s.len() ==> s[i + quote_len(s, i)] != '\'',
    decreases s.len() - i,
{
    if i < s.len() && s[i] == '\'' {
        lemma_quote_len_bound(s, i + 1);
    }
}

proof fn lemma_quote_len_back_bound(s: Seq<char>, i: int, lo: int)
    requires
        0 <= lo < i <= s.len(),
        s[lo] != '\'',
    ensures
        lo < i - quote_len_back(s, i),
    decreases i,
{
    if s[i - 1] == '\'' {
        lemma_quote_len_back_bound(s, i - 1, lo);
    }
}

fn strip_quotes_exec(s: &[char]) -> (r: Vec<char>)
    ensures
        r@ == strip_quotes(s@),
{
    let mut a: usize = 0;
    while a < s.len() && s[a] == '\''
        invariant
            a <= s@.len(),
            quote_len(s@, 0) == a + quote_len(s@, a as int),
        decreases s.len() - a,
    {
        a = a + 1;
    }
    if a == s.len() {
        return Vec::new();
    }
    proof {
        lemma_quote_len_bound(s@, 0);
    }
    let mut b: usize = s.len();
    while b > a && s[b - 1] == '\''
        invariant
            a < b <= s@.len(),
            s@[a as int] != '\'',
            quote_len_back(s@, s@.len() as int) == (s@.len() - b) + quote_len_back(s@, b as int),
        decreases b,
    {
        b = b - 1;
    }
    slice_to_vec(slice_subrange(s, a, b))
}

/// Evaluates a guard expression against `ctx`: its placeholders are rendered
/// first, then the expression is read as one of `X == ''`, `X != ''` or
/// `L == R`; anything else evaluates to false.
pub fn evaluate_if(expr: &str, ctx: &ExecutionContext) -> (r: bool)
    ensures
        r == eval_condition(render(expr@, ctx@)),
{
    let resolved = render_template(expr, ctx);
    let raw = chars_of(resolved.as_str());
    let t = trim_exec(raw.as_slice());
    let empty_suffix = vec!['=', '=', ' ', '\'', '\''];
    let nonempty_suffix = vec!['!', '=', ' ', '\'', '\''];
    let op = vec!['=', '='];
    assert(empty_suffix@ == empty_test());
    assert(nonempty_suffix@ == nonempty_test());
    assert(op@ == eq_op());
    if t.len() >= 5 && matches_at_exec(t.as_slice(), t.len() - 5, empty_suffix.as_slice()) {
        return is_blank_exec(slice_subrange(t.as_slice(), 0, t.len() - 5));
    }
    if t.len() >= 5 && matches_at_exec(t.as_slice(), t.len() - 5, nonempty_suffix.as_slice()) {
        return !is_blank_exec(slice_subrange(t.as_slice(), 0, t.len() - 5));
    }
    match find_from(t.as_slice(), 0, op.as_slice()) {
        Some(k) => {
            let left = trim_exec(slice_subrange(t.as_slice(), 0, k));
            let right_trimmed = trim_exec(slice_subrange(t.as_slice(), k + 2, t.len()));
            let right = strip_quotes_exec(right_trimmed.as_slice());
            let r = chars_eq(left.as_slice(), right.as_slice());
            proof {
                assert(first_eq_op(t@, k as int));
                assert forall|k2: int| first_eq_op(t@, k2) implies k2 == k by {
                    if k2 < k {
                        assert(!matches_at(t@, k2, eq_op()));
                    } else if k2 > k {
                        assert(!matches_at(t@, k as int, eq_op()));
                    }
                }
            }
            r
        },
        None => false,
    }
}

/// The guard `{{x}} == ''`.
pub open spec fn x_is_empty_guard() -> Seq<char> {
    seq!['{', '{', 'x', '}', '}', ' ', '=', '=', ' ', '\'', '\'']
}

proof fn lemma_render_x_guard(m: Map<Seq<char>, Seq<char>>)
    ensures
        render(x_is_empty_guard(), m) == value_or_empty(m, seq!['x']) + seq![
            ' ',
            '=',
            '=',
            ' ',
            '\'',
            '\'',
        ],
{
    let e = x_is_empty_guard();
    assert(ws_len(e, 2) == 0);
    assert(key_len(e, 4) == 0);
    assert(key_len(e, 3) == 0);
    assert(key_len(e, 2) == 1);
    assert(ws_len(e, 3) == 0);
    assert(placeholder_at(e, 0) == Some((2int, 3int, 5int)));
    assert(e.subrange(2, 3) =~= seq!['x']);
    assert(render_from(e, 11, m) == Seq::<char>::empty());
    assert(render_from(e, 10, m) =~= seq!['\'']);
    assert(render_from(e, 9, m) =~= seq!['\'', '\'']);
    assert(render_from(e, 8, m) =~= seq![' ', '\'', '\'']);
    assert(render_from(e, 7, m) =~= seq!['=', ' ', '\'', '\'']);
    assert(render_from(e, 6, m) =~= seq!['=', '=', ' ', '\'', '\'']);
    assert(render_from(e, 5, m) =~= seq![' ', '=', '=', ' ', '\'', '\'']);
}

/// The guard `{{x}} == ''` holds exactly when `x` is unset or its value is
/// whitespace only.
pub proof fn lemma_x_guard_blank(m: Map<Seq<char>, Seq<char>>)
    ensures
        eval_condition(render(x_is_empty_guard(), m)) == is_blank(value_or_empty(m, seq!['x'])),
{
    lemma_render_x_guard(m);
    let v = value_or_empty(m, seq!['x']);
    let r = v + seq![' ', '=', '=', ' ', '\'', '\''];
    let n = v.len() as int;
    assert(r[n + 1] == '=');
    lemma_ws_len_bound(r, 0);
    let w = ws_len(r, 0);
    assert(w <= n + 1) by {
        if w > n + 1 {
            assert(is_ws(r[n + 1]));
        }
    }
    let ts = trim_start(r);
    assert(ts == r.subrange(w as int, r.len() as int));
    assert(ts[ts.len() - 1] == '\'');
    assert(ws_len_back(ts, ts.len() as int) == 0);
    assert(trim_end(ts) =~= ts);
    assert(trim(r) == ts);
    assert(ts.subrange(ts.len() - 5, ts.len() as int) =~= empty_test());
    assert(ends_with(ts, empty_test()));
    let left = ts.subrange(0, ts.len() - 5);
    assert(left =~= r.subrange(w as int, n + 1));
    if is_blank(v) {
        assert forall|i: int| 0 <= i < left.len() implies is_ws(left[i]) by {
            assert(left[i] == r[w + i]);
            if w + i < n {
                assert(r[w + i] == v[w + i]);
            }
        }
    } else {
        let j = choose|j: int| 0 <= j < v.len() && !is_ws(v[j]);
        assert(r[j] == v[j]);
        assert(j >= w);
        assert(left[j - w] == r[j]);
    }
}

/// The guard `{{x}} == ''` holds exactly when `x` is unset or empty, for any
/// value of `x` that is not a non-empty run of whitespace.
pub proof fn lemma_x_guard_empty(m: Map<Seq<char>, Seq<char>>)
    requires
        !(m.contains_key(seq!['x']) && m[seq!['x']].len() > 0 && is_blank(m[seq!['x']])),
    ensures
        eval_condition(render(x_is_empty_guard(), m)) == (!m.contains_key(seq!['x'])
            || m[seq!['x']].len() == 0),
{
    lemma_x_guard_blank(m);
}

} // verus!
