use vstd::prelude::*;
use vstd::slice::slice_subrange;

use crate::errors::GenAiError;
use crate::text::{
    chars_of, first_match, first_match_exec, is_blank, is_blank_exec, lemma_ws_len_back_bound,
    skip_ws, skip_ws_back, string_of, trim_end, trim_start, trim_start_exec, ws_len,
};

verus! {

/// The frontmatter delimiter `---`.
pub open spec fn delimiter() -> Seq<char> {
    seq!['-', '-', '-']
}

/// The opening of a step block: a code fence tagged `genai-step`.
pub open spec fn step_fence_open() -> Seq<char> {
    seq!['`', '`', '`', 'g', 'e', 'n', 'a', 'i', '-', 's', 't', 'e', 'p']
}

/// A bare code fence, which closes a step block.
pub open spec fn fence() -> Seq<char> {
    seq!['`', '`', '`']
}

/// The frontmatter and body of a document, when it has both: the text before
/// the first `---` is blank, the YAML block runs to the next `---`, and the
/// body is all that follows, without its leading whitespace.
pub open spec fn frontmatter_parts(s: Seq<char>) -> Option<(Seq<char>, Seq<char>)> {
    match first_match(s, 0, delimiter()) {
        Some(a) => if !is_blank(s.subrange(0, a)) {
            None
        } else {
            match first_match(s, a + 3, delimiter()) {
                Some(b) => Some(
                    (s.subrange(a + 3, b), trim_start(s.subrange(b + 3, s.len() as int))),
                ),
                None => None,
            }
        },
        None => None,
    }
}

/// The contents of the step blocks of `s` from index `i` on, first to last.
/// A block opens with the tagged fence and closes at the next bare fence;
/// its contents are what lies between, without surrounding whitespace. An
/// opening with no closing fence after it ends the scan.
pub open spec fn step_blocks_from(s: Seq<char>, i: int) -> Seq<Seq<char>>
    decreases s.len() + 1 - i,
{
    match first_match(s, i, step_fence_open()) {
        Some(t) => {
            let cs = t + 13 + ws_len(s, t + 13);
            match first_match(s, cs, fence()) {
                Some(f) => if i < f + 3 && f + 3 <= s.len() {
                    seq![trim_end(s.subrange(cs, f))] + step_blocks_from(s, f + 3)
                } else {
                    Seq::empty()
                },
                None => Seq::empty(),
            }
        },
        None => Seq::empty(),
    }
}

proof fn lemma_first_match_bounds(s: Seq<char>, from: int, p: Seq<char>)
    requires
        first_match(s, from, p) is Some,
    ensures
        from <= first_match(s, from, p)->Some_0,
        first_match(s, from, p)->Some_0 + p.len() <= s.len(),
    decreases s.len() + 1 - from,
{
    if from >= 0 && from <= s.len() && !crate::text::matches_at(s, from, p) {
        lemma_first_match_bounds(s, from + 1, p);
    }
}

/// Splits a skill document into its YAML frontmatter and its markdown body.
pub fn parse_frontmatter(content: &str) -> (r: Result<(String, String), GenAiError>)
    ensures
        match frontmatter_parts(content@) {
            Some((yaml, body)) => r matches Ok((y, b)) && y@ == yaml && b@ == body,
            None => r matches Err(e) && e is Parse,
        },
{
    let s = chars_of(content);
    let n = s.len();
    let delim = vec!['-', '-', '-'];
    assert(delim@ == delimiter());
    let a = match first_match_exec(s.as_slice(), 0, delim.as_slice()) {
        Some(a) => a,
        None => {
            if !is_blank_exec(s.as_slice()) {
                return Err(
                    GenAiError::Parse(String::from_str("document must start with YAML frontmatter")),
                );
            }
            return Err(GenAiError::Parse(String::from_str("missing YAML frontmatter")));
        },
    };
    proof {
        lemma_first_match_bounds(s@, 0, delimiter());
        assert(delimiter().len() == 3);
    }
    if !is_blank_exec(slice_subrange(s.as_slice(), 0, a)) {
        return Err(GenAiError::Parse(String::from_str("document must start with YAML frontmatter")));
    }
    let b = match first_match_exec(s.as_slice(), a + 3, delim.as_slice()) {
        Some(b) => b,
        None => {
            return Err(
                GenAiError::Parse(String::from_str("missing markdown body after frontmatter")),
            );
        },
    };
    proof {
        lemma_first_match_bounds(s@, a + 3, delimiter());
        assert(delimiter().len() == 3);
    }
    let yaml = string_of(slice_subrange(s.as_slice(), a + 3, b));
    let body = trim_start_exec(slice_subrange(s.as_slice(), b + 3, s.len()));
    Ok((yaml, string_of(body.as_slice())))
}

/// The YAML text of each step block of a markdown body, first to last.
pub fn parse_genai_steps(markdown_body: &str) -> (r: Vec<String>)
    ensures
        r@.map_values(|x: String| x@) == step_blocks_from(markdown_body@, 0),
{
    let s = chars_of(markdown_body);
    let n = s.len();
    let open = vec!['`', '`', '`', 'g', 'e', 'n', 'a', 'i', '-', 's', 't', 'e', 'p'];
    let close = vec!['`', '`', '`'];
    assert(open@ == step_fence_open());
    assert(close@ == fence());
    let mut out: Vec<String> = Vec::new();
    let mut i: usize = 0;
    loop
        invariant
            s@ == markdown_body@,
            open@ == step_fence_open(),
            close@ == fence(),
            i <= s@.len() + 3,
            n == s@.len(),
            out@.map_values(|x: String| x@) + step_blocks_from(s@, i as int) == step_blocks_from(
                s@,
                0,
            ),
        ensures
            out@.map_values(|x: String| x@) == step_blocks_from(markdown_body@, 0),
        decreases s@.len() + 3 - i,
    {
        let ghost before = out@.map_values(|x: String| x@);
        let t = match first_match_exec(s.as_slice(), i, open.as_slice()) {
            Some(t) => t,
            None => {
                assert(step_blocks_from(s@, i as int) =~= Seq::<Seq<char>>::empty());
                assert(out@.map_values(|x: String| x@) =~= before + Seq::<Seq<char>>::empty());
                break;
            },
        };
        proof {
            lemma_first_match_bounds(s@, i as int, step_fence_open());
            assert(step_fence_open().len() == 13);
        }
        let cs = skip_ws(s.as_slice(), t + 13);
        let f = match first_match_exec(s.as_slice(), cs, close.as_slice()) {
            Some(f) => f,
            None => {
                assert(step_blocks_from(s@, i as int) =~= Seq::<Seq<char>>::empty());
                assert(out@.map_values(|x: String| x@) =~= before + Seq::<Seq<char>>::empty());
                break;
            },
        };
        proof {
            lemma_first_match_bounds(s@, cs as int, fence());
            assert(fence().len() == 3);
        }
        let inner = slice_subrange(s.as_slice(), cs, f);
        let hi = skip_ws_back(inner, inner.len());
        proof {
            lemma_ws_len_back_bound(inner@, inner@.len() as int);
        }
        let block = string_of(slice_subrange(inner, 0, hi));
        out.push(block);
        assert(out@.map_values(|x: String| x@) =~= before.push(trim_end(s@.subrange(cs as int, f as int))));
        i = f + 3;
    }
    out
}

} // verus!
