use vstd::prelude::*;

use crate::errors::GenAiError;
use crate::model::{Skill, SkillMetadata};
use crate::text::{chars_of, contains, contains_exec, lower_of, to_lower};

verus! {

/// A tag matches the lower-cased request when either contains the other,
/// compared in lower case.
pub open spec fn tag_hit(tag: Seq<char>, input_l: Seq<char>) -> bool {
    contains(input_l, lower_of(tag)) || contains(lower_of(tag), input_l)
}

/// How many of `tags` match the lower-cased request.
pub open spec fn tag_matches(tags: Seq<String>, input_l: Seq<char>) -> nat
    decreases tags.len(),
{
    if tags.len() == 0 {
        0
    } else {
        tag_matches(tags.drop_last(), input_l) + if tag_hit(tags.last()@, input_l) {
            1nat
        } else {
            0nat
        }
    }
}

/// Two points when the request occurs in the description, two more when it
/// occurs in the category, all in lower case.
pub open spec fn base_score(m: SkillMetadata, input_l: Seq<char>) -> nat {
    (if contains(lower_of(m.description@), input_l) {
        2nat
    } else {
        0nat
    }) + (if contains(lower_of(m.category@), input_l) {
        2nat
    } else {
        0nat
    })
}

/// The heuristic score of a skill for a lower-cased request: the base score
/// plus one point per matching tag.
pub open spec fn score(m: SkillMetadata, input_l: Seq<char>) -> nat {
    base_score(m, input_l) + tag_matches(m.tags@, input_l)
}

/// `a` ranks at least as high as `b`: a higher score, or an equal score and
/// at least as many matching tags.
pub open spec fn ranks_at_least(a: SkillMetadata, b: SkillMetadata, input_l: Seq<char>) -> bool {
    score(a, input_l) > score(b, input_l) || (score(a, input_l) == score(b, input_l)
        && tag_matches(a.tags@, input_l) >= tag_matches(b.tags@, input_l))
}

/// Index `i` is the heuristic's pick among `skills`: it ranks at least as
/// high as every skill, and strictly higher than every later one (of equally
/// ranked skills the last is taken).
pub open spec fn is_heuristic_pick(skills: Seq<Skill>, input_l: Seq<char>, i: int) -> bool {
    &&& 0 <= i < skills.len()
    &&& forall|j: int|
        0 <= j < skills.len() ==> ranks_at_least(skills[i].metadata, skills[j].metadata, input_l)
    &&& forall|j: int|
        i < j < skills.len() ==> !ranks_at_least(skills[j].metadata, skills[i].metadata, input_l)
}

/// Index `i` holds the first skill named `name`.
pub open spec fn is_first_named(skills: Seq<Skill>, name: Seq<char>, i: int) -> bool {
    &&& 0 <= i < skills.len()
    &&& skills[i].metadata.name@ == name
    &&& forall|j: int| 0 <= j < i ==> skills[j].metadata.name@ != name
}

/// Some skill is named `name`.
pub open spec fn has_named(skills: Seq<Skill>, name: Seq<char>) -> bool {
    exists|i: int| 0 <= i < skills.len() && skills[i].metadata.name@ == name
}

/// The number of tags of `m` that match, and its base score.
fn score_parts(m: &SkillMetadata, input_l: &[char]) -> (r: (u8, usize))
    ensures
        r.0 as nat == base_score(*m, input_l@),
        r.1 as nat == tag_matches(m.tags@, input_l@),
{
    let mut base: u8 = 0;
    let desc = to_lower(m.description.as_str());
    if contains_exec(chars_of(desc.as_str()).as_slice(), input_l) {
        base = base + 2;
    }
    let cat = to_lower(m.category.as_str());
    if contains_exec(chars_of(cat.as_str()).as_slice(), input_l) {
        base = base + 2;
    }
    let mut tm: usize = 0;
    let mut k: usize = 0;
    while k < m.tags.len()
        invariant
            k <= m.tags@.len(),
            tm <= k,
            tm as nat == tag_matches(m.tags@.take(k as int), input_l@),
        decreases m.tags.len() - k,
    {
        let t = to_lower(m.tags[k].as_str());
        let tc = chars_of(t.as_str());
        let hit = contains_exec(input_l, tc.as_slice()) || contains_exec(tc.as_slice(), input_l);
        assert(m.tags@.take(k + 1).drop_last() =~= m.tags@.take(k as int));
        if hit {
            tm = tm + 1;
        }
        k = k + 1;
    }
    assert(m.tags@.take(k as int) =~= m.tags@);
    (base, tm)
}

/// Picks the skill whose description, category and tags best match the
/// request, compared in lower case; of equally ranked skills the last wins.
/// Fails only when `skills` is empty.
pub fn fallback_select<'a>(user_input: &str, skills: &'a [Skill]) -> (r: Result<
    &'a Skill,
    GenAiError,
>)
    ensures
        skills@.len() == 0 ==> (r matches Err(e) && e is Selection),
        skills@.len() > 0 ==> (r matches Ok(s) && exists|i: int|
            is_heuristic_pick(skills@, lower_of(user_input@), i) && *s == skills@[i]),
{
    if skills.len() == 0 {
        return Err(GenAiError::Selection(String::from_str("unable to select a skill")));
    }
    let input = to_lower(user_input);
    let input_l = chars_of(input.as_str());
    let ghost inp = lower_of(user_input@);
    let (b0, t0) = score_parts(&skills[0].metadata, input_l.as_slice());
    let mut best: usize = 0;
    let mut best_score: u128 = b0 as u128 + t0 as u128;
    let mut best_tags: usize = t0;
    let mut i: usize = 1;
    while i < skills.len()
        invariant
            1 <= i <= skills@.len(),
            input_l@ == inp,
            best < i,
            best_score as nat == score(skills@[best as int].metadata, inp),
            best_tags as nat == tag_matches(skills@[best as int].metadata.tags@, inp),
            forall|j: int|
                0 <= j < i ==> ranks_at_least(skills@[best as int].metadata, skills@[j].metadata, inp),
            forall|j: int|
                best < j < i ==> !ranks_at_least(skills@[j].metadata, skills@[best as int].metadata, inp),
        decreases skills.len() - i,
    {
        let (b, t) = score_parts(&skills[i].metadata, input_l.as_slice());
        let s: u128 = b as u128 + t as u128;
        if s > best_score || (s == best_score && t >= best_tags) {
            best = i;
            best_score = s;
            best_tags = t;
        }
        i = i + 1;
    }
    Ok(&skills[best])
}

/// Chooses the skill for a request. `model_choice` is the skill name that a
/// generation service proposed, if it was asked and its reply could be read:
/// when a skill has exactly that name, the first such skill is taken;
/// otherwise the heuristic of `fallback_select` decides. Fails only when
/// `skills` is empty.
pub fn select_skill<'a>(user_input: &str, skills: &'a [Skill], model_choice: Option<&str>) -> (r:
    Result<&'a Skill, GenAiError>)
    ensures
        skills@.len() == 0 ==> (r matches Err(e) && e is Selection),
        skills@.len() > 0 && model_choice is Some && has_named(skills@, model_choice->Some_0@)
            ==> (r matches Ok(s) && exists|i: int|
            is_first_named(skills@, model_choice->Some_0@, i) && *s == skills@[i]),
        skills@.len() > 0 && !(model_choice is Some && has_named(skills@, model_choice->Some_0@))
            ==> (r matches Ok(s) && exists|i: int|
            is_heuristic_pick(skills@, lower_of(user_input@), i) && *s == skills@[i]),
{
    if skills.len() == 0 {
        return Err(GenAiError::Selection(String::from_str("no skills found")));
    }
    if let Some(name) = model_choice {
        let wanted = String::from_str(name);
        let mut i: usize = 0;
        while i < skills.len()
            invariant
                i <= skills@.len(),
                wanted@ == name@,
                model_choice == Some(name),
                forall|j: int| 0 <= j < i ==> skills@[j].metadata.name@ != name@,
            decreases skills.len() - i,
        {
            if skills[i].metadata.name == wanted {
                assert(is_first_named(skills@, name@, i as int));
                assert(has_named(skills@, name@));
                return Ok(&skills[i]);
            }
            i = i + 1;
        }
    }
    fallback_select(user_input, skills)
}

} // verus!
