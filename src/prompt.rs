use vstd::prelude::*;

use crate::model::Skill;

verus! {

/// What `format!("{:?}", ..)` makes of a list of strings.
pub uninterp spec fn debug_list_of(items: Seq<Seq<char>>) -> Seq<char>;

/// Relies on `Debug` for `Vec<String>`: the text depends on the strings alone.
#[verifier::external_body]
fn debug_list(items: &Vec<String>) -> (r: String)
    ensures
        r@ == debug_list_of(items@.map_values(|s: String| s@)),
{
    format!("{:?}", items)
}

/// The lines that describe one skill to the generation service.
pub open spec fn skill_entry(s: Skill) -> Seq<char> {
    "- name: "@ + s.metadata.name@ + "\n  description: "@ + s.metadata.description@
        + "\n  category: "@ + s.metadata.category@ + "\n  tags: "@ + debug_list_of(
        s.metadata.tags@.map_values(|t: String| t@),
    )
}

/// The entries of `skills`, one after another, separated by line breaks.
pub open spec fn skills_text(skills: Seq<Skill>) -> Seq<char>
    decreases skills.len(),
{
    if skills.len() == 0 {
        Seq::empty()
    } else if skills.len() == 1 {
        skill_entry(skills[0])
    } else {
        skills_text(skills.drop_last()) + "\n"@ + skill_entry(skills.last())
    }
}

/// The instructions that open every selection prompt.
pub open spec fn prompt_head() -> Seq<char> {
    "Select best skill for user request. Return strict JSON: {\"skill\":\"...\",\"confidence\":0.0,\"reason\":\"...\"}\nUser input: "@
}

/// The selection prompt for a request and a set of skills.
pub open spec fn selector_prompt(user_input: Seq<char>, skills: Seq<Skill>) -> Seq<char> {
    prompt_head() + user_input + "\nAvailable skills:\n"@ + skills_text(skills)
}

/// Builds the prompt that asks a generation service to pick one of `skills`
/// for `user_input` and to answer with a JSON object naming it.
pub fn build_selector_prompt(user_input: &str, skills: &[Skill]) -> (r: String)
    ensures
        r@ == selector_prompt(user_input@, skills@),
{
    let mut text = String::new();
    let mut i: usize = 0;
    while i < skills.len()
        invariant
            i <= skills@.len(),
            text@ == skills_text(skills@.take(i as int)),
        decreases skills.len() - i,
    {
        let m = &skills[i].metadata;
        if i > 0 {
            text.append("\n");
        }
        text.append("- name: ");
        text.append(m.name.as_str());
        text.append("\n  description: ");
        text.append(m.description.as_str());
        text.append("\n  category: ");
        text.append(m.category.as_str());
        text.append("\n  tags: ");
        let tags = debug_list(&m.tags);
        text.append(tags.as_str());
        proof {
            let t = skills@.take(i + 1);
            assert(t.drop_last() =~= skills@.take(i as int));
            assert(t.last() == skills@[i as int]);
        }
        i = i + 1;
    }
    assert(skills@.take(i as int) =~= skills@);
    let mut out = String::from_str("Select best skill for user request. Return strict JSON: {\"skill\":\"...\",\"confidence\":0.0,\"reason\":\"...\"}\nUser input: ");
    out.append(user_input);
    out.append("\nAvailable skills:\n");
    out.append(text.as_str());
    out
}

} // verus!
