use vstd::prelude::*;

use crate::errors::{describe, GenAiError};
use crate::model::{opt_chars, Skill, SkillMetadata, StepType, WorkflowStep};
use crate::text::{chars_of, is_blank, is_blank_exec};

verus! {

/// No two steps share an `id`.
pub open spec fn ids_distinct(steps: Seq<WorkflowStep>) -> bool {
    forall|i: int, j: int| 0 <= i < j < steps.len() ==> steps[i].id@ != steps[j].id@
}

/// `name` is one of `names`.
pub open spec fn names_contain(names: Seq<String>, name: Seq<char>) -> bool {
    exists|i: int| 0 <= i < names.len() && names[i]@ == name
}

/// The permission rules that one step must meet under the skill's metadata:
/// a command step needs commands allowed, a runner on the allow-list and a
/// non-blank command; a generation step needs network access unless its
/// model is the offline `executor`.
pub open spec fn step_allowed(meta: SkillMetadata, step: WorkflowStep) -> bool {
    match step.step_type {
        StepType::Command => {
            &&& meta.permissions.run_commands
            &&& step.runner is Some
            &&& names_contain(meta.permissions.allowed_runners@, step.runner->Some_0@)
            &&& !is_blank(opt_chars(step.cmd))
        },
        StepType::Llm => meta.permissions.network_access || (step.model is Some
            && step.model->Some_0@ == "executor"@),
        StepType::Output => true,
    }
}

/// The header rules: a non-blank name, the `workflow` entrypoint and
/// workflow version 1.
pub open spec fn header_valid(meta: SkillMetadata) -> bool {
    &&& !is_blank(meta.name@)
    &&& meta.entrypoint@ == "workflow"@
    &&& meta.workflow_version == 1
}

/// Every rule that a skill must meet before it may run.
pub open spec fn skill_valid(skill: Skill) -> bool {
    &&& header_valid(skill.metadata)
    &&& ids_distinct(skill.steps@)
    &&& forall|i: int| 0 <= i < skill.steps@.len() ==> step_allowed(skill.metadata, skill.steps@[i])
}

fn names_contain_exec(names: &Vec<String>, name: &String) -> (r: bool)
    ensures
        r == names_contain(names@, name@),
{
    let mut i: usize = 0;
    while i < names.len()
        invariant
            i <= names@.len(),
            forall|j: int| 0 <= j < i ==> names@[j]@ != name@,
        decreases names.len() - i,
    {
        if names[i] == *name {
            return true;
        }
        i = i + 1;
    }
    false
}

/// Whether an optional field is absent or whitespace only.
fn opt_is_blank(o: &Option<String>) -> (r: bool)
    ensures
        r == is_blank(opt_chars(*o)),
{
    match o {
        Some(s) => is_blank_exec(chars_of(s.as_str()).as_slice()),
        None => true,
    }
}

/// Whether an optional field is present and equal to `lit`.
fn opt_equals(o: &Option<String>, lit: &str) -> (r: bool)
    ensures
        r == (o is Some && o->Some_0@ == lit@),
{
    match o {
        Some(s) => *s == String::from_str(lit),
        None => false,
    }
}

/// The permission rules of one step; the error names the step.
fn check_step(meta: &SkillMetadata, step: &WorkflowStep) -> (r: Result<(), GenAiError>)
    ensures
        r is Ok <==> step_allowed(*meta, *step),
        r matches Err(e) ==> e is Validation,
{
    match step.step_type {
        StepType::Command => {
            if !meta.permissions.run_commands {
                return Err(
                    GenAiError::Validation(
                        describe("command step not allowed when run_commands=false: ", step.id.as_str()),
                    ),
                );
            }
            let runner = match &step.runner {
                Some(r) => r,
                None => {
                    return Err(
                        GenAiError::Validation(describe("command step missing runner: ", step.id.as_str())),
                    );
                },
            };
            if !names_contain_exec(&meta.permissions.allowed_runners, runner) {
                return Err(
                    GenAiError::Validation(
                        describe("command step runner not in allowed_runners: ", step.id.as_str()),
                    ),
                );
            }
            if opt_is_blank(&step.cmd) {
                return Err(
                    GenAiError::Validation(describe("command step has empty cmd: ", step.id.as_str())),
                );
            }
            Ok(())
        },
        StepType::Llm => {
            if !meta.permissions.network_access {
                if !opt_equals(&step.model, "executor") {
                    return Err(
                        GenAiError::Validation(
                            describe(
                                "network_access=false requires the offline model 'executor': ",
                                step.id.as_str(),
                            ),
                        ),
                    );
                }
            }
            Ok(())
        },
        StepType::Output => Ok(()),
    }
}

/// Checks a parsed skill against the structural and permission rules, in this
/// order: name, entrypoint, workflow version, then each step in turn (its id
/// first, then its permissions). The first rule broken is reported. Output
/// variables may repeat: a later step may reuse an earlier step's variable,
/// as a fallback that runs only when the earlier one left it empty.
pub fn validate_skill(skill: &Skill) -> (r: Result<(), GenAiError>)
    ensures
        r is Ok <==> skill_valid(*skill),
        r matches Err(e) ==> e is Validation,
        skill.metadata.entrypoint@ != "workflow"@ || skill.metadata.workflow_version != 1
            ==> r is Err,
        r is Ok ==> ids_distinct(skill.steps@),
{
    let metadata = &skill.metadata;
    if is_blank_exec(chars_of(metadata.name.as_str()).as_slice()) {
        return Err(GenAiError::Validation(String::from_str("skill name cannot be empty")));
    }
    if metadata.entrypoint != String::from_str("workflow") {
        return Err(GenAiError::Validation(String::from_str("only entrypoint=workflow is supported")));
    }
    if metadata.workflow_version != 1 {
        return Err(GenAiError::Validation(String::from_str("only workflow_version=1 is supported")));
    }
    let steps = &skill.steps;
    let mut i: usize = 0;
    while i < steps.len()
        invariant
            i <= steps@.len(),
            steps@ == skill.steps@,
            header_valid(*metadata),
            *metadata == skill.metadata,
            ids_distinct(steps@.take(i as int)),
            forall|j: int| 0 <= j < i ==> step_allowed(*metadata, steps@[j]),
        decreases steps.len() - i,
    {
        let mut j: usize = 0;
        while j < i
            invariant
                j <= i < steps@.len(),
                steps@ == skill.steps@,
                forall|k: int| 0 <= k < j ==> steps@[k].id@ != steps@[i as int].id@,
            decreases i - j,
        {
            if steps[j].id == steps[i].id {
                assert(steps@[j as int].id@ == steps@[i as int].id@);
                assert(!ids_distinct(skill.steps@));
                return Err(GenAiError::Validation(describe("duplicate step id: ", steps[i].id.as_str())));
            }
            j = j + 1;
        }
        match check_step(metadata, &steps[i]) {
            Ok(()) => {},
            Err(e) => {
                return Err(e);
            },
        }
        assert(ids_distinct(steps@.take(i + 1)));
        i = i + 1;
    }
    assert(steps@.take(i as int) =~= steps@);
    Ok(())
}

} // verus!
