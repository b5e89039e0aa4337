use genai::errors::GenAiError;
use genai::executor::{ExecutionInput, StepRequest, WorkflowAction, WorkflowExecutor};
use genai::model::{
    Capabilities, Permissions, ResponseFormat, Skill, SkillMetadata, StepType, WorkflowStep,
};

fn skill(steps: Vec<WorkflowStep>) -> Skill {
    Skill {
        metadata: SkillMetadata {
            name: "s".to_string(),
            description: String::new(),
            version: "1".to_string(),
            category: String::new(),
            tags: vec![],
            entrypoint: "workflow".to_string(),
            workflow_version: 1,
            capabilities: Capabilities {
                requires_repo: false,
                supports_interactive: false,
            },
            permissions: Permissions {
                run_commands: true,
                allowed_runners: vec!["bash".to_string(), "sh".to_string()],
                allowed_paths: vec![],
                network_access: true,
                write_access: false,
            },
            response_format: ResponseFormat {
                format_type: "text".to_string(),
                style: None,
            },
        },
        markdown_body: String::new(),
        steps,
        path: String::new(),
    }
}

fn step(id: &str, step_type: StepType) -> WorkflowStep {
    WorkflowStep {
        id: id.to_string(),
        step_type,
        if_expr: None,
        output_var: None,
        runner: None,
        cmd: None,
        model: None,
        input_vars: vec![],
        prompt: None,
        format: None,
        template: None,
    }
}

fn input(prompt: &str) -> ExecutionInput {
    ExecutionInput {
        user_prompt: prompt.to_string(),
        debug: false,
    }
}

/// Drives a run, answering each command with `stdout` and each generation
/// request with the prompt it was given, upper-cased.
fn run(skill: &Skill, prompt: &str, stdout: &str) -> Result<String, GenAiError> {
    let mut ex = WorkflowExecutor::new(input(prompt));
    loop {
        match ex.execute(skill)? {
            WorkflowAction::Finished(out) => return Ok(out),
            WorkflowAction::Perform(StepRequest::RunCommand { .. }) => {
                ex.resume(skill, stdout.to_string())
            }
            WorkflowAction::Perform(StepRequest::Generate { prompt, .. }) => {
                ex.resume(skill, prompt.to_uppercase())
            }
        }
    }
}

fn diff_skill() -> Skill {
    let mut a = step("A", StepType::Command);
    a.runner = Some("bash".to_string());
    a.cmd = Some("git diff".to_string());
    a.output_var = Some("diff".to_string());
    let mut b = step("B", StepType::Output);
    b.if_expr = Some("{{diff}} == ''".to_string());
    b.template = Some("no changes".to_string());
    skill(vec![a, b])
}

#[test]
fn guarded_output_runs_when_command_is_silent() {
    assert_eq!(run(&diff_skill(), "", "").unwrap(), "no changes");
}

#[test]
fn result_is_last_executed_step_output() {
    assert_eq!(run(&diff_skill(), "", "M file.rs\n").unwrap(), "M file.rs\n");
}

#[test]
fn unsupported_runner_aborts_the_run() {
    let mut first = step("first", StepType::Output);
    first.template = Some("partial".to_string());
    let mut second = step("second", StepType::Command);
    second.runner = Some("sh".to_string());
    second.cmd = Some("ls".to_string());
    let s = skill(vec![first, second]);
    assert!(matches!(run(&s, "", "x"), Err(GenAiError::Execution(_))));
}

#[test]
fn missing_fields_fail_at_execution() {
    let s = skill(vec![step("o", StepType::Output)]);
    assert!(matches!(run(&s, "", ""), Err(GenAiError::Execution(_))));
    let mut c = step("c", StepType::Command);
    c.runner = Some("bash".to_string());
    assert!(matches!(run(&skill(vec![c]), "", ""), Err(GenAiError::Execution(_))));
    let mut g = step("g", StepType::Llm);
    g.model = Some("m".to_string());
    assert!(matches!(run(&skill(vec![g]), "", ""), Err(GenAiError::Execution(_))));
}

#[test]
fn variables_flow_between_steps() {
    let mut gen = step("gen", StepType::Llm);
    gen.model = Some("m".to_string());
    gen.prompt = Some("say {{user_input}}".to_string());
    gen.output_var = Some("said".to_string());
    let mut out = step("out", StepType::Output);
    out.template = Some("<{{said}}|{{debug}}>".to_string());
    let s = skill(vec![gen, out]);
    assert_eq!(run(&s, "hi", "").unwrap(), "<SAY HI|false>");
}

#[test]
fn empty_workflow_yields_empty_output() {
    assert_eq!(run(&skill(vec![]), "x", "").unwrap(), "");
}

#[test]
fn skipped_steps_leave_output_untouched() {
    let mut a = step("a", StepType::Output);
    a.template = Some("first".to_string());
    let mut b = step("b", StepType::Output);
    b.if_expr = Some("{{user_input}} == 'other'".to_string());
    b.template = Some("second".to_string());
    assert_eq!(run(&skill(vec![a, b]), "x", "").unwrap(), "first");
}

#[test]
fn execute_while_waiting_fails_and_resume_without_wait_is_ignored() {
    let s = diff_skill();
    let mut ex = WorkflowExecutor::new(input(""));
    assert!(!ex.waiting());
    ex.resume(&s, "ignored".to_string());
    match ex.execute(&s).unwrap() {
        WorkflowAction::Perform(StepRequest::RunCommand { runner, cmd }) => {
            assert_eq!(runner, "bash");
            assert_eq!(cmd, "git diff");
        }
        other => panic!("unexpected {other:?}"),
    }
    assert!(ex.waiting());
    assert!(matches!(ex.execute(&s), Err(GenAiError::Execution(_))));
    ex.resume(&s, String::new());
    assert!(matches!(ex.execute(&s), Ok(WorkflowAction::Finished(o)) if o == "no changes"));
}
