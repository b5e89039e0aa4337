use genai::errors::GenAiError;
use genai::model::{
    Capabilities, Permissions, ResponseFormat, Skill, SkillMetadata, StepType, WorkflowStep,
};
use genai::validator::validate_skill;

fn base_skill(steps: Vec<WorkflowStep>) -> Skill {
    Skill {
        metadata: SkillMetadata {
            name: "auto-commit-msg".to_string(),
            description: "desc".to_string(),
            version: "1.0.0".to_string(),
            category: "git".to_string(),
            tags: vec![],
            entrypoint: "workflow".to_string(),
            workflow_version: 1,
            capabilities: Capabilities {
                requires_repo: true,
                supports_interactive: false,
            },
            permissions: Permissions {
                run_commands: true,
                allowed_runners: vec!["bash".to_string()],
                allowed_paths: vec![],
                network_access: true,
                write_access: false,
            },
            response_format: ResponseFormat {
                format_type: "text".to_string(),
                style: None,
            },
        },
        markdown_body: String::new(),
        steps,
        path: "skills/auto-commit-msg/SKILL.md".to_string(),
    }
}

fn step(id: &str, step_type: StepType) -> WorkflowStep {
    WorkflowStep {
        id: id.to_string(),
        step_type,
        if_expr: None,
        output_var: None,
        runner: None,
        cmd: None,
        model: None,
        input_vars: vec![],
        prompt: None,
        format: None,
        template: None,
    }
}

fn command(id: &str, runner: &str, cmd: &str) -> WorkflowStep {
    let mut s = step(id, StepType::Command);
    s.runner = Some(runner.to_string());
    s.cmd = Some(cmd.to_string());
    s
}

fn is_validation(r: &Result<(), GenAiError>) -> bool {
    matches!(r, Err(GenAiError::Validation(_)))
}

#[test]
fn allows_reusing_output_var_for_fallback_steps() {
    let skill = base_skill(vec![
        WorkflowStep {
            id: "get_staged_diff".to_string(),
            step_type: StepType::Command,
            if_expr: None,
            output_var: Some("diff".to_string()),
            runner: Some("bash".to_string()),
            cmd: Some("git diff --staged".to_string()),
            model: None,
            input_vars: vec![],
            prompt: None,
            format: None,
            template: None,
        },
        WorkflowStep {
            id: "fallback_unstaged".to_string(),
            step_type: StepType::Command,
            if_expr: Some("{{diff}} == ''".to_string()),
            output_var: Some("diff".to_string()),
            runner: Some("bash".to_string()),
            cmd: Some("git diff".to_string()),
            model: None,
            input_vars: vec![],
            prompt: None,
            format: None,
            template: None,
        },
    ]);

    let result = validate_skill(&skill);
    assert!(result.is_ok(), "expected validation success, got {result:?}");
}

#[test]
fn still_rejects_duplicate_step_ids() {
    let skill = base_skill(vec![
        WorkflowStep {
            id: "duplicate".to_string(),
            step_type: StepType::Output,
            if_expr: None,
            output_var: None,
            runner: None,
            cmd: None,
            model: None,
            input_vars: vec![],
            prompt: None,
            format: Some("text".to_string()),
            template: Some("one".to_string()),
        },
        WorkflowStep {
            id: "duplicate".to_string(),
            step_type: StepType::Output,
            if_expr: None,
            output_var: None,
            runner: None,
            cmd: None,
            model: None,
            input_vars: vec![],
            prompt: None,
            format: Some("text".to_string()),
            template: Some("two".to_string()),
        },
    ]);

    let result = validate_skill(&skill);
    assert!(result.is_err(), "expected validation error");
}

#[test]
fn duplicate_ids_apart_are_rejected() {
    let skill = base_skill(vec![
        step("a", StepType::Output),
        step("b", StepType::Output),
        step("a", StepType::Output),
    ]);
    assert!(is_validation(&validate_skill(&skill)));
}

#[test]
fn wrong_entrypoint_is_rejected() {
    let mut skill = base_skill(vec![]);
    skill.metadata.entrypoint = "script".to_string();
    assert!(is_validation(&validate_skill(&skill)));
}

#[test]
fn wrong_workflow_version_is_rejected() {
    let mut skill = base_skill(vec![]);
    skill.metadata.workflow_version = 2;
    assert!(is_validation(&validate_skill(&skill)));
}

#[test]
fn blank_name_is_rejected() {
    let mut skill = base_skill(vec![]);
    skill.metadata.name = "  \t".to_string();
    assert!(is_validation(&validate_skill(&skill)));
}

#[test]
fn skill_without_steps_is_valid() {
    assert!(validate_skill(&base_skill(vec![])).is_ok());
}

#[test]
fn command_without_run_commands_is_denied() {
    let mut skill = base_skill(vec![command("a", "bash", "ls")]);
    skill.metadata.permissions.run_commands = false;
    assert!(is_validation(&validate_skill(&skill)));
}

#[test]
fn command_with_runner_off_the_list_is_denied() {
    let skill = base_skill(vec![command("a", "zsh", "ls")]);
    assert!(is_validation(&validate_skill(&skill)));
}

#[test]
fn command_without_runner_is_denied() {
    let mut s = command("a", "bash", "ls");
    s.runner = None;
    assert!(is_validation(&validate_skill(&base_skill(vec![s]))));
}

#[test]
fn command_with_blank_cmd_is_denied() {
    let skill = base_skill(vec![command("a", "bash", "   ")]);
    assert!(is_validation(&validate_skill(&skill)));
    let mut s = command("a", "bash", "ls");
    s.cmd = None;
    assert!(is_validation(&validate_skill(&base_skill(vec![s]))));
}

#[test]
fn generation_step_needs_network_unless_offline_model() {
    let mut online = step("gen", StepType::Llm);
    online.model = Some("gemini".to_string());
    online.prompt = Some("hi".to_string());
    let mut skill = base_skill(vec![online.clone()]);
    assert!(validate_skill(&skill).is_ok());
    skill.metadata.permissions.network_access = false;
    assert!(is_validation(&validate_skill(&skill)));

    let mut offline = online;
    offline.model = Some("executor".to_string());
    let mut skill = base_skill(vec![offline]);
    skill.metadata.permissions.network_access = false;
    assert!(validate_skill(&skill).is_ok());

    let mut no_model = step("gen", StepType::Llm);
    no_model.prompt = Some("hi".to_string());
    let mut skill = base_skill(vec![no_model]);
    skill.metadata.permissions.network_access = false;
    assert!(is_validation(&validate_skill(&skill)));
}

#[test]
fn error_message_names_its_kind() {
    let mut skill = base_skill(vec![]);
    skill.metadata.workflow_version = 3;
    match validate_skill(&skill) {
        Err(e) => assert!(e.message().starts_with("Validation error: ")),
        Ok(()) => panic!("expected validation error"),
    }
}
