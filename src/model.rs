use vstd::prelude::*;

verus! {

/// One parsed skill document: metadata, the free-text body, and the ordered steps.
#[derive(Debug, Clone)]
pub struct Skill {
    pub metadata: SkillMetadata,
    pub markdown_body: String,
    pub steps: Vec<WorkflowStep>,
    pub path: String,
}

#[derive(Debug, Clone)]
pub struct SkillMetadata {
    pub name: String,
    pub description: String,
    pub version: String,
    pub category: String,
    pub tags: Vec<String>,
    pub entrypoint: String,
    pub workflow_version: u32,
    pub capabilities: Capabilities,
    pub permissions: Permissions,
    pub response_format: ResponseFormat,
}

#[derive(Debug, Clone)]
pub struct Capabilities {
    pub requires_repo: bool,
    pub supports_interactive: bool,
}

#[derive(Debug, Clone)]
pub struct Permissions {
    pub run_commands: bool,
    pub allowed_runners: Vec<String>,
    /// Listed by skills but not enforced by this library.
    pub allowed_paths: Vec<String>,
    pub network_access: bool,
    pub write_access: bool,
}

#[derive(Debug, Clone)]
pub struct ResponseFormat {
    pub format_type: String,
    pub style: Option<String>,
}

/// The kind of a workflow step.
#[derive(Debug, Clone, Copy, PartialEq, Eq, Structural)]
pub enum StepType {
    Command,
    Llm,
    Output,
}

/// One step of a skill's workflow. Which optional fields a step needs
/// depends on its kind.
#[derive(Debug, Clone)]
pub struct WorkflowStep {
    pub id: String,
    pub step_type: StepType,
    /// Guard expression: the step runs only when it evaluates to true.
    pub if_expr: Option<String>,
    pub output_var: Option<String>,
    pub runner: Option<String>,
    pub cmd: Option<String>,
    pub model: Option<String>,
    pub input_vars: Vec<String>,
    pub prompt: Option<String>,
    pub format: Option<String>,
    pub template: Option<String>,
}

/// The characters of an optional string field, empty when the field is absent.
pub open spec fn opt_chars(o: Option<String>) -> Seq<char> {
    match o {
        Some(s) => s@,
        None => Seq::empty(),
    }
}

} // verus!
