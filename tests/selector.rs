use genai::errors::GenAiError;
use genai::llm::{LlmClient, MockLlmClient};
use genai::model::{
    Capabilities, Permissions, ResponseFormat, Skill, SkillMetadata,
};
use genai::prompt::build_selector_prompt;
use genai::selector::{fallback_select, select_skill};

fn skill(name: &str, description: &str, category: &str, tags: &[&str]) -> Skill {
    Skill {
        metadata: SkillMetadata {
            name: name.to_string(),
            description: description.to_string(),
            version: "1.0.0".to_string(),
            category: category.to_string(),
            tags: tags.iter().map(|t| t.to_string()).collect(),
            entrypoint: "workflow".to_string(),
            workflow_version: 1,
            capabilities: Capabilities {
                requires_repo: false,
                supports_interactive: false,
            },
            permissions: Permissions {
                run_commands: false,
                allowed_runners: vec![],
                allowed_paths: vec![],
                network_access: false,
                write_access: false,
            },
            response_format: ResponseFormat {
                format_type: "text".to_string(),
                style: None,
            },
        },
        markdown_body: String::new(),
        steps: vec![],
        path: String::new(),
    }
}

fn two_skills() -> Vec<Skill> {
    vec![
        skill("auto-commit-msg", "generate a commit message", "git", &["git", "commit"]),
        skill("other", "unrelated", "misc", &[]),
    ]
}

#[test]
fn heuristic_picks_commit_skill() {
    let skills = two_skills();
    let picked = fallback_select("please write my commit message", &skills).expect("a skill");
    assert_eq!(picked.metadata.name, "auto-commit-msg");
    let picked = select_skill("please write my commit message", &skills, None).expect("a skill");
    assert_eq!(picked.metadata.name, "auto-commit-msg");
}

#[test]
fn heuristic_compares_in_lower_case() {
    let skills = vec![
        skill("a", "Deploy The Service", "ops", &[]),
        skill("b", "nothing", "misc", &[]),
    ];
    let picked = fallback_select("DEPLOY", &skills).expect("a skill");
    assert_eq!(picked.metadata.name, "a");
}

#[test]
fn heuristic_breaks_ties_by_tags_then_takes_last() {
    let skills = vec![
        skill("tagged", "x", "y", &["lint"]),
        skill("described", "lint code", "y", &[]),
    ];
    // "tagged" scores 1 (tag), "described" scores 2 (description).
    assert_eq!(fallback_select("lint", &skills).unwrap().metadata.name, "described");
    let tied = vec![skill("first", "a", "b", &[]), skill("second", "c", "d", &[])];
    assert_eq!(fallback_select("zzz", &tied).unwrap().metadata.name, "second");
    let by_tags = vec![
        skill("more-tags", "q", "r", &["fmt", "fm"]),
        skill("desc", "fmt", "r", &[]),
    ];
    // Both score 2; the first has two matching tags.
    assert_eq!(fallback_select("fmt", &by_tags).unwrap().metadata.name, "more-tags");
}

#[test]
fn empty_skill_set_fails() {
    let none: Vec<Skill> = vec![];
    assert!(matches!(fallback_select("x", &none), Err(GenAiError::Selection(_))));
    assert!(matches!(select_skill("x", &none, Some("a")), Err(GenAiError::Selection(_))));
}

#[test]
fn model_choice_wins_when_it_names_a_skill() {
    let skills = two_skills();
    let picked = select_skill("please write my commit message", &skills, Some("other")).unwrap();
    assert_eq!(picked.metadata.name, "other");
    let picked = select_skill("please write my commit message", &skills, Some("unknown")).unwrap();
    assert_eq!(picked.metadata.name, "auto-commit-msg");
}

#[test]
fn prompt_lists_every_skill() {
    let skills = two_skills();
    let p = build_selector_prompt("do it", &skills);
    let expected = "Select best skill for user request. Return strict JSON: \
{\"skill\":\"...\",\"confidence\":0.0,\"reason\":\"...\"}\n\
User input: do it\nAvailable skills:\n\
- name: auto-commit-msg\n  description: generate a commit message\n  category: git\n  tags: [\"git\", \"commit\"]\n\
- name: other\n  description: unrelated\n  category: misc\n  tags: []";
    assert_eq!(p, expected);
}

#[test]
fn mock_client_answers_by_model() {
    let mock = MockLlmClient::new();
    let sel = mock.generate("selector", "Write a COMMIT").unwrap();
    assert!(sel.contains("\"confidence\":0.92"));
    let sel = mock.generate("selector", "other").unwrap();
    assert!(sel.contains("\"reason\":\"default\""));
    assert_eq!(
        mock.generate("executor", "x").unwrap(),
        "chore(core): update generated changes"
    );
    assert_eq!(mock.generate("m1", "hello").unwrap(), "[mock:m1] hello");
}
