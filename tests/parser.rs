use genai::errors::GenAiError;
use genai::parser::{parse_frontmatter, parse_genai_steps};

#[test]
fn splits_frontmatter_and_body() {
    let doc = "\n---\nname: demo\n---\n\n  # Title\nbody";
    let (yaml, body) = parse_frontmatter(doc).expect("frontmatter");
    assert_eq!(yaml, "\nname: demo\n");
    assert_eq!(body, "# Title\nbody");
}

#[test]
fn text_before_delimiter_is_rejected() {
    let r = parse_frontmatter("intro\n---\na: 1\n---\nbody");
    assert!(matches!(r, Err(GenAiError::Parse(_))));
}

#[test]
fn missing_sections_are_rejected() {
    assert!(matches!(parse_frontmatter(""), Err(GenAiError::Parse(_))));
    assert!(matches!(parse_frontmatter("no delimiters"), Err(GenAiError::Parse(_))));
    assert!(matches!(parse_frontmatter("---\na: 1\n"), Err(GenAiError::Parse(_))));
}

#[test]
fn extracts_step_blocks_in_order() {
    let body = "intro\n```genai-step\nid: a\ntype: output\n```\ntext\n```genai-step   id: b  \n```\n";
    let steps = parse_genai_steps(body);
    assert_eq!(steps, vec!["id: a\ntype: output".to_string(), "id: b".to_string()]);
}

#[test]
fn body_without_step_blocks_has_no_steps() {
    assert!(parse_genai_steps("# Just text\n```rust\nfn x() {}\n```").is_empty());
    assert!(parse_genai_steps("```genai-step\nid: open").is_empty());
}
