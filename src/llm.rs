use vstd::prelude::*;

use crate::errors::GenAiError;
use crate::text::{chars_of, contains, contains_exec, lower_of, to_lower};

verus! {

/// A text-generation service: `generate(model, prompt)` returns the text the
/// model produced, or fails (network, authorization, unreadable reply).
pub trait LlmClient {
    fn generate(&self, model: &str, prompt: &str) -> Result<String, GenAiError>;
}

/// A generation service that answers from fixed rules, without a network.
#[derive(Debug, Clone, Copy)]
pub struct MockLlmClient;

/// The word that steers the mock's selection answer.
pub open spec fn commit_word() -> Seq<char> {
    seq!['c', 'o', 'm', 'm', 'i', 't']
}

/// The mock's answer: for the `selector` model a selection of
/// `auto-commit-msg` (with higher confidence when the prompt mentions a
/// commit, in any case); for the `executor` model a fixed commit message;
/// otherwise the prompt echoed after a tag naming the model.
pub open spec fn mock_reply(model: Seq<char>, prompt: Seq<char>) -> Seq<char> {
    if model == "selector"@ {
        if contains(lower_of(prompt), commit_word()) {
            "{\"skill\":\"auto-commit-msg\",\"confidence\":0.92,\"reason\":\"commit related request\"}"@
        } else {
            "{\"skill\":\"auto-commit-msg\",\"confidence\":0.51,\"reason\":\"default\"}"@
        }
    } else if model == "executor"@ {
        "chore(core): update generated changes"@
    } else {
        "[mock:"@ + model + "] "@ + prompt
    }
}

impl MockLlmClient {
    pub fn new() -> (r: Self) {
        MockLlmClient
    }

    /// The mock's answer to `prompt` for `model`; it never fails.
    pub fn reply(&self, model: &str, prompt: &str) -> (r: String)
        ensures
            r@ == mock_reply(model@, prompt@),
    {
        let m = String::from_str(model);
        if m == String::from_str("selector") {
            let lowered = to_lower(prompt);
            let word = vec!['c', 'o', 'm', 'm', 'i', 't'];
            assert(word@ == commit_word());
            if contains_exec(chars_of(lowered.as_str()).as_slice(), word.as_slice()) {
                return String::from_str(
                    "{\"skill\":\"auto-commit-msg\",\"confidence\":0.92,\"reason\":\"commit related request\"}",
                );
            }
            return String::from_str(
                "{\"skill\":\"auto-commit-msg\",\"confidence\":0.51,\"reason\":\"default\"}",
            );
        }
        if m == String::from_str("executor") {
            return String::from_str("chore(core): update generated changes");
        }
        let mut out = String::from_str("[mock:");
        out.append(model);
        out.append("] ");
        out.append(prompt);
        out
    }
}

impl LlmClient for MockLlmClient {
    fn generate(&self, model: &str, prompt: &str) -> Result<String, GenAiError> {
        Ok(self.reply(model, prompt))
    }
}

} // verus!
