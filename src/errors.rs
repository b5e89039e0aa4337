use vstd::prelude::*;

verus! {

/// The library's failures, one variant per stage of the pipeline.
#[derive(Debug, Clone)]
pub enum GenAiError {
    /// Malformed document text: delimiters, missing sections, step blocks.
    Parse(String),
    /// A parsed skill breaks a structural or permission rule.
    Validation(String),
    /// No skill could be chosen for a request.
    Selection(String),
    /// A step could not be run.
    Execution(String),
}

impl GenAiError {
    /// The error as one line of text, prefixed with its kind.
    pub fn message(&self) -> (r: String)
        ensures
            r@ == self.kind_prefix() + self.detail()@,
    {
        let (prefix, detail) = match self {
            GenAiError::Parse(m) => ("Parse error: ", m),
            GenAiError::Validation(m) => ("Validation error: ", m),
            GenAiError::Selection(m) => ("Selection error: ", m),
            GenAiError::Execution(m) => ("Execution error: ", m),
        };
        proof {
            reveal_strlit("Parse error: ");
            reveal_strlit("Validation error: ");
            reveal_strlit("Selection error: ");
            reveal_strlit("Execution error: ");
        }
        String::from_str(prefix).concat(detail.as_str())
    }

    pub open spec fn kind_prefix(&self) -> Seq<char> {
        match self {
            GenAiError::Parse(_) => "Parse error: "@,
            GenAiError::Validation(_) => "Validation error: "@,
            GenAiError::Selection(_) => "Selection error: "@,
            GenAiError::Execution(_) => "Execution error: "@,
        }
    }

    pub open spec fn detail(&self) -> String {
        match self {
            GenAiError::Parse(m) => *m,
            GenAiError::Validation(m) => *m,
            GenAiError::Selection(m) => *m,
            GenAiError::Execution(m) => *m,
        }
    }
}

/// Builds an error message from a fixed text and a name.
pub fn describe(text: &str, name: &str) -> (r: String)
    ensures
        r@ == text@ + name@,
{
    String::from_str(text).concat(name)
}

} // verus!
