pub mod condition;
pub mod context;
pub mod errors;
pub mod executor;
pub mod llm;
pub mod model;
pub mod parser;
pub mod prompt;
pub mod selector;
pub mod templating;
pub mod text;
pub mod validator;
