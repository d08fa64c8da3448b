//! Code review by language model: change units read from a unified diff are
//! paired with file-scoped rules, turned into prompts, and the model's
//! replies are read back as located, severity-tagged findings.

pub mod chat;
pub mod diff;
pub mod glob;
pub mod indication;
pub mod json;
pub mod linter;
pub mod prompt;
pub mod reply;
pub mod report;
pub mod rules;
pub mod text;
