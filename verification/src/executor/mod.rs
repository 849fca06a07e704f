//! Execution of modules.
pub mod call;
pub mod merge;
pub mod pipeline;
pub mod preflight;
pub mod redact;
pub mod schema;
pub mod stream;
