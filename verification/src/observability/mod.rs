//! What is observed of calls.
pub mod error_history;
pub mod exporters;
pub mod labels;
pub mod logging;
pub mod metrics;
pub mod processor;
pub mod prometheus_exporter;
pub mod redaction;
pub mod span;
pub mod storage;
pub mod store;
pub mod tracing_config;
pub mod tracing_middleware;
pub mod usage;
pub mod usage_exporter;
