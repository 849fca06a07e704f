//! Middlewares and the manager that runs them.
pub mod adapters;
pub mod base;
pub mod circuit_breaker;
pub mod context_namespace;
pub mod logging;
pub mod manager;
pub mod otel_tracing;
pub mod platform_notify;
pub mod retry;
pub mod yaml_config;
