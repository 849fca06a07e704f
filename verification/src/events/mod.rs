//! Events, their delivery and their subscribers.
pub mod circuit_breaker;
pub mod emitter;
pub mod event;
pub mod retry;
pub mod subscribers;
