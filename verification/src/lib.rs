//! Verified core of the apcore module runtime.
pub mod clock;
pub mod decimals;
pub mod digest;
pub mod error_code;
pub mod errors;
pub mod events;
pub mod executor;
pub mod extensions;
pub mod globs;
pub mod ids;
pub mod json;
pub mod middleware;
pub mod module;
pub mod observability;
pub mod rate;
pub mod regexes;
pub mod strmap;
pub mod strset;
pub mod text;
pub mod wildcard;
