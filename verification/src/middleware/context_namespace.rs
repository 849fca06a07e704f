//! Ownership of the keys of a call's context data.
use vstd::prelude::*;
use crate::text::starts_with;
use crate::text;

verus! {

/// Who writes a key.
#[derive(Debug, Clone, Copy, PartialEq, Eq, Structural)]
pub enum ContextWriter {
    /// Middleware that ships with the framework.
    Framework,
    /// Middleware that a user supplies.
    User,
}

/// Prefix of the keys that the framework owns.
pub const APCORE_KEY_PREFIX: &'static str = "_apcore.";

/// Prefix of the keys that users own.
pub const EXT_KEY_PREFIX: &'static str = "ext.";

/// Key under which the logging middleware keeps the start time of a call.
pub const LOGGING_START_TIME: &'static str = "_apcore.mw.logging.start_time";

/// Key under which the tracing middleware keeps the active span.
pub const TRACING_SPAN_ID: &'static str = "_apcore.mw.tracing.span_id";

/// Key under which the circuit breaker keeps the state of a circuit.
pub const CIRCUIT_STATE: &'static str = "_apcore.mw.circuit.state";

/// Outcome of checking a write.
#[derive(Debug, Clone, Copy, PartialEq, Eq, Structural)]
pub struct NamespaceCheck {
    /// The write keeps to the rules.
    pub valid: bool,
    /// The write deserves a warning.
    pub warning: bool,
}

/// Whether a writer may write a key: neither may write a key of the other's
/// prefix, and a key of neither prefix is free.
pub open spec fn may_write(writer: ContextWriter, key: Seq<char>) -> bool {
    match writer {
        ContextWriter::Framework => !text::has_prefix(key, "ext."@),
        ContextWriter::User => !text::has_prefix(key, "_apcore."@),
    }
}

/// Check a write against the ownership of its key.
pub fn validate_context_key(writer: ContextWriter, key: &str) -> (r: NamespaceCheck)
    ensures
        r.valid == may_write(writer, key@),
        r.warning == !r.valid,
{
    let in_apcore = starts_with(key, APCORE_KEY_PREFIX);
    let in_ext = starts_with(key, EXT_KEY_PREFIX);
    let valid = match writer {
        ContextWriter::Framework => !in_ext,
        ContextWriter::User => !in_apcore,
    };
    NamespaceCheck { valid, warning: !valid }
}

/// Check a write, and give the warning that a violation deserves.
pub fn enforce_context_key(writer: ContextWriter, key: &str) -> (r: (NamespaceCheck, Option<&'static str>))
    ensures
        r.0.valid == may_write(writer, key@),
        r.0.warning == !r.0.valid,
        r.1 is Some <==> r.0.warning,
        r.1 matches Some(w) ==> w@ == (match writer {
            ContextWriter::User => "User middleware wrote to reserved '_apcore.*' namespace; framework-owned keys must not be set by user code"@,
            ContextWriter::Framework => "Framework middleware wrote to user 'ext.*' namespace; user-extension keys must not be set by framework code"@,
        }),
{
    let check = validate_context_key(writer, key);
    let warning = if check.warning {
        match writer {
            ContextWriter::User => Some(
                "User middleware wrote to reserved '_apcore.*' namespace; framework-owned keys must not be set by user code",
            ),
            ContextWriter::Framework => Some(
                "Framework middleware wrote to user 'ext.*' namespace; user-extension keys must not be set by framework code",
            ),
        }
    } else {
        None
    };
    (check, warning)
}

/// The keys that the framework's own middleware writes are its to write.
pub proof fn framework_keys_are_its_own()
    ensures
        may_write(ContextWriter::Framework, LOGGING_START_TIME@),
        may_write(ContextWriter::Framework, TRACING_SPAN_ID@),
        may_write(ContextWriter::Framework, CIRCUIT_STATE@),
        !may_write(ContextWriter::User, LOGGING_START_TIME@),
        !may_write(ContextWriter::User, TRACING_SPAN_ID@),
        !may_write(ContextWriter::User, CIRCUIT_STATE@),
{
    reveal_strlit("ext.");
    reveal_strlit("_apcore.");
    reveal_strlit("_apcore.mw.logging.start_time");
    reveal_strlit("_apcore.mw.tracing.span_id");
    reveal_strlit("_apcore.mw.circuit.state");
    let p = "_apcore."@;
    assert(LOGGING_START_TIME@.subrange(0, 8) =~= p);
    assert(TRACING_SPAN_ID@.subrange(0, 8) =~= p);
    assert(CIRCUIT_STATE@.subrange(0, 8) =~= p);
    assert(LOGGING_START_TIME@.subrange(0, 4)[0] == '_');
    assert(TRACING_SPAN_ID@.subrange(0, 4)[0] == '_');
    assert(CIRCUIT_STATE@.subrange(0, 4)[0] == '_');
}

/// No key belongs to both prefixes, so every key is free to at least one writer.
pub proof fn every_key_has_a_writer(key: Seq<char>)
    ensures
        may_write(ContextWriter::Framework, key) || may_write(ContextWriter::User, key),
{
    reveal_strlit("ext.");
    reveal_strlit("_apcore.");
    if text::has_prefix(key, "ext."@) && text::has_prefix(key, "_apcore."@) {
        assert(key.subrange(0, 4)[0] == 'e');
        assert(key.subrange(0, 8)[0] == '_');
    }
}

/// What lies in the namespace of the other is not to be written; whatever else is.
pub proof fn each_writer_keeps_to_its_namespace(rest: Seq<char>, key: Seq<char>)
    ensures
        !may_write(ContextWriter::Framework, "ext."@ + rest),
        !may_write(ContextWriter::User, "_apcore."@ + rest),
        may_write(ContextWriter::Framework, "_apcore."@ + rest),
        may_write(ContextWriter::User, "ext."@ + rest),
        !text::has_prefix(key, "ext."@) ==> may_write(ContextWriter::Framework, key),
        !text::has_prefix(key, "_apcore."@) ==> may_write(ContextWriter::User, key),
{
    text::a_prefix_is_followed(key, "ext."@, rest);
    text::a_prefix_is_followed(key, "_apcore."@, rest);
    reveal_strlit("ext.");
    reveal_strlit("_apcore.");
    let a = "_apcore."@ + rest;
    let b = "ext."@ + rest;
    assert(a[0] == '_' && b[0] == 'e');
    if text::has_prefix(a, "ext."@) {
        assert(a.subrange(0, 4)[0] == 'e');
    }
    if text::has_prefix(b, "_apcore."@) {
        assert(b.subrange(0, 8)[0] == '_');
    }
}

} // verus!
