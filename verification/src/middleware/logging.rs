//! Log records of calls.
use vstd::prelude::*;
use vstd::string::*;
use crate::errors::{clone_object, ModuleError};
use crate::json::{Json, JsonValue};
use crate::observability::logging::write_rounded;
use crate::strmap::StrMap;
use crate::text::{cat2, cat3, cat4, cat5};
use crate::error_code;
use crate::json;
use crate::observability::logging;

verus! {

/// The logging middleware. Times are nanoseconds of a monotonic clock.
#[derive(Debug)]
pub struct LoggingMiddleware {
    pub log_inputs: bool,
    pub log_outputs: bool,
    pub log_errors: bool,
    pub start_times: StrMap<u64>,
}

/// The record of a call that starts.
#[derive(Debug)]
pub struct StartRecord {
    pub message: String,
    pub inputs: JsonValue,
}

/// The record of a call that failed.
#[derive(Debug)]
pub struct ErrorRecord {
    pub message: String,
    pub error_code: &'static str,
    pub error_message: String,
    pub inputs: Option<JsonValue>,
}

/// The key under which the start of a call is kept.
pub open spec fn timing_text(module_id: Seq<char>, trace_id: Seq<char>) -> Seq<char> {
    trace_id + ":"@ + module_id
}

/// The time since a start, none where the clock went backwards.
pub open spec fn duration_since(start: int, now: int) -> int {
    if now >= start {
        now - start
    } else {
        0
    }
}

/// What the record of a completed call says.
pub open spec fn end_text(module_id: Seq<char>, nanos: nat) -> Seq<char> {
    "END "@ + module_id + " ("@ + logging::rounded_millis(nanos) + "ms)"@
}

impl LoggingMiddleware {
    /// The starts that are kept.
    pub open spec fn starts(self) -> Map<Seq<char>, u64> {
        self.start_times@
    }

    /// Whether the flags are these.
    pub open spec fn flags_are(self, log_inputs: bool, log_outputs: bool, log_errors: bool) -> bool {
        self.log_inputs == log_inputs && self.log_outputs == log_outputs && self.log_errors == log_errors
    }

    /// A middleware with these flags.
    pub fn new(log_inputs: bool, log_outputs: bool, log_errors: bool) -> (r: Self)
        ensures
            r.flags_are(log_inputs, log_outputs, log_errors),
            r.starts() == Map::<Seq<char>, u64>::empty(),
    {
        LoggingMiddleware { log_inputs, log_outputs, log_errors, start_times: StrMap::new() }
    }

    /// A middleware that logs everything.
    pub fn with_defaults() -> (r: Self)
        ensures
            r.flags_are(true, true, true),
            r.starts() == Map::<Seq<char>, u64>::empty(),
    {
        LoggingMiddleware::new(true, true, true)
    }

    /// The name of the middleware.
    pub fn name(&self) -> (r: &'static str)
        ensures
            r@ == "logging"@,
    {
        "logging"
    }

    /// The priority of the middleware.
    pub fn priority(&self) -> (r: u16)
        ensures
            r == 700,
    {
        700
    }

    fn timing_key(module_id: &str, trace_id: &str) -> (r: String)
        ensures
            r@ == timing_text(module_id@, trace_id@),
    {
        cat3(trace_id, ":", module_id)
    }

    /// Before a call: keep its start, and give the record of it. The redacted
    /// inputs are shown where there are some.
    pub fn before(
        &mut self,
        module_id: &str,
        trace_id: &str,
        inputs: &JsonValue,
        redacted_inputs: Option<&StrMap<JsonValue>>,
        now: u64,
    ) -> (r: Option<StartRecord>)
        ensures
            final(self).flags_are(old(self).log_inputs, old(self).log_outputs, old(self).log_errors),
            final(self).starts() == old(self).starts().insert(timing_text(module_id@, trace_id@), now),
            r is Some <==> old(self).log_inputs,
            r matches Some(rec) ==> rec.message@ == "START "@ + module_id@ && rec.inputs@ == (match redacted_inputs {
                Some(m) => Json::Obj(json::object_view(*m)),
                None => inputs@,
            }),
    {
        broadcast use crate::json::lemma_value_view;
        let key = LoggingMiddleware::timing_key(module_id, trace_id);
        self.start_times.insert(key, now);
        if !self.log_inputs {
            return None;
        }
        let shown = match redacted_inputs {
            Some(m) => JsonValue::Object(clone_object(m)),
            None => inputs.clone(),
        };
        Some(StartRecord { message: cat2("START ", module_id), inputs: shown })
    }

    /// After a call: forget its start, and give how long it took where outputs
    /// are logged. A call without a start took no time.
    pub fn after(&mut self, module_id: &str, trace_id: &str, now: u64) -> (r: Option<u64>)
        ensures
            final(self).flags_are(old(self).log_inputs, old(self).log_outputs, old(self).log_errors),
            final(self).starts() == old(self).starts().remove(timing_text(module_id@, trace_id@)),
            r is Some <==> old(self).log_outputs,
            r matches Some(d) ==> d == (if old(self).starts().contains_key(timing_text(module_id@, trace_id@)) {
                duration_since(old(self).starts()[timing_text(module_id@, trace_id@)] as int, now as int)
            } else {
                0
            }),
    {
        let key = LoggingMiddleware::timing_key(module_id, trace_id);
        let duration: u64 = match self.start_times.remove(key.as_str()) {
            Some(start) => if now >= start {
                now - start
            } else {
                0
            },
            None => 0,
        };
        if self.log_outputs {
            Some(duration)
        } else {
            None
        }
    }

    /// What the record of a completed call says, for a duration in nanoseconds.
    pub fn end_message(module_id: &str, nanos: u64) -> (r: String)
        ensures
            r@ == end_text(module_id@, nanos as nat),
    {
        let millis = write_rounded(nanos);
        cat5("END ", module_id, " (", millis.as_str(), "ms)")
    }

    /// After a failure: forget the start of the call, and give the record of the
    /// failure. Inputs are shown only where they are redacted.
    pub fn on_error(
        &mut self,
        module_id: &str,
        trace_id: &str,
        error: &ModuleError,
        redacted_inputs: Option<&StrMap<JsonValue>>,
    ) -> (r: Option<ErrorRecord>)
        ensures
            final(self).flags_are(old(self).log_inputs, old(self).log_outputs, old(self).log_errors),
            final(self).starts() == old(self).starts().remove(timing_text(module_id@, trace_id@)),
            r is Some <==> old(self).log_errors,
            r matches Some(rec) ==> rec.message@ == "ERROR "@ + module_id@ + ": "@ + error.message@
                && rec.error_code@ == error_code::code_name(error.code) && rec.error_message@ == error.message@
                && match redacted_inputs {
                Some(m) => rec.inputs matches Some(v) && v@ == Json::Obj(json::object_view(*m)),
                None => rec.inputs is None,
            },
    {
        broadcast use crate::json::lemma_value_view;
        let key = LoggingMiddleware::timing_key(module_id, trace_id);
        let _start = self.start_times.remove(key.as_str());
        if !self.log_errors {
            return None;
        }
        let inputs = match redacted_inputs {
            Some(m) => Some(JsonValue::Object(clone_object(m))),
            None => None,
        };
        Some(
            ErrorRecord {
                message: cat4("ERROR ", module_id, ": ", error.message.as_str()),
                error_code: error.code.name(),
                error_message: error.message.clone(),
                inputs,
            },
        )
    }
}

impl Default for LoggingMiddleware {
    fn default() -> (r: Self)
        ensures
            r.flags_are(true, true, true),
            r.starts() == Map::<Seq<char>, u64>::empty(),
    {
        LoggingMiddleware::with_defaults()
    }
}

/// The duration from a start to a later end is what lies between them; an end that
/// is not later gives none.
pub proof fn a_duration_lies_between(start: int, end: int)
    ensures
        start <= end ==> start + duration_since(start, end) == end,
        start > end ==> duration_since(start, end) == 0,
{
}

/// Two calls have the same start only where they are the same call of the same
/// trace, as long as neither trace has a colon in its identifier.
pub proof fn calls_are_timed_apart(a: Seq<char>, x: Seq<char>, b: Seq<char>, y: Seq<char>)
    requires
        !x.contains(':'),
        !y.contains(':'),
        timing_text(a, x) == timing_text(b, y),
    ensures
        a == b,
        x == y,
{
    reveal_strlit(":");
    let s = timing_text(a, x);
    let t = timing_text(b, y);
    assert(s[x.len() as int] == ':');
    assert(t[y.len() as int] == ':');
    if x.len() < y.len() {
        assert(t[x.len() as int] == y[x.len() as int]);
        assert(y.contains(':'));
    }
    if y.len() < x.len() {
        assert(s[y.len() as int] == x[y.len() as int]);
        assert(x.contains(':'));
    }
    assert(x =~= s.subrange(0, x.len() as int));
    assert(y =~= t.subrange(0, y.len() as int));
    assert(a =~= s.skip(x.len() as int + 1));
    assert(b =~= t.skip(y.len() as int + 1));
}

} // verus!
