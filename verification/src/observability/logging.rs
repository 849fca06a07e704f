//! Log records that tell of the call they belong to.
use vstd::prelude::*;
use vstd::string::*;
use crate::clock::Timestamp;
use crate::clock;
use crate::decimals::fraction;
use crate::decimals;
use crate::error_code;
use crate::errors::ModuleError;
use crate::executor::redact::REDACTED_VALUE;
use crate::json::{empty_object, Json, JsonValue, Number, put, to_text};
use crate::json;
use crate::observability::redaction::RedactionConfig;
use crate::observability::redaction;
use crate::observability::usage;
use crate::strmap::StrMap;
use crate::strmap;
use crate::text::{cat2, cat3, cat4, cat5, decimal, starts_with, str_eq, to_lower, to_upper};
use crate::text;

verus! {

/// How log records are written.
#[derive(Debug, Clone, Copy, PartialEq, Eq, Structural)]
pub enum LogFormat {
    Json,
    Text,
}

/// The rank of a level by its name in lower case; an unknown level ranks as
/// `info`.
pub open spec fn level_rank(name: Seq<char>) -> u32 {
    if name == "trace"@ {
        0
    } else if name == "debug"@ {
        10
    } else if name == "warn"@ || name == "warning"@ {
        30
    } else if name == "error"@ {
        40
    } else if name == "fatal"@ {
        50
    } else {
        20
    }
}

/// The rank of a level, whatever the case of its name.
pub fn level_value(level: &str) -> (r: u32)
    ensures
        r == level_rank(text::lowercase(level@)),
{
    let lower = to_lower(level);
    rank_of_level(lower.as_str())
}

/// The rank of a level by its name in lower case.
pub fn rank_of_level(name: &str) -> (r: u32)
    ensures
        r == level_rank(name@),
{
    if str_eq(name, "trace") {
        0
    } else if str_eq(name, "debug") {
        10
    } else if str_eq(name, "warn") || str_eq(name, "warning") {
        30
    } else if str_eq(name, "error") {
        40
    } else if str_eq(name, "fatal") {
        50
    } else {
        20
    }
}

/// Writes log records that tell of a call.
#[derive(Debug)]
pub struct ContextLogger {
    pub name: String,
    pub level: String,
    pub format: LogFormat,
    pub trace_id: Option<String>,
    pub module_id: Option<String>,
    pub caller_id: Option<String>,
}

/// Which names of extra values keep them secret.
pub const SECRET_PREFIX: &'static str = "_secret_";

/// Extra values, those with secret names replaced.
pub open spec fn shown_extras(m: Map<Seq<char>, Json>) -> Map<Seq<char>, Json> {
    Map::new(
        |k: Seq<char>| m.contains_key(k),
        |k: Seq<char>|
            if text::has_prefix(k, SECRET_PREFIX@) {
                Json::Str(REDACTED_VALUE@)
            } else {
                m[k]
            },
    )
}

/// An object with one more string, where there is one.
pub open spec fn with_text(m: Map<Seq<char>, Json>, k: Seq<char>, v: Option<String>) -> Map<Seq<char>, Json> {
    match v {
        Some(t) => m.insert(k, Json::Str(t@)),
        None => m,
    }
}

/// A log record.
pub open spec fn log_record(
    l: ContextLogger,
    level: Seq<char>,
    message: Seq<char>,
    extra: Option<Map<Seq<char>, Json>>,
    at: Timestamp,
) -> Json {
    let base = Map::<Seq<char>, Json>::empty().insert("timestamp"@, Json::Str(clock::offset_time_text(at))).insert(
        "level"@,
        Json::Str(text::lowercase(level)),
    ).insert("logger"@, Json::Str(l.name@)).insert("message"@, Json::Str(message));
    let told = with_text(
        with_text(with_text(base, "trace_id"@, l.trace_id), "module_id"@, l.module_id),
        "caller_id"@,
        l.caller_id,
    );
    Json::Obj(
        match extra {
            Some(m) => told.insert("extra"@, Json::Obj(shown_extras(m))),
            None => told,
        },
    )
}

/// What a line tells of a call.
pub open spec fn call_text(trace_id: Option<String>, module_id: Option<String>) -> Seq<char> {
    match (trace_id, module_id) {
        (Some(t), Some(m)) => " [trace="@ + t@ + " module="@ + m@ + "]"@,
        (Some(t), None) => " [trace="@ + t@ + "]"@,
        (None, Some(m)) => " [module="@ + m@ + "]"@,
        (None, None) => Seq::empty(),
    }
}

/// The line of a log record; none where its level is below that of the logger.
pub open spec fn log_line(
    l: ContextLogger,
    level: Seq<char>,
    message: Seq<char>,
    extra: Option<Map<Seq<char>, Json>>,
    at: Timestamp,
) -> Option<Seq<char>> {
    if level_rank(text::lowercase(level)) < level_rank(text::lowercase(l.level@)) {
        None
    } else {
        match l.format {
            LogFormat::Json => Some(json::json_text(json::held(log_record(l, level, message, extra, at)))),
            LogFormat::Text => Some(
                clock::offset_time_text(at) + " "@ + text::uppercase(level) + " "@ + l.name@ + call_text(l.trace_id, l.module_id) + " "@
                    + message,
            ),
        }
    }
}

/// The values of an optional object.
pub open spec fn extras_of(extra: Option<&StrMap<JsonValue>>) -> Option<Map<Seq<char>, Json>> {
    match extra {
        Some(m) => Some(json::object_view(*m)),
        None => None,
    }
}

fn show_extras(m: &StrMap<JsonValue>) -> (r: StrMap<JsonValue>)
    ensures
        json::object_view(r) == shown_extras(json::object_view(*m)),
{
    let n: usize = m.len();
    let ghost p = m.pairs();
    let ghost all = json::object_view(*m);
    proof {
        json::lemma_object_view(*m);
    }
    let mut out = empty_object();
    let mut i: usize = 0;
    while i < n
        invariant
            i <= n,
            n == p.len(),
            p == m.pairs(),
            all == json::object_view(*m),
            forall|j: int| 0 <= j < p.len() ==> all.contains_key((#[trigger] p[j]).0) && all[p[j].0] == p[j].1@,
            forall|k: Seq<char>| #[trigger]
                json::object_view(out).contains_key(k) ==> all.contains_key(k) && json::object_view(out)[k] == shown_extras(all)[k],
            forall|j: int| 0 <= j < i ==> json::object_view(out).contains_key((#[trigger] p[j]).0),
        decreases n - i,
    {
        broadcast use crate::json::lemma_value_view;

        let key = m.key_at(i);
        assert(all.contains_key(p[i as int].0));
        if starts_with(key.as_str(), SECRET_PREFIX) {
            put(&mut out, key.as_str(), JsonValue::str(REDACTED_VALUE));
        } else {
            put(&mut out, key.as_str(), m.value_at(i).clone());
        }
        i = i + 1;
    }
    proof {
        assert forall|k: Seq<char>| #[trigger] all.contains_key(k) implies json::object_view(out).contains_key(k) by {
            assert(m@.contains_key(k));
            assert(strmap::has_key(p, k));
            assert(p[strmap::key_index(p, k)].0 == k);
        }
        assert(json::object_view(out) =~= shown_extras(all));
    }
    out
}

fn put_text(m: &mut StrMap<JsonValue>, k: &str, v: &Option<String>)
    ensures
        json::object_view(*final(m)) == with_text(json::object_view(*old(m)), k@, *v),
{
    broadcast use crate::json::lemma_value_view;

    match v {
        Some(t) => put(m, k, JsonValue::str(t.as_str())),
        None => {},
    }
}

fn call_prefix(trace_id: &Option<String>, module_id: &Option<String>) -> (r: String)
    ensures
        r@ == call_text(*trace_id, *module_id),
{
    match trace_id {
        Some(t) => match module_id {
            Some(m) => cat5(" [trace=", t.as_str(), " module=", m.as_str(), "]"),
            None => cat3(" [trace=", t.as_str(), "]"),
        },
        None => match module_id {
            Some(m) => cat3(" [module=", m.as_str(), "]"),
            None => String::new(),
        },
    }
}

impl ContextLogger {
    /// A logger with a name, for JSON records from `info` on.
    pub fn new(name: &str) -> (r: Self)
        ensures
            r.name@ == name@,
            r.level@ == "info"@,
            r.format is Json,
            r.trace_id is None,
            r.module_id is None,
            r.caller_id is None,
    {
        ContextLogger {
            name: name.to_owned(),
            level: "info".to_owned(),
            format: LogFormat::Json,
            trace_id: None,
            module_id: None,
            caller_id: None,
        }
    }

    /// A logger that tells of a call: its trace, the module that is called last
    /// in the chain, and who calls.
    pub fn from_context(trace_id: &str, call_chain: &Vec<String>, caller_id: Option<&str>, name: &str) -> (r: Self)
        ensures
            r.name@ == name@,
            r.level@ == "info"@,
            r.format is Json,
            text::opt_text(r.trace_id) == Some(trace_id@),
            text::opt_text(r.module_id) == (if call_chain@.len() == 0 {
                None
            } else {
                Some(call_chain@.last()@)
            }),
            text::opt_text(r.caller_id) == text::opt_str(caller_id),
    {
        let module_id = if call_chain.len() == 0 {
            None
        } else {
            Some(call_chain[call_chain.len() - 1].clone())
        };
        let caller_id = match caller_id {
            Some(c) => Some(c.to_owned()),
            None => None,
        };
        ContextLogger {
            name: name.to_owned(),
            level: "info".to_owned(),
            format: LogFormat::Json,
            trace_id: Some(trace_id.to_owned()),
            module_id,
            caller_id,
        }
    }

    /// Set the level from which on records are written.
    pub fn set_level(&mut self, level: &str)
        ensures
            final(self).level@ == level@,
            *final(self) == (ContextLogger { level: final(self).level, ..*old(self) }),
    {
        self.level = level.to_owned();
    }

    /// Set how records are written.
    pub fn set_format(&mut self, format: LogFormat)
        ensures
            *final(self) == (ContextLogger { format, ..*old(self) }),
    {
        self.format = format;
    }

    /// The line of a record at the current time; none where its level is below
    /// that of the logger. Extra values are kept apart from the fields of the
    /// record, and secret ones are replaced.
    pub fn emit(&self, level_name: &str, message: &str, extra: Option<&StrMap<JsonValue>>) -> (r: Option<String>)
        ensures
            exists|at: Timestamp| text::opt_text(r) == #[trigger] log_line(*self, level_name@, message@, extras_of(extra), at),
    {
        let now = Timestamp::now();
        let r = self.line(level_name, message, extra, &now);
        assert(text::opt_text(r) == log_line(*self, level_name@, message@, extras_of(extra), now));
        r
    }

    /// The line of a record at a point in time.
    pub fn line(&self, level_name: &str, message: &str, extra: Option<&StrMap<JsonValue>>, at: &Timestamp) -> (r: Option<
        String,
    >)
        ensures
            text::opt_text(r) == log_line(*self, level_name@, message@, extras_of(extra), *at),
    {
        broadcast use crate::json::lemma_value_view;

        if level_value(level_name) < level_value(self.level.as_str()) {
            return None;
        }
        match self.format {
            LogFormat::Json => {
                let mut m = empty_object();
                put(&mut m, "timestamp", JsonValue::String(at.to_offset_text()));
                put(&mut m, "level", JsonValue::String(to_lower(level_name)));
                put(&mut m, "logger", JsonValue::str(self.name.as_str()));
                put(&mut m, "message", JsonValue::str(message));
                put_text(&mut m, "trace_id", &self.trace_id);
                put_text(&mut m, "module_id", &self.module_id);
                put_text(&mut m, "caller_id", &self.caller_id);
                match extra {
                    Some(e) => put(&mut m, "extra", JsonValue::Object(show_extras(e))),
                    None => {},
                }
                Some(to_text(&JsonValue::Object(m)))
            },
            LogFormat::Text => {
                let head = cat5(at.to_offset_text().as_str(), " ", to_upper(level_name).as_str(), " ", self.name.as_str());
                let call = call_prefix(&self.trace_id, &self.module_id);
                Some(cat4(head.as_str(), call.as_str(), " ", message))
            },
        }
    }

    /// The line of a message at the level `trace`.
    pub fn trace(&self, message: &str) -> (r: Option<String>)
        ensures
            exists|at: Timestamp| text::opt_text(r) == #[trigger] log_line(*self, "trace"@, message@, None, at),
    {
        self.emit("trace", message, None)
    }

    /// The line of a message at the level `debug`.
    pub fn debug(&self, message: &str) -> (r: Option<String>)
        ensures
            exists|at: Timestamp| text::opt_text(r) == #[trigger] log_line(*self, "debug"@, message@, None, at),
    {
        self.emit("debug", message, None)
    }

    /// The line of a message at the level `info`.
    pub fn info(&self, message: &str) -> (r: Option<String>)
        ensures
            exists|at: Timestamp| text::opt_text(r) == #[trigger] log_line(*self, "info"@, message@, None, at),
    {
        self.emit("info", message, None)
    }

    /// The line of a message at the level `warn`.
    pub fn warn(&self, message: &str) -> (r: Option<String>)
        ensures
            exists|at: Timestamp| text::opt_text(r) == #[trigger] log_line(*self, "warn"@, message@, None, at),
    {
        self.emit("warn", message, None)
    }

    /// The line of a message at the level `warn`.
    pub fn warning(&self, message: &str) -> (r: Option<String>)
        ensures
            exists|at: Timestamp| text::opt_text(r) == #[trigger] log_line(*self, "warn"@, message@, None, at),
    {
        self.emit("warn", message, None)
    }

    /// The line of a message at the level `error`.
    pub fn error(&self, message: &str) -> (r: Option<String>)
        ensures
            exists|at: Timestamp| text::opt_text(r) == #[trigger] log_line(*self, "error"@, message@, None, at),
    {
        self.emit("error", message, None)
    }

    /// The line of a message at the level `fatal`.
    pub fn fatal(&self, message: &str) -> (r: Option<String>)
        ensures
            exists|at: Timestamp| text::opt_text(r) == #[trigger] log_line(*self, "fatal"@, message@, None, at),
    {
        self.emit("fatal", message, None)
    }
}

// ---------------------------------------------------------------------------
// Middleware
// ---------------------------------------------------------------------------

/// Logs the start and the end of every call.
#[derive(Debug)]
pub struct ObsLoggingMiddleware {
    pub logger: ContextLogger,
    pub log_inputs: bool,
    pub log_outputs: bool,
    pub redaction: Option<RedactionConfig>,
    pub starts: StrMap<u64>,
}

/// A payload without what is to be hidden.
pub open spec fn hidden(redaction: Option<RedactionConfig>, v: Json) -> Json {
    match redaction {
        Some(c) => redaction::cleaned(c@, v, None),
        None => v,
    }
}

/// What every record of a call tells.
pub open spec fn call_extras(module_id: Seq<char>, trace_id: Seq<char>) -> Map<Seq<char>, Json> {
    Map::<Seq<char>, Json>::empty().insert("module_id"@, Json::Str(module_id)).insert("trace_id"@, Json::Str(trace_id))
}

/// A duration in milliseconds as a JSON number.
pub open spec fn millis_number(nanos: nat) -> Json {
    Json::Float(
        if nanos % 1_000_000 == 0 {
            decimals::fraction_text(nanos / 1_000_000, nanos % 1_000_000, 6) + ".0"@
        } else {
            decimals::fraction_text(nanos / 1_000_000, nanos % 1_000_000, 6)
        },
    )
}

/// A duration in milliseconds with two digits after the point, rounded.
pub open spec fn rounded_millis(nanos: nat) -> Seq<char> {
    let n = (nanos + 5_000) / 10_000;
    text::decimal_text(n / 100) + "."@ + text::decimal_text((n % 100) / 10) + text::decimal_text(n % 10)
}

fn write_millis(nanos: u64) -> (r: JsonValue)
    ensures
        r@ == millis_number(nanos as nat),
{
    broadcast use crate::json::lemma_value_view;

    let text = fraction(nanos / 1_000_000, nanos % 1_000_000, 6);
    if nanos % 1_000_000 == 0 {
        JsonValue::Number(Number::Float(cat2(text.as_str(), ".0")))
    } else {
        JsonValue::Number(Number::Float(text))
    }
}

/// A duration in milliseconds with two digits after the point, rounded.
pub fn write_rounded(nanos: u64) -> (r: String)
    ensures
        r@ == rounded_millis(nanos as nat),
{
    let n: u64 = ((nanos as u128 + 5_000) / 10_000) as u64;
    cat4(decimal(n / 100).as_str(), ".", decimal((n % 100) / 10).as_str(), decimal(n % 10).as_str())
}

impl ObsLoggingMiddleware {
    /// Whether everything but the starts is the same.
    pub open spec fn same_settings(self, other: Self) -> bool {
        self.logger == other.logger && self.log_inputs == other.log_inputs && self.log_outputs == other.log_outputs
            && self.redaction == other.redaction
    }

    /// A middleware that logs inputs and outputs.
    pub fn new(logger: ContextLogger) -> (r: Self)
        ensures
            r.logger == logger,
            r.log_inputs,
            r.log_outputs,
            r.redaction is None,
            r.starts@ == Map::<Seq<char>, u64>::empty(),
    {
        ObsLoggingMiddleware::with_options(logger, true, true)
    }

    /// A middleware that logs inputs and outputs as told.
    pub fn with_options(logger: ContextLogger, log_inputs: bool, log_outputs: bool) -> (r: Self)
        ensures
            r.logger == logger,
            r.log_inputs == log_inputs,
            r.log_outputs == log_outputs,
            r.redaction is None,
            r.starts@ == Map::<Seq<char>, u64>::empty(),
    {
        ObsLoggingMiddleware { logger, log_inputs, log_outputs, redaction: None, starts: StrMap::new() }
    }

    /// The middleware with rules on what is to be hidden.
    pub fn with_redaction_config(self, config: RedactionConfig) -> (r: Self)
        ensures
            r == (ObsLoggingMiddleware { redaction: Some(config), ..self }),
    {
        ObsLoggingMiddleware {
            logger: self.logger,
            log_inputs: self.log_inputs,
            log_outputs: self.log_outputs,
            redaction: Some(config),
            starts: self.starts,
        }
    }

    fn apply_redaction(&self, value: &JsonValue) -> (r: JsonValue)
        ensures
            r@ == hidden(self.redaction, value@),
    {
        let mut copy = value.clone();
        match &self.redaction {
            Some(c) => c.redact(&mut copy),
            None => {},
        }
        copy
    }

    /// The name of the middleware.
    pub fn name(&self) -> (r: &'static str)
        ensures
            r@ == "logging"@,
    {
        "logging"
    }

    /// A call starts: its start is kept, and the line that tells of it is given.
    pub fn before(
        &mut self,
        module_id: &str,
        inputs: &JsonValue,
        trace_id: &str,
        caller_id: Option<&str>,
        now: u64,
        at: &Timestamp,
    ) -> (r: Option<String>)
        ensures
            final(self).same_settings(*old(self)),
            final(self).starts@ == old(self).starts@.insert(trace_id@, now),
            ({
                let base = call_extras(module_id@, trace_id@);
                let named = match caller_id {
                    Some(c) => base.insert("caller_id"@, Json::Str(c@)),
                    None => base,
                };
                let extra = if old(self).log_inputs {
                    named.insert("inputs"@, hidden(old(self).redaction, inputs@))
                } else {
                    named
                };
                text::opt_text(r) == log_line(old(self).logger, "info"@, "Starting "@ + module_id@, Some(extra), *at)
            }),
    {
        broadcast use crate::json::lemma_value_view;

        self.starts.insert(trace_id.to_owned(), now);
        let mut extra = start_extras(module_id, trace_id);
        match caller_id {
            Some(c) => put(&mut extra, "caller_id", JsonValue::str(c)),
            None => {},
        }
        if self.log_inputs {
            put(&mut extra, "inputs", self.apply_redaction(inputs));
        }
        self.logger.line("info", cat2("Starting ", module_id).as_str(), Some(&extra), at)
    }

    fn elapsed(&mut self, trace_id: &str, now: u64) -> (r: u64)
        ensures
            final(self).same_settings(*old(self)),
            final(self).starts@ == old(self).starts@.remove(trace_id@),
            r == usage::call_latency(old(self).starts@, trace_id@, now as int),
    {
        match self.starts.remove(trace_id) {
            Some(start) => if now >= start {
                now - start
            } else {
                0
            },
            None => 0,
        }
    }

    /// A call succeeded: its start is forgotten, and the line that tells of it
    /// is given.
    pub fn after(&mut self, module_id: &str, output: &JsonValue, trace_id: &str, now: u64, at: &Timestamp) -> (r: Option<
        String,
    >)
        ensures
            final(self).same_settings(*old(self)),
            final(self).starts@ == old(self).starts@.remove(trace_id@),
            ({
                let nanos = usage::call_latency(old(self).starts@, trace_id@, now as int) as nat;
                let base = call_extras(module_id@, trace_id@).insert("duration_ms"@, millis_number(nanos));
                let extra = if old(self).log_outputs {
                    base.insert("output"@, hidden(old(self).redaction, output@))
                } else {
                    base
                };
                text::opt_text(r) == log_line(
                    old(self).logger,
                    "info"@,
                    "Completed "@ + module_id@ + " in "@ + rounded_millis(nanos) + "ms"@,
                    Some(extra),
                    *at,
                )
            }),
    {
        let nanos: u64 = self.elapsed(trace_id, now);
        let mut extra = start_extras(module_id, trace_id);
        put(&mut extra, "duration_ms", write_millis(nanos));
        if self.log_outputs {
            put(&mut extra, "output", self.apply_redaction(output));
        }
        let message = cat5("Completed ", module_id, " in ", write_rounded(nanos).as_str(), "ms");
        self.logger.line("info", message.as_str(), Some(&extra), at)
    }

    /// A call failed: its start is forgotten, and the line that tells of it is
    /// given.
    pub fn on_error(&mut self, module_id: &str, error: &ModuleError, trace_id: &str, now: u64, at: &Timestamp) -> (r: Option<
        String,
    >)
        ensures
            final(self).same_settings(*old(self)),
            final(self).starts@ == old(self).starts@.remove(trace_id@),
            ({
                let nanos = usage::call_latency(old(self).starts@, trace_id@, now as int) as nat;
                let extra = call_extras(module_id@, trace_id@).insert("duration_ms"@, millis_number(nanos)).insert(
                    "error"@,
                    Json::Str(error.message@),
                ).insert("error_code"@, Json::Str(error_code::code_name(error.code)));
                text::opt_text(r) == log_line(
                    old(self).logger,
                    "error"@,
                    "Error in "@ + module_id@ + " after "@ + rounded_millis(nanos) + "ms: "@ + error.message@,
                    Some(extra),
                    *at,
                )
            }),
    {
        broadcast use crate::json::lemma_value_view;

        let nanos: u64 = self.elapsed(trace_id, now);
        let mut extra = start_extras(module_id, trace_id);
        put(&mut extra, "duration_ms", write_millis(nanos));
        put(&mut extra, "error", JsonValue::str(error.message.as_str()));
        put(&mut extra, "error_code", JsonValue::str(error.code.name()));
        let head = cat5("Error in ", module_id, " after ", write_rounded(nanos).as_str(), "ms: ");
        self.logger.line("error", cat2(head.as_str(), error.message.as_str()).as_str(), Some(&extra), at)
    }
}

fn start_extras(module_id: &str, trace_id: &str) -> (r: StrMap<JsonValue>)
    ensures
        json::object_view(r) == call_extras(module_id@, trace_id@),
{
    broadcast use crate::json::lemma_value_view;

    let mut m = empty_object();
    put(&mut m, "module_id", JsonValue::str(module_id));
    put(&mut m, "trace_id", JsonValue::str(trace_id));
    m
}

/// Extra values never stand in for the fields of a record: whatever their
/// names, all but the field `extra` is the same without them.
pub proof fn extras_leave_the_fields(
    l: ContextLogger,
    level: Seq<char>,
    message: Seq<char>,
    extra: Map<Seq<char>, Json>,
    at: Timestamp,
    k: Seq<char>,
)
    requires
        k != "extra"@,
    ensures
        ({
            let with = log_record(l, level, message, Some(extra), at)->Obj_0;
            let without = log_record(l, level, message, None, at)->Obj_0;
            with.contains_key(k) == without.contains_key(k) && (with.contains_key(k) ==> with[k] == without[k])
        }),
{
}

/// A secret value does not reach a record.
pub proof fn secret_extras_are_not_shown(m: Map<Seq<char>, Json>, k: Seq<char>)
    requires
        m.contains_key(k),
        text::has_prefix(k, SECRET_PREFIX@),
    ensures
        shown_extras(m).contains_key(k),
        shown_extras(m)[k] == Json::Str(REDACTED_VALUE@),
{
}

/// A logger of a higher level writes no more than one of a lower level.
pub proof fn higher_levels_write_less(
    low: ContextLogger,
    high: ContextLogger,
    level: Seq<char>,
    message: Seq<char>,
    extra: Option<Map<Seq<char>, Json>>,
    at: Timestamp,
)
    requires
        level_rank(text::lowercase(low.level@)) <= level_rank(text::lowercase(high.level@)),
    ensures
        log_line(high, level, message, extra, at) is Some ==> log_line(low, level, message, extra, at) is Some,
{
}

proof fn lemma_level_names()
    ensures
        "trace"@ != "debug"@,
        "trace"@ != "warn"@,
        "trace"@ != "warning"@,
        "trace"@ != "error"@,
        "trace"@ != "fatal"@,
        "trace"@ != "info"@,
        "debug"@ != "warn"@,
        "debug"@ != "warning"@,
        "debug"@ != "error"@,
        "debug"@ != "fatal"@,
        "debug"@ != "info"@,
        "warn"@ != "error"@,
        "warn"@ != "fatal"@,
        "warn"@ != "info"@,
        "warning"@ != "error"@,
        "warning"@ != "fatal"@,
        "warning"@ != "info"@,
        "error"@ != "fatal"@,
        "error"@ != "info"@,
        "fatal"@ != "info"@,
{
    reveal_strlit("trace");
    reveal_strlit("debug");
    reveal_strlit("warn");
    reveal_strlit("warning");
    reveal_strlit("error");
    reveal_strlit("fatal");
    reveal_strlit("info");
    assert("trace"@[0] == 't' && "debug"@[0] == 'd' && "warn"@[0] == 'w' && "warning"@[0] == 'w' && "error"@[0] == 'e'
        && "fatal"@[0] == 'f' && "info"@[0] == 'i');
}

/// The levels rank from `trace` over `debug`, `info`, `warn` and `error` to
/// `fatal`; an unknown level ranks as `info`.
pub proof fn levels_are_ordered(name: Seq<char>)
    ensures
        level_rank("trace"@) < level_rank("debug"@),
        level_rank("debug"@) < level_rank("info"@),
        level_rank("info"@) < level_rank("warn"@),
        level_rank("warn"@) == level_rank("warning"@),
        level_rank("warn"@) < level_rank("error"@),
        level_rank("error"@) < level_rank("fatal"@),
        level_rank("trace"@) == 0,
        level_rank("debug"@) == 10,
        level_rank("info"@) == 20,
        level_rank("warn"@) == 30,
        level_rank("error"@) == 40,
        level_rank("fatal"@) == 50,
        name != "trace"@ && name != "debug"@ && name != "warn"@ && name != "warning"@ && name != "error"@ && name
            != "fatal"@ ==> level_rank(name) == level_rank("info"@),
{
    lemma_level_names();
}

/// A record is written exactly where its level ranks at least as high as that of
/// the logger.
pub proof fn a_record_is_written_at_its_level(
    l: ContextLogger,
    level: Seq<char>,
    message: Seq<char>,
    extra: Option<Map<Seq<char>, Json>>,
    at: Timestamp,
)
    ensures
        log_line(l, level, message, extra, at) is Some <==> level_rank(text::lowercase(level)) >= level_rank(
            text::lowercase(l.level@),
        ),
{
}

/// A line of text tells when, at which level and by which logger it was written,
/// of which call it tells, and the message.
pub proof fn a_line_of_text_tells_everything(
    l: ContextLogger,
    level: Seq<char>,
    message: Seq<char>,
    extra: Option<Map<Seq<char>, Json>>,
    at: Timestamp,
)
    requires
        l.format is Text,
        log_line(l, level, message, extra, at) is Some,
    ensures
        ({
            let line = log_line(l, level, message, extra, at)->0;
            &&& text::has_prefix(line, clock::offset_time_text(at) + " "@ + text::uppercase(level) + " "@ + l.name@)
            &&& text::has_infix(line, " "@ + message)
            &&& line.skip(line.len() - message.len()) == message
            &&& l.trace_id is Some && l.module_id is Some ==> text::has_infix(
                line,
                " [trace="@ + l.trace_id->0@ + " module="@ + l.module_id->0@ + "]"@,
            )
            &&& l.trace_id is Some && l.module_id is None ==> text::has_infix(
                line,
                " [trace="@ + l.trace_id->0@ + "]"@,
            )
            &&& l.trace_id is None && l.module_id is Some ==> text::has_infix(
                line,
                " [module="@ + l.module_id->0@ + "]"@,
            )
            &&& l.trace_id is None && l.module_id is None ==> line == clock::offset_time_text(at) + " "@
                + text::uppercase(level) + " "@ + l.name@ + " "@ + message
        }),
{
    let line = log_line(l, level, message, extra, at)->0;
    let head = clock::offset_time_text(at) + " "@ + text::uppercase(level) + " "@ + l.name@;
    let call = call_text(l.trace_id, l.module_id);
    let end = " "@ + message;
    assert(line =~= head + call + end);
    assert(line =~= head + (call + end));
    text::a_prefix_is_followed(line, head, call + end);
    text::a_part_stands_between(line, call, head, end);
    text::a_part_stands_between(line, end, head + call, Seq::empty());
    assert(head + call + end + Seq::<char>::empty() =~= line);
    assert(line.skip(line.len() - message.len()) =~= message);
    if l.trace_id is None && l.module_id is None {
        assert(line =~= head + " "@ + message);
    }
}

/// A record as JSON has the time, the level, the logger and the message, what is
/// known of the call, and the extra values.
pub proof fn a_record_is_written_whole(
    l: ContextLogger,
    level: Seq<char>,
    message: Seq<char>,
    extra: Option<Map<Seq<char>, Json>>,
    at: Timestamp,
)
    ensures
        ({
            let r = log_record(l, level, message, extra, at);
            &&& json::json_get(r, "timestamp"@) == Some(Json::Str(clock::offset_time_text(at)))
            &&& json::json_get(r, "level"@) == Some(Json::Str(text::lowercase(level)))
            &&& json::json_get(r, "logger"@) == Some(Json::Str(l.name@))
            &&& json::json_get(r, "message"@) == Some(Json::Str(message))
            &&& json::json_get(r, "trace_id"@) == match l.trace_id {
                Some(t) => Some(Json::Str(t@)),
                None => None,
            }
            &&& json::json_get(r, "module_id"@) == match l.module_id {
                Some(t) => Some(Json::Str(t@)),
                None => None,
            }
            &&& json::json_get(r, "caller_id"@) == match l.caller_id {
                Some(t) => Some(Json::Str(t@)),
                None => None,
            }
            &&& extra is None ==> json::json_get(r, "extra"@) is None
            &&& extra is Some ==> (json::json_get(r, "extra"@) matches Some(Json::Obj(o)) && o.dom() == extra->0.dom())
        }),
{
    reveal_strlit("timestamp");
    reveal_strlit("level");
    reveal_strlit("logger");
    reveal_strlit("message");
    reveal_strlit("trace_id");
    reveal_strlit("module_id");
    reveal_strlit("caller_id");
    reveal_strlit("extra");
    assert("timestamp"@.len() == 9 && "level"@.len() == 5 && "logger"@.len() == 6 && "message"@.len() == 7
        && "trace_id"@.len() == 8 && "module_id"@.len() == 9 && "caller_id"@.len() == 9 && "extra"@.len() == 5);
    assert("timestamp"@[0] == 't' && "module_id"@[0] == 'm' && "caller_id"@[0] == 'c' && "level"@[0] == 'l'
        && "extra"@[0] == 'e');
    if extra is Some {
        assert(shown_extras(extra->0).dom() =~= extra->0.dom());
    }
}

/// An extra value is shown as it is, unless its name starts with `_secret_`: then
/// `***REDACTED***` is shown.
pub proof fn extras_are_shown_but_for_secrets(m: Map<Seq<char>, Json>, k: Seq<char>)
    requires
        m.contains_key(k),
    ensures
        shown_extras(m).contains_key(k),
        !text::has_prefix(k, "_secret_"@) ==> shown_extras(m)[k] == m[k],
        text::has_prefix(k, "_secret_"@) ==> shown_extras(m)[k] == Json::Str("***REDACTED***"@),
{
}

/// A record as JSON is the line of a logger that writes JSON.
pub proof fn a_record_is_a_line(
    l: ContextLogger,
    level: Seq<char>,
    message: Seq<char>,
    extra: Option<Map<Seq<char>, Json>>,
    at: Timestamp,
)
    requires
        l.format is Json,
        log_line(l, level, message, extra, at) is Some,
    ensures
        log_line(l, level, message, extra, at) == Some(
            json::json_text(json::held(log_record(l, level, message, extra, at))),
        ),
{
}

/// What a call is given or gives is logged as it is without rules, and redacted by
/// the rules where there are some.
pub proof fn rules_hide_what_is_logged(c: RedactionConfig, v: Json, m: Map<Seq<char>, Json>, k: Seq<char>)
    requires
        m.contains_key(k),
        redaction::name_is_sensitive(c@, k),
        !redaction::correlates(k),
    ensures
        hidden(None, v) == v,
        hidden(Some(c), Json::Obj(m)) matches Json::Obj(o) && o.contains_key(k) && o[k] == Json::Str(c@.replacement),
{
    let all = seq!["trace_id"@, "caller_id"@, "target_id"@, "module_id"@, "span_id"@];
    assert(all[0] == "trace_id"@ && all[1] == "caller_id"@ && all[2] == "target_id"@ && all[3] == "module_id"@ && all[4]
        == "span_id"@);
    redaction::sensitive_names_hide_their_values(c@, k, m[k]);
}

/// What is logged of a call names the module and the trace.
pub proof fn a_call_is_logged_with_its_names(module_id: Seq<char>, trace_id: Seq<char>)
    ensures
        call_extras(module_id, trace_id).contains_key("module_id"@),
        call_extras(module_id, trace_id)["module_id"@] == Json::Str(module_id),
        call_extras(module_id, trace_id).contains_key("trace_id"@),
        call_extras(module_id, trace_id)["trace_id"@] == Json::Str(trace_id),
        forall|k: Seq<char>| #[trigger]
            call_extras(module_id, trace_id).contains_key(k) ==> k == "module_id"@ || k == "trace_id"@,
{
    reveal_strlit("module_id");
    reveal_strlit("trace_id");
    assert("module_id"@.len() == 9 && "trace_id"@.len() == 8);
}

/// A duration as a number of milliseconds reads back as the nanoseconds.
pub proof fn a_logged_duration_reads_back(nanos: nat)
    ensures
        nanos % 1_000_000 == 0 ==> millis_number(nanos) == Json::Float(text::decimal_text(nanos / 1_000_000) + ".0"@),
        nanos % 1_000_000 != 0 ==> exists|d: Seq<char>|
            {
                &&& millis_number(nanos) == Json::Float(#[trigger] (text::decimal_text(nanos / 1_000_000) + "."@ + d))
                &&& 0 < d.len() <= 6
                &&& text::all_digits(d)
                &&& d.last() != '0'
                &&& text::number_of(d) * decimals::power_of_ten((6 - d.len()) as nat) == nanos % 1_000_000
            },
{
    reveal_with_fuel(decimals::power_of_ten, 8);
    assert(decimals::power_of_ten(6) == 1_000_000);
    if nanos % 1_000_000 != 0 {
        decimals::a_fraction_reads_back(nanos / 1_000_000, nanos % 1_000_000, 6);
    } else {
        decimals::a_fraction_reads_back(nanos / 1_000_000, 1, 6);
    }
}

/// A duration in a message is rounded to hundredths of a millisecond: what is
/// written is no further from it than half a hundredth.
pub proof fn a_told_duration_is_rounded(nanos: nat)
    ensures
        exists|n: nat, d: Seq<char>|
            {
                &&& rounded_millis(nanos) == #[trigger] (text::decimal_text(n) + "."@ + d)
                &&& d.len() == 2
                &&& text::all_digits(d)
                &&& -5_000 <= (100 * n + text::number_of(d)) * 10_000 - nanos <= 5_000
            },
{
    let n = (nanos + 5_000) / 10_000;
    let a = (n % 100) / 10;
    let b = n % 10;
    let d = text::decimal_text(a) + text::decimal_text(b);
    text::a_number_reads_back(a);
    text::a_number_reads_back(b);
    reveal_with_fuel(text::decimal_text, 2);
    assert(text::decimal_text(a).len() == 1);
    assert(text::decimal_text(b).len() == 1);
    assert(d.drop_last() =~= text::decimal_text(a));
    assert(d.last() == text::decimal_text(b)[0]);
    assert(text::decimal_text(b).drop_last() =~= Seq::empty());
    assert(text::number_of(Seq::<char>::empty()) == 0);
    assert(text::number_of(d) == 10 * a + b);
    assert(rounded_millis(nanos) =~= text::decimal_text(n / 100) + "."@ + d);
    assert(100 * (n / 100) + 10 * a + b == n);
}

} // verus!
