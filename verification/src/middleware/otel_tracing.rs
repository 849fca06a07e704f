//! Span markers in the context of a call.
use vstd::prelude::*;
use vstd::string::*;
use crate::ids::random_simple_id;
use crate::json::{empty_object, Json, JsonValue, put};
use crate::middleware::context_namespace::TRACING_SPAN_ID;
use crate::ids;
use crate::json;
use crate::middleware::circuit_breaker;

verus! {

/// Key under which the attributes of the span are kept.
pub const TRACING_ATTRIBUTES_KEY: &'static str = "_apcore.mw.tracing.attributes";

/// Key under which the name of the span is kept.
pub const TRACING_SPAN_NAME_KEY: &'static str = "_apcore.mw.tracing.span_name";

/// Key under which the outcome of the span is kept.
pub const TRACING_SPAN_STATUS_KEY: &'static str = "_apcore.mw.tracing.span_status";

/// Configuration of the tracing middleware.
#[derive(Debug)]
pub struct TracingConfig {
    pub service_name: String,
    pub propagate_traceparent: bool,
    pub priority: u16,
    /// Overrides whether tracing was built in.
    pub enabled: Option<bool>,
}

/// The mathematical contents of a configuration.
#[verifier::ext_equal]
pub struct TracingConfigView {
    pub service_name: Seq<char>,
    pub propagate_traceparent: bool,
    pub priority: u16,
    pub enabled: Option<bool>,
}

impl View for TracingConfig {
    type V = TracingConfigView;

    open spec fn view(&self) -> TracingConfigView {
        TracingConfigView {
            service_name: self.service_name@,
            propagate_traceparent: self.propagate_traceparent,
            priority: self.priority,
            enabled: self.enabled,
        }
    }
}

/// The default configuration.
pub open spec fn default_tracing_config() -> TracingConfigView {
    TracingConfigView { service_name: "apcore"@, propagate_traceparent: true, priority: 800, enabled: None }
}

fn default_service_name() -> (r: String)
    ensures
        r@ == "apcore"@,
{
    "apcore".to_owned()
}

fn default_propagate() -> (r: bool)
    ensures
        r,
{
    true
}

fn default_priority() -> (r: u16)
    ensures
        r == 800,
{
    800
}

impl Default for TracingConfig {
    fn default() -> (r: Self)
        ensures
            r@ == default_tracing_config(),
    {
        TracingConfig {
            service_name: default_service_name(),
            propagate_traceparent: default_propagate(),
            priority: default_priority(),
            enabled: None,
        }
    }
}

/// Builder for the tracing middleware.
#[derive(Debug)]
pub struct TracingBuilder {
    pub config: TracingConfig,
}

impl Default for TracingBuilder {
    fn default() -> (r: Self)
        ensures
            r.config@ == default_tracing_config(),
    {
        TracingBuilder { config: TracingConfig::default() }
    }
}

impl TracingBuilder {
    /// Set the name of the service.
    pub fn service_name(self, name: &str) -> (r: Self)
        ensures
            r.config@ == (TracingConfigView { service_name: name@, ..self.config@ }),
    {
        TracingBuilder { config: TracingConfig { service_name: name.to_owned(), ..self.config } }
    }

    /// Set whether outbound calls carry the trace.
    pub fn propagate_traceparent(self, value: bool) -> (r: Self)
        ensures
            r.config@ == (TracingConfigView { propagate_traceparent: value, ..self.config@ }),
    {
        TracingBuilder { config: TracingConfig { propagate_traceparent: value, ..self.config } }
    }

    /// Set the priority.
    pub fn priority(self, value: u16) -> (r: Self)
        ensures
            r.config@ == (TracingConfigView { priority: value, ..self.config@ }),
    {
        TracingBuilder { config: TracingConfig { priority: value, ..self.config } }
    }

    /// Force the middleware on or off.
    pub fn enabled(self, value: bool) -> (r: Self)
        ensures
            r.config@ == (TracingConfigView { enabled: Some(value), ..self.config@ }),
    {
        TracingBuilder { config: TracingConfig { enabled: Some(value), ..self.config } }
    }

    /// The middleware with this configuration.
    pub fn build(self) -> (r: TracingMiddleware)
        ensures
            r.config == self.config,
    {
        TracingMiddleware::with_config(self.config)
    }
}

/// The tracing middleware.
#[derive(Debug)]
pub struct TracingMiddleware {
    pub config: TracingConfig,
}

/// Entries to be written to the data of a call's context.
pub type ContextWrites = Vec<(&'static str, JsonValue)>;

/// The mathematical contents of the entries.
pub open spec fn writes_view(s: Seq<(&'static str, JsonValue)>) -> Seq<(Seq<char>, Json)> {
    Seq::new(s.len(), |i: int| (s[i].0@, s[i].1@))
}

/// The attributes of a span.
pub open spec fn span_attributes(module_id: Seq<char>, trace_id: Seq<char>, caller_id: Seq<char>) -> Json {
    Json::Obj(
        map![
            "apcore.trace_id"@ => Json::Str(trace_id),
            "apcore.caller_id"@ => Json::Str(caller_id),
            "apcore.module_id"@ => Json::Str(module_id)
        ],
    )
}

/// What the start of a span writes.
pub open spec fn start_writes(
    span_id: Seq<char>,
    module_id: Seq<char>,
    trace_id: Seq<char>,
    caller_id: Seq<char>,
) -> Seq<(Seq<char>, Json)> {
    seq![
        (TRACING_SPAN_ID@, Json::Str(span_id)),
        (TRACING_SPAN_NAME_KEY@, Json::Str(module_id)),
        (TRACING_ATTRIBUTES_KEY@, span_attributes(module_id, trace_id, caller_id)),
    ]
}

impl TracingMiddleware {
    /// A builder with the default configuration.
    pub fn builder() -> (r: TracingBuilder)
        ensures
            r.config@ == default_tracing_config(),
    {
        TracingBuilder::default()
    }

    /// A middleware with a configuration.
    pub fn with_config(config: TracingConfig) -> (r: Self)
        ensures
            r.config == config,
    {
        TracingMiddleware { config }
    }

    /// Whether the middleware is active: as the configuration says, or else
    /// whether tracing was built in.
    pub fn is_enabled(&self, built_in: bool) -> (r: bool)
        ensures
            r == (match self.config.enabled {
                Some(v) => v,
                None => built_in,
            }),
    {
        match self.config.enabled {
            Some(v) => v,
            None => built_in,
        }
    }

    /// The name of the middleware.
    pub fn name(&self) -> (r: &'static str)
        ensures
            r@ == "tracing"@,
    {
        "tracing"
    }

    /// The priority of the middleware.
    pub fn priority(&self) -> (r: u16)
        ensures
            r == self.config.priority,
    {
        self.config.priority
    }

    fn build_attributes(module_id: &str, trace_id: &str, caller_id: Option<&str>) -> (r: JsonValue)
        ensures
            r@ == span_attributes(module_id@, trace_id@, circuit_breaker::caller_key(caller_id)),
    {
        broadcast use crate::json::lemma_value_view;
        let mut m = empty_object();
        put(&mut m, "apcore.trace_id", JsonValue::str(trace_id));
        let caller = match caller_id {
            Some(c) => c.to_owned(),
            None => String::new(),
        };
        put(&mut m, "apcore.caller_id", JsonValue::String(caller));
        put(&mut m, "apcore.module_id", JsonValue::str(module_id));
        JsonValue::Object(m)
    }

    /// What the start of a span with this identifier writes.
    pub fn writes_for_span(span_id: String, module_id: &str, trace_id: &str, caller_id: Option<&str>) -> (r: ContextWrites)
        ensures
            writes_view(r@) == start_writes(span_id@, module_id@, trace_id@, circuit_breaker::caller_key(caller_id)),
    {
        broadcast use crate::json::lemma_value_view;
        let attributes = TracingMiddleware::build_attributes(module_id, trace_id, caller_id);
        let mut out: ContextWrites = Vec::new();
        out.push((TRACING_SPAN_ID, JsonValue::String(span_id)));
        out.push((TRACING_SPAN_NAME_KEY, JsonValue::str(module_id)));
        out.push((TRACING_ATTRIBUTES_KEY, attributes));
        assert(writes_view(out@) =~= start_writes(span_id@, module_id@, trace_id@, circuit_breaker::caller_key(caller_id)));
        out
    }

    /// Before a call: a fresh span, where the middleware is active.
    pub fn before(&self, built_in: bool, module_id: &str, trace_id: &str, caller_id: Option<&str>) -> (r: Option<ContextWrites>)
        ensures
            r is Some <==> (match self.config.enabled {
                Some(v) => v,
                None => built_in,
            }),
            r matches Some(w) ==> exists|span_id: Seq<char>|
                ids::is_hex(span_id, 32) && writes_view(w@) == #[trigger] start_writes(span_id, module_id@, trace_id@, circuit_breaker::caller_key(caller_id)),
    {
        if !self.is_enabled(built_in) {
            return None;
        }
        let span_id = random_simple_id();
        Some(TracingMiddleware::writes_for_span(span_id, module_id, trace_id, caller_id))
    }

    /// After a call: the span is marked as ended well or badly, where the
    /// middleware is active.
    pub fn finish(&self, built_in: bool, failed: bool) -> (r: Option<ContextWrites>)
        ensures
            r is Some <==> (match self.config.enabled {
                Some(v) => v,
                None => built_in,
            }),
            r matches Some(w) ==> writes_view(w@) == seq![
                (TRACING_SPAN_STATUS_KEY@, Json::Str(if failed { "error"@ } else { "ok"@ })),
            ],
    {
        if !self.is_enabled(built_in) {
            return None;
        }
        let mut out: ContextWrites = Vec::new();
        let status = if failed {
            "error"
        } else {
            "ok"
        };
        out.push((TRACING_SPAN_STATUS_KEY, JsonValue::str(status)));
        assert(writes_view(out@) =~= seq![
            (TRACING_SPAN_STATUS_KEY@, Json::Str(if failed { "error"@ } else { "ok"@ })),
        ]);
        Some(out)
    }
}

/// The start of a span writes its identifier, the module as its name, and the
/// trace, the caller and the module as its attributes.
pub proof fn a_span_tells_of_its_call(span_id: Seq<char>, module_id: Seq<char>, trace_id: Seq<char>, caller_id: Seq<char>)
    ensures
        ({
            let w = start_writes(span_id, module_id, trace_id, caller_id);
            &&& w.len() == 3
            &&& w[0] == (TRACING_SPAN_ID@, Json::Str(span_id))
            &&& w[1] == (TRACING_SPAN_NAME_KEY@, Json::Str(module_id))
            &&& w[2].0 == TRACING_ATTRIBUTES_KEY@
            &&& json::json_get(w[2].1, "apcore.trace_id"@) == Some(Json::Str(trace_id))
            &&& json::json_get(w[2].1, "apcore.caller_id"@) == Some(Json::Str(caller_id))
            &&& json::json_get(w[2].1, "apcore.module_id"@) == Some(Json::Str(module_id))
        }),
{
    reveal_strlit("apcore.trace_id");
    reveal_strlit("apcore.caller_id");
    reveal_strlit("apcore.module_id");
    assert("apcore.trace_id"@.len() == 15 && "apcore.caller_id"@.len() == 16 && "apcore.module_id"@.len() == 16);
    assert("apcore.caller_id"@[7] != "apcore.module_id"@[7]);
}

} // verus!
