//! Middleware chains that are declared rather than coded.
use vstd::prelude::*;
use vstd::string::*;
use crate::clock::Timestamp;
use crate::error_code::ErrorCode;
use crate::errors::{ErrorView, ModuleError};
use crate::json::JsonValue;
use crate::middleware::circuit_breaker::{CircuitBreakerConfig, CircuitBreakerMiddleware};
use crate::middleware::logging::LoggingMiddleware;
use crate::middleware::otel_tracing::{TracingBuilder, TracingConfigView, TracingMiddleware};
use crate::rate::Rate;
use crate::strset::StrSet;
use crate::text::cat3;
use crate::errors;
use crate::middleware::circuit_breaker;
use crate::middleware::otel_tracing;
use crate::text;

verus! {

/// Entry for the tracing middleware.
#[derive(Debug)]
pub struct TracingMiddlewareConfig {
    pub service_name: Option<String>,
    pub propagate_traceparent: Option<bool>,
    pub priority: Option<u16>,
    pub enabled: Option<bool>,
    /// Module patterns; for information only.
    pub match_modules: Option<Vec<String>>,
}

impl Default for TracingMiddlewareConfig {
    fn default() -> (r: Self)
        ensures
            r == (TracingMiddlewareConfig {
                service_name: None,
                propagate_traceparent: None,
                priority: None,
                enabled: None,
                match_modules: None,
            }),
    {
        TracingMiddlewareConfig {
            service_name: None,
            propagate_traceparent: None,
            priority: None,
            enabled: None,
            match_modules: None,
        }
    }
}

/// Entry for the circuit breaker.
#[derive(Debug)]
pub struct CircuitBreakerMiddlewareConfig {
    pub open_threshold: Option<Rate>,
    pub window_size: Option<usize>,
    pub recovery_window_ms: Option<u64>,
    pub min_samples: Option<usize>,
    pub priority: Option<u16>,
    /// Module patterns; for information only.
    pub match_modules: Option<Vec<String>>,
}

impl Default for CircuitBreakerMiddlewareConfig {
    fn default() -> (r: Self)
        ensures
            r == (CircuitBreakerMiddlewareConfig {
                open_threshold: None,
                window_size: None,
                recovery_window_ms: None,
                min_samples: None,
                priority: None,
                match_modules: None,
            }),
    {
        CircuitBreakerMiddlewareConfig {
            open_threshold: None,
            window_size: None,
            recovery_window_ms: None,
            min_samples: None,
            priority: None,
            match_modules: None,
        }
    }
}

/// Entry for the logging middleware.
#[derive(Debug)]
pub struct LoggingMiddlewareConfig {
    pub log_inputs: Option<bool>,
    pub log_outputs: Option<bool>,
    pub log_errors: Option<bool>,
    pub priority: Option<u16>,
    /// Module patterns; for information only.
    pub match_modules: Option<Vec<String>>,
}

impl Default for LoggingMiddlewareConfig {
    fn default() -> (r: Self)
        ensures
            r == (LoggingMiddlewareConfig {
                log_inputs: None,
                log_outputs: None,
                log_errors: None,
                priority: None,
                match_modules: None,
            }),
    {
        LoggingMiddlewareConfig {
            log_inputs: None,
            log_outputs: None,
            log_errors: None,
            priority: None,
            match_modules: None,
        }
    }
}

/// Entry for a middleware that a registered factory makes.
#[derive(Debug)]
pub struct CustomMiddlewareConfig {
    /// Name under which the factory is registered.
    pub handler: String,
    /// What the factory is given.
    pub config: JsonValue,
    /// Module patterns; for information only.
    pub match_modules: Option<Vec<String>>,
    pub priority: Option<u16>,
}

/// An entry of a declared chain.
#[derive(Debug)]
pub enum MiddlewareConfig {
    Tracing(TracingMiddlewareConfig),
    CircuitBreaker(CircuitBreakerMiddlewareConfig),
    Logging(LoggingMiddlewareConfig),
    Custom(CustomMiddlewareConfig),
}

/// A declared chain.
#[derive(Debug)]
pub struct MiddlewareChainConfig {
    pub middleware: Vec<MiddlewareConfig>,
}

/// A middleware that a registered factory is to make.
#[derive(Debug)]
pub struct CustomMiddleware {
    /// Name under which the factory is registered.
    pub handler: String,
    /// What the factory is given.
    pub config: JsonValue,
    /// Priority in place of the middleware's own.
    pub priority: Option<u16>,
}

impl CustomMiddleware {
    /// The priority of the middleware, given its own.
    pub fn priority(&self, own: u16) -> (r: u16)
        ensures
            r == (match self.priority {
                Some(p) => p,
                None => own,
            }),
    {
        match self.priority {
            Some(p) => p,
            None => own,
        }
    }
}

/// A middleware made from an entry.
#[derive(Debug)]
pub enum BuiltMiddleware {
    Tracing(TracingMiddleware),
    /// The breaker, and whether it reports its changes.
    CircuitBreaker(CircuitBreakerMiddleware, bool),
    Logging(LoggingMiddleware),
    Custom(CustomMiddleware),
}

/// A value, or a default in its place.
pub open spec fn value_or<T>(o: Option<T>, default: T) -> T {
    match o {
        Some(v) => v,
        None => default,
    }
}

/// The tracing configuration that an entry stands for.
pub open spec fn tracing_of(c: TracingMiddlewareConfig) -> TracingConfigView {
    let d = otel_tracing::default_tracing_config();
    TracingConfigView {
        service_name: value_or(text::opt_text(c.service_name), d.service_name),
        propagate_traceparent: value_or(c.propagate_traceparent, d.propagate_traceparent),
        priority: value_or(c.priority, d.priority),
        enabled: match c.enabled {
            Some(v) => Some(v),
            None => d.enabled,
        },
    }
}

/// The breaker configuration that an entry stands for.
pub open spec fn breaker_of(c: CircuitBreakerMiddlewareConfig) -> CircuitBreakerConfig {
    let d = circuit_breaker::default_circuit_config();
    CircuitBreakerConfig {
        open_threshold: value_or(c.open_threshold, d.open_threshold),
        window_size: circuit_breaker::capacity(value_or(c.window_size, d.window_size) as int) as usize,
        recovery_window_ms: value_or(c.recovery_window_ms, d.recovery_window_ms),
        min_samples: value_or(c.min_samples, d.min_samples),
        priority: value_or(c.priority, d.priority),
    }
}

/// Whether an entry names a factory that is not registered.
pub open spec fn is_unregistered(c: MiddlewareConfig, handlers: Set<Seq<char>>) -> bool {
    c matches MiddlewareConfig::Custom(x) && !handlers.contains(x.handler@)
}

/// The error for a factory that is not registered.
pub open spec fn unregistered_error(handler: Seq<char>, timestamp: Timestamp) -> ErrorView {
    errors::plain_error(
        ErrorCode::PipelineConfigInvalid,
        "Custom middleware handler '"@ + handler
            + "' is not registered. Register it via MiddlewareFactory::register_custom() first."@,
        timestamp,
    )
}

/// Whether a middleware is the one that an entry declares.
pub open spec fn is_built_from(b: BuiltMiddleware, c: MiddlewareConfig, emits: bool) -> bool {
    match c {
        MiddlewareConfig::Tracing(x) => b matches BuiltMiddleware::Tracing(t) && t.config@ == tracing_of(x),
        MiddlewareConfig::CircuitBreaker(x) => {
            &&& b matches BuiltMiddleware::CircuitBreaker(m, e)
            &&& e == emits
            &&& m.settings() == breaker_of(x)
            &&& forall|i: Seq<char>, j: Seq<char>| #[trigger] m.circuit(i, j) == circuit_breaker::fresh_circuit()
        },
        MiddlewareConfig::Logging(x) => {
            &&& b matches BuiltMiddleware::Logging(l)
            &&& l.flags_are(value_or(x.log_inputs, true), value_or(x.log_outputs, true), value_or(x.log_errors, true))
            &&& l.starts() == Map::<Seq<char>, u64>::empty()
        },
        MiddlewareConfig::Custom(x) => {
            &&& b matches BuiltMiddleware::Custom(m)
            &&& m.handler@ == x.handler@
            &&& m.config@ == x.config@
            &&& m.priority == x.priority
        },
    }
}

/// Makes middlewares from entries.
#[derive(Debug)]
pub struct MiddlewareFactory {
    pub handlers: StrSet,
    pub emits: bool,
}

impl MiddlewareFactory {
    /// A factory that knows no handler and reports nothing.
    pub fn new() -> (r: Self)
        ensures
            r.handlers@ == Set::<Seq<char>>::empty(),
            !r.emits,
    {
        MiddlewareFactory { handlers: StrSet::new(), emits: false }
    }

    /// Let the middlewares report their changes.
    pub fn with_event_emitter(self) -> (r: Self)
        ensures
            r.handlers == self.handlers,
            r.emits,
    {
        MiddlewareFactory { handlers: self.handlers, emits: true }
    }

    /// Register a handler.
    pub fn register_custom(&mut self, handler: &str)
        ensures
            final(self).handlers@ == old(self).handlers@.insert(handler@),
            final(self).emits == old(self).emits,
    {
        self.handlers.insert(handler.to_owned());
    }

    /// The middleware that an entry declares.
    pub fn build(&self, config: &MiddlewareConfig) -> (r: Result<BuiltMiddleware, ModuleError>)
        ensures
            match r {
                Ok(b) => !is_unregistered(*config, self.handlers@) && is_built_from(b, *config, self.emits),
                Err(e) => is_unregistered(*config, self.handlers@) && e@ == unregistered_error(
                    config->Custom_0.handler@,
                    e@.timestamp,
                ),
            },
    {
        match config {
            MiddlewareConfig::Tracing(c) => Ok(BuiltMiddleware::Tracing(MiddlewareFactory::build_tracing(c))),
            MiddlewareConfig::CircuitBreaker(c) => Ok(
                BuiltMiddleware::CircuitBreaker(MiddlewareFactory::build_circuit_breaker(c), self.emits),
            ),
            MiddlewareConfig::Logging(c) => Ok(BuiltMiddleware::Logging(MiddlewareFactory::build_logging(c))),
            MiddlewareConfig::Custom(c) => match self.build_custom(c) {
                Ok(m) => Ok(BuiltMiddleware::Custom(m)),
                Err(e) => Err(e),
            },
        }
    }

    /// The middlewares that a chain declares, in its order, unless it names a
    /// factory that is not registered.
    pub fn build_chain(&self, chain: &MiddlewareChainConfig) -> (r: Result<Vec<BuiltMiddleware>, ModuleError>)
        ensures
            match r {
                Ok(v) => {
                    &&& v@.len() == chain.middleware@.len()
                    &&& forall|i: int|
                        #![trigger chain.middleware@[i]]
                        #![trigger v@[i]]
                        0 <= i < v@.len() ==> !is_unregistered(chain.middleware@[i], self.handlers@) && is_built_from(
                            v@[i],
                            chain.middleware@[i],
                            self.emits,
                        )
                },
                Err(e) => exists|i: int|
                    0 <= i < chain.middleware@.len() && is_unregistered(#[trigger] chain.middleware@[i], self.handlers@)
                        && (forall|j: int|
                        0 <= j < i ==> !is_unregistered(#[trigger] chain.middleware@[j], self.handlers@)) && e@
                        == unregistered_error(chain.middleware@[i]->Custom_0.handler@, e@.timestamp),
            },
    {
        let mut out: Vec<BuiltMiddleware> = Vec::new();
        let mut i: usize = 0;
        while i < chain.middleware.len()
            invariant
                i <= chain.middleware.len(),
                out@.len() == i,
                forall|j: int|
                    #![trigger chain.middleware@[j]]
                    #![trigger out@[j]]
                    0 <= j < i ==> !is_unregistered(chain.middleware@[j], self.handlers@) && is_built_from(
                        out@[j],
                        chain.middleware@[j],
                        self.emits,
                    ),
            decreases chain.middleware.len() - i,
        {
            match self.build(&chain.middleware[i]) {
                Ok(b) => {
                    out.push(b);
                },
                Err(e) => {
                    assert(is_unregistered(chain.middleware@[i as int], self.handlers@));
                    return Err(e);
                },
            }
            i = i + 1;
        }
        Ok(out)
    }

    fn build_tracing(c: &TracingMiddlewareConfig) -> (r: TracingMiddleware)
        ensures
            r.config@ == tracing_of(*c),
    {
        let mut b = TracingBuilder::default();
        match &c.service_name {
            Some(name) => {
                b = b.service_name(name.as_str());
            },
            None => {},
        }
        match c.propagate_traceparent {
            Some(p) => {
                b = b.propagate_traceparent(p);
            },
            None => {},
        }
        match c.priority {
            Some(p) => {
                b = b.priority(p);
            },
            None => {},
        }
        match c.enabled {
            Some(e) => {
                b = b.enabled(e);
            },
            None => {},
        }
        b.build()
    }

    fn build_circuit_breaker(c: &CircuitBreakerMiddlewareConfig) -> (r: CircuitBreakerMiddleware)
        ensures
            r.settings() == breaker_of(*c),
            forall|i: Seq<char>, j: Seq<char>| #[trigger] r.circuit(i, j) == circuit_breaker::fresh_circuit(),
    {
        let mut b = CircuitBreakerMiddleware::builder();
        match c.open_threshold {
            Some(t) => {
                b = b.open_threshold(t);
            },
            None => {},
        }
        match c.window_size {
            Some(w) => {
                b = b.window_size(w);
            },
            None => {},
        }
        match c.recovery_window_ms {
            Some(w) => {
                b = b.recovery_window_ms(w);
            },
            None => {},
        }
        match c.min_samples {
            Some(s) => {
                b = b.min_samples(s);
            },
            None => {},
        }
        match c.priority {
            Some(p) => {
                b = b.priority(p);
            },
            None => {},
        }
        b.build()
    }

    fn build_logging(c: &LoggingMiddlewareConfig) -> (r: LoggingMiddleware)
        ensures
            r.flags_are(value_or(c.log_inputs, true), value_or(c.log_outputs, true), value_or(c.log_errors, true)),
            r.starts() == Map::<Seq<char>, u64>::empty(),
    {
        LoggingMiddleware::new(c.log_inputs.unwrap_or(true), c.log_outputs.unwrap_or(true), c.log_errors.unwrap_or(true))
    }

    fn build_custom(&self, c: &CustomMiddlewareConfig) -> (r: Result<CustomMiddleware, ModuleError>)
        ensures
            match r {
                Ok(m) => self.handlers@.contains(c.handler@) && m.handler@ == c.handler@ && m.config@ == c.config@
                    && m.priority == c.priority,
                Err(e) => !self.handlers@.contains(c.handler@) && e@ == unregistered_error(c.handler@, e@.timestamp),
            },
    {
        if !self.handlers.contains(c.handler.as_str()) {
            let message = cat3(
                "Custom middleware handler '",
                c.handler.as_str(),
                "' is not registered. Register it via MiddlewareFactory::register_custom() first.",
            );
            return Err(ModuleError::new(ErrorCode::PipelineConfigInvalid, message.as_str()));
        }
        Ok(CustomMiddleware { handler: c.handler.clone(), config: c.config.clone(), priority: c.priority })
    }
}

/// What a configuration of tracing gives stands; what it leaves out has its
/// default.
pub proof fn tracing_takes_what_is_given(c: TracingMiddlewareConfig)
    ensures
        c.service_name matches Some(s) ==> tracing_of(c).service_name == s@,
        c.service_name is None ==> tracing_of(c).service_name == "apcore"@,
        c.propagate_traceparent matches Some(b) ==> tracing_of(c).propagate_traceparent == b,
        c.propagate_traceparent is None ==> tracing_of(c).propagate_traceparent,
        c.priority matches Some(p) ==> tracing_of(c).priority == p,
        c.priority is None ==> tracing_of(c).priority == 800,
        tracing_of(c).enabled == c.enabled,
{
}

/// What a configuration of a circuit breaker gives stands, but for a window
/// without room, which has room for one; what it leaves out has its default.
pub proof fn a_breaker_takes_what_is_given(c: CircuitBreakerMiddlewareConfig)
    ensures
        c.open_threshold matches Some(t) ==> breaker_of(c).open_threshold == t,
        c.open_threshold is None ==> breaker_of(c).open_threshold.num == 1 && breaker_of(c).open_threshold.den == 2,
        c.window_size matches Some(n) ==> (n > 0 ==> breaker_of(c).window_size == n) && (n == 0 ==> breaker_of(c).window_size
            == 1),
        c.window_size is None ==> breaker_of(c).window_size == 20,
        c.recovery_window_ms matches Some(n) ==> breaker_of(c).recovery_window_ms == n,
        c.recovery_window_ms is None ==> breaker_of(c).recovery_window_ms == 30_000,
        c.min_samples matches Some(n) ==> breaker_of(c).min_samples == n,
        c.min_samples is None ==> breaker_of(c).min_samples == 5,
        c.priority matches Some(p) ==> breaker_of(c).priority == p,
        c.priority is None ==> breaker_of(c).priority == 900,
{
}

/// Each configuration builds a middleware of its own kind.
pub proof fn a_middleware_is_of_its_kind(b: BuiltMiddleware, c: MiddlewareConfig, emits: bool)
    requires
        is_built_from(b, c, emits),
    ensures
        c matches MiddlewareConfig::Tracing(x) ==> (b matches BuiltMiddleware::Tracing(t) && t.config@.enabled == x.enabled),
        c matches MiddlewareConfig::CircuitBreaker(x) ==> (b matches BuiltMiddleware::CircuitBreaker(m, e) && e == emits && (
        x.min_samples matches Some(n) ==> m.settings().min_samples == n)),
        c matches MiddlewareConfig::Logging(x) ==> (b matches BuiltMiddleware::Logging(l) && (x.log_inputs matches Some(v)
            ==> l.log_inputs == v) && (x.log_outputs matches Some(v) ==> l.log_outputs == v) && (x.log_errors matches Some(v)
            ==> l.log_errors == v) && (x.log_inputs is None ==> l.log_inputs) && (x.log_outputs is None ==> l.log_outputs) && (
        x.log_errors is None ==> l.log_errors)),
        c matches MiddlewareConfig::Custom(x) ==> (b matches BuiltMiddleware::Custom(m) && m.handler@ == x.handler@ && m.config@
            == x.config@),
{
}

} // verus!
