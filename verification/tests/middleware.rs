use apcore::clock::Timestamp;
use apcore::error_code::ErrorCode;
use apcore::errors::ModuleError;
use apcore::ids::{
    draw_of, random_draw, random_simple_id, random_span_id, simple_form, span_form, DRAW_LIMIT,
};
use apcore::json::{JsonValue, Number};
use apcore::middleware::adapters::{AfterAdapter, BeforeAdapter};
use apcore::middleware::base::{recovery_outcome, OnErrorOutcome, DEFAULT_MIDDLEWARE_PRIORITY};
use apcore::middleware::circuit_breaker::{CircuitBreakerMiddleware, CircuitBreakerState};
use apcore::middleware::context_namespace::{
    enforce_context_key, validate_context_key, ContextWriter, CIRCUIT_STATE, TRACING_SPAN_ID,
};
use apcore::middleware::logging::LoggingMiddleware;
use apcore::middleware::manager::{AfterRun, BeforeRun, ErrorRun, MiddlewareEntry, MiddlewareManager};
use apcore::middleware::otel_tracing::{
    TracingMiddleware, TRACING_ATTRIBUTES_KEY, TRACING_SPAN_NAME_KEY, TRACING_SPAN_STATUS_KEY,
};
use apcore::middleware::platform_notify::{ModuleReading, PlatformNotifyMiddleware};
use apcore::middleware::retry::{RetryConfig, RetryDecision, RetryMiddleware};
use apcore::middleware::yaml_config::{
    BuiltMiddleware, CircuitBreakerMiddlewareConfig, CustomMiddlewareConfig,
    LoggingMiddlewareConfig, MiddlewareChainConfig, MiddlewareConfig, MiddlewareFactory,
    TracingMiddlewareConfig,
};
use apcore::rate::Rate;
use apcore::strmap::StrMap;

fn convert(v: &serde_json::Value) -> JsonValue {
    match v {
        serde_json::Value::Null => JsonValue::Null,
        serde_json::Value::Bool(b) => JsonValue::Bool(*b),
        serde_json::Value::Number(n) => JsonValue::Number(if let Some(u) = n.as_u64() {
            Number::PosInt(u)
        } else if let Some(i) = n.as_i64() {
            Number::NegInt(i)
        } else {
            Number::Float(n.to_string())
        }),
        serde_json::Value::String(s) => JsonValue::String(s.clone()),
        serde_json::Value::Array(a) => JsonValue::Array(a.iter().map(convert).collect()),
        serde_json::Value::Object(m) => {
            let mut out = StrMap::new();
            for (k, x) in m {
                out.insert(k.clone(), convert(x));
            }
            JsonValue::Object(out)
        }
    }
}

fn json(text: &str) -> JsonValue {
    convert(&serde_json::from_str(text).unwrap())
}

fn entry(name: &str, priority: u16) -> MiddlewareEntry {
    MiddlewareEntry { name: name.to_string(), priority, id: 0 }
}

fn find<'a>(writes: &'a [(&'static str, JsonValue)], key: &str) -> Option<&'a JsonValue> {
    writes.iter().find(|(k, _)| *k == key).map(|(_, v)| v)
}

// Adapters

#[test]
fn test_before_middleware_name() {
    let mw = BeforeAdapter::new("logging_before", ());
    assert_eq!(mw.name, "logging_before");
}

#[test]
fn test_before_middleware_passthrough() {
    let inputs = json("{\"key\": \"value\"}");
    let mut run = BeforeRun::start(1, JsonValue::Null);
    assert_eq!(run.pending(), Some(0));
    run.settle("logging_before", Ok(Some(inputs.clone()))).unwrap();
    assert!(run.inputs().same(&inputs));
}

#[test]
fn test_after_middleware_name() {
    let mw = AfterAdapter::new("logging_after", ());
    assert_eq!(mw.name, "logging_after");
}

#[test]
fn test_after_middleware_passthrough() {
    let output = json("{\"out\": 2}");
    let mut run = AfterRun::start(1, output.clone());
    assert_eq!(run.pending(), Some(0));
    run.settle(Ok(Some(output.clone()))).unwrap();
    assert!(run.finish().same(&output));
}

#[test]
fn test_before_middleware_returns_none() {
    let inputs = json("{\"a\": 1}");
    let mut run = BeforeRun::start(1, inputs.clone());
    run.settle("noop", Ok(None)).unwrap();
    assert!(run.finish().same(&inputs));
}

#[test]
fn test_middleware_default_priority() {
    assert_eq!(DEFAULT_MIDDLEWARE_PRIORITY, 100);
}

#[test]
fn test_middleware_custom_priority() {
    let mw = entry("high_priority", 500);
    assert_eq!(mw.priority, 500);
    assert_eq!(mw.name, "high_priority");
}

#[test]
fn test_middleware_on_error_returns_none() {
    assert!(recovery_outcome(None).is_none());
    assert!(matches!(recovery_outcome(Some(JsonValue::Null)), Some(OnErrorOutcome::Recovery(_))));
}

// Circuit breaker

#[test]
fn closed_circuit_allows_calls() {
    let mut mw = CircuitBreakerMiddleware::builder().build();
    assert!(mw.before("executor.foo", Some("orchestrator.x"), 0).1.is_ok());
    assert_eq!(mw.state("executor.foo", "orchestrator.x"), CircuitBreakerState::Closed);
}

#[test]
fn opens_when_error_rate_exceeds_threshold() {
    let mut mw = CircuitBreakerMiddleware::builder()
        .open_threshold(Rate { num: 1, den: 2 })
        .window_size(10)
        .min_samples(5)
        .build();
    let module = "executor.payment.charge";
    let err = ModuleError::new(ErrorCode::ModuleExecuteError, "boom");
    for i in 0..6 {
        let _ = mw.on_error(module, Some("orchestrator.billing"), &err, i);
    }
    assert_eq!(mw.state(module, "orchestrator.billing"), CircuitBreakerState::Open);
}

#[test]
fn open_state_short_circuits_before() {
    let mut mw = CircuitBreakerMiddleware::builder().build();
    let module = "executor.payment.charge";
    mw.force_state(module, "orchestrator.billing", CircuitBreakerState::Open, Some(1000));
    let (noted, answer) = mw.before(module, Some("orchestrator.billing"), 1000);
    assert_eq!(noted.as_str(), "OPEN");
    let err = answer.unwrap_err();
    assert_eq!(err.code, ErrorCode::CircuitBreakerOpen);
}

#[test]
fn open_to_half_open_after_recovery_window() {
    let mut mw = CircuitBreakerMiddleware::builder().recovery_window_ms(30_000).build();
    let module = "executor.payment.charge";
    mw.force_state(module, "orchestrator.billing", CircuitBreakerState::Open, Some(1000));
    assert!(mw.before(module, Some("orchestrator.billing"), 35_000_000_000).1.is_ok());
    assert_eq!(mw.state(module, "orchestrator.billing"), CircuitBreakerState::HalfOpen);
}

#[test]
fn half_open_concurrent_probes_capped_at_one() {
    let mut mw = CircuitBreakerMiddleware::builder().build();
    let module = "executor.payment.charge";
    mw.force_state(module, "orchestrator.billing", CircuitBreakerState::HalfOpen, Some(1000));
    assert!(mw.before(module, Some("orchestrator.billing"), 1000).1.is_ok());
    let (noted, answer) = mw.before(module, Some("orchestrator.billing"), 1001);
    assert_eq!(noted, CircuitBreakerState::Open);
    assert_eq!(mw.state(module, "orchestrator.billing"), CircuitBreakerState::HalfOpen);
    let err = answer.unwrap_err();
    assert_eq!(err.code, ErrorCode::CircuitBreakerOpen);
}

#[test]
fn half_open_success_closes_circuit() {
    let mut mw = CircuitBreakerMiddleware::builder().build();
    let module = "executor.payment.charge";
    mw.force_state(module, "orchestrator.billing", CircuitBreakerState::HalfOpen, Some(1000));
    mw.before(module, Some("orchestrator.billing"), 1000).1.unwrap();
    let event = mw.after(module, Some("orchestrator.billing"));
    assert!(event.is_some());
    assert_eq!(mw.state(module, "orchestrator.billing"), CircuitBreakerState::Closed);
}

#[test]
fn writes_state_to_context_data() {
    let mut mw = CircuitBreakerMiddleware::builder().build();
    let (state, answer) = mw.before("mod.a", Some("orch"), 0);
    assert!(answer.is_ok());
    assert_eq!(state.as_str(), "CLOSED");
    assert_eq!(CIRCUIT_STATE, "_apcore.mw.circuit.state");
}

#[test]
fn ignores_circuit_breaker_open_in_on_error() {
    let mut mw = CircuitBreakerMiddleware::builder()
        .open_threshold(Rate { num: 1, den: 2 })
        .min_samples(2)
        .build();
    let err = ModuleError::circuit_breaker_open("mod.a", "orch");
    let _ = mw.on_error("mod.a", Some("orch"), &err, 0);
    let _ = mw.on_error("mod.a", Some("orch"), &err, 1);
    assert_eq!(mw.state("mod.a", "orch"), CircuitBreakerState::Closed);
}

#[test]
fn circuits_are_kept_apart_by_caller() {
    let mut mw = CircuitBreakerMiddleware::builder().min_samples(1).build();
    let err = ModuleError::new(ErrorCode::ModuleExecuteError, "boom");
    let event = mw.on_error("m", Some("a"), &err, 0).unwrap();
    assert_eq!(event.module_id, "m");
    assert_eq!(mw.state("m", "a"), CircuitBreakerState::Open);
    assert_eq!(mw.state("m", "b"), CircuitBreakerState::Closed);
}

// Namespaces of keys

#[test]
fn framework_apcore_prefix_is_valid() {
    let check = validate_context_key(ContextWriter::Framework, "_apcore.mw.logging.start_time");
    assert!(check.valid);
    assert!(!check.warning);
}

#[test]
fn user_ext_prefix_is_valid() {
    let check = validate_context_key(ContextWriter::User, "ext.my_company.request_id");
    assert!(check.valid);
    assert!(!check.warning);
}

#[test]
fn user_writing_apcore_prefix_is_violation() {
    let check = validate_context_key(ContextWriter::User, "_apcore.mw.tracing.span_id");
    assert!(!check.valid);
    assert!(check.warning);
}

#[test]
fn framework_writing_ext_prefix_is_violation() {
    let check = validate_context_key(ContextWriter::Framework, "ext.user_payload");
    assert!(!check.valid);
    assert!(check.warning);
}

#[test]
fn unprefixed_keys_are_tolerated_for_backward_compat() {
    let f = validate_context_key(ContextWriter::Framework, "legacy_key");
    let u = validate_context_key(ContextWriter::User, "legacy_key");
    assert!(f.valid && !f.warning);
    assert!(u.valid && !u.warning);
}

#[test]
fn a_violation_is_explained() {
    let (check, why) = enforce_context_key(ContextWriter::User, "_apcore.x");
    assert!(!check.valid);
    assert!(why.is_some());
    assert!(enforce_context_key(ContextWriter::User, "ext.x").1.is_none());
}

// Logging

#[test]
fn test_logging_middleware_name_and_priority() {
    let mw = LoggingMiddleware::with_defaults();
    assert_eq!(mw.name(), "logging");
    assert_eq!(mw.priority(), 700);
}

#[test]
fn test_logging_middleware_before_returns_none() {
    let mut mw = LoggingMiddleware::with_defaults();
    let record = mw.before("test.module", "t", &json("{\"key\": \"value\"}"), None, 5).unwrap();
    assert_eq!(record.message, "START test.module");
    assert!(record.inputs.same(&json("{\"key\": \"value\"}")));
}

#[test]
fn test_logging_middleware_after_returns_none() {
    let mut mw = LoggingMiddleware::with_defaults();
    let _ = mw.before("test.module", "t", &json("{}"), None, 5);
    assert_eq!(mw.after("test.module", "t", 12), Some(7));
    assert_eq!(mw.after("test.module", "t", 12), Some(0));
}

#[test]
fn test_logging_middleware_on_error_returns_none() {
    let mut mw = LoggingMiddleware::with_defaults();
    let error = ModuleError::new(ErrorCode::ModuleExecuteError, "test error");
    let record = mw.on_error("test.module", "t", &error, None).unwrap();
    assert_eq!(record.message, "ERROR test.module: test error");
    assert_eq!(record.error_code, "ModuleExecuteError");
    assert!(record.inputs.is_none());
}

#[test]
fn test_logging_middleware_with_disabled_flags() {
    let mut mw = LoggingMiddleware::new(false, false, false);
    assert!(mw.before("test.module", "t", &json("{}"), None, 0).is_none());
    assert!(mw.after("test.module", "t", 1).is_none());
    let error = ModuleError::new(ErrorCode::ModuleExecuteError, "err");
    assert!(mw.on_error("test.module", "t", &error, None).is_none());
}

#[test]
fn test_logging_middleware_default() {
    let mw = LoggingMiddleware::default();
    assert!(mw.log_inputs);
    assert!(mw.log_outputs);
    assert!(mw.log_errors);
}

// Manager

#[test]
fn test_higher_priority_executes_first_in_before() {
    let mut mgr = MiddlewareManager::new();
    mgr.add(entry("low", 1)).unwrap();
    mgr.add(entry("high", 10)).unwrap();
    mgr.add(entry("mid", 5)).unwrap();
    assert_eq!(mgr.snapshot(), vec!["high", "mid", "low"]);
}

#[test]
fn test_equal_priority_preserves_registration_order() {
    let mut mgr = MiddlewareManager::new();
    mgr.add(entry("first", 5)).unwrap();
    mgr.add(entry("second", 5)).unwrap();
    mgr.add(entry("third", 5)).unwrap();
    assert_eq!(mgr.snapshot(), vec!["first", "second", "third"]);
}

#[test]
fn test_default_priority_orders_after_explicit_priority() {
    let mut mgr = MiddlewareManager::new();
    mgr.add(entry("default_a", 0)).unwrap();
    mgr.add(entry("explicit", 1)).unwrap();
    mgr.add(entry("default_b", 0)).unwrap();
    assert_eq!(mgr.snapshot(), vec!["explicit", "default_a", "default_b"]);
}

#[test]
fn test_snapshot_reflects_priority_sorted_order() {
    let mut mgr = MiddlewareManager::new();
    mgr.add(entry("d", 0)).unwrap();
    mgr.add(entry("a", 100)).unwrap();
    mgr.add(entry("c", 5)).unwrap();
    mgr.add(entry("b", 50)).unwrap();
    assert_eq!(mgr.snapshot(), vec!["a", "b", "c", "d"]);
}

#[test]
fn test_add_rejects_priority_above_1000() {
    let mut mgr = MiddlewareManager::new();
    let err = mgr.add(entry("over_limit", 1001)).unwrap_err();
    assert!(err.message.contains("exceeds the maximum"), "got: {}", err.message);
    assert!(mgr.snapshot().is_empty());
}

#[test]
fn test_add_accepts_priority_at_1000() {
    let mut mgr = MiddlewareManager::new();
    mgr.add(entry("at_limit", 1000)).unwrap();
    assert_eq!(mgr.snapshot(), vec!["at_limit"]);
}

#[test]
fn middlewares_are_removed_by_name() {
    let mut mgr = MiddlewareManager::default();
    mgr.add(entry("a", 1)).unwrap();
    assert_eq!(mgr.position("a"), Some(0));
    assert!(mgr.remove("a"));
    assert!(!mgr.remove("a"));
    assert_eq!(mgr.len(), 0);
}

#[test]
fn a_failing_middleware_keeps_what_ran_before_it() {
    let mut run = BeforeRun::start(3, json("{}"));
    run.settle("a", Ok(None)).unwrap();
    let err = run.settle("b", Err(ModuleError::new(ErrorCode::ACLDenied, "no"))).unwrap_err();
    assert!(err.is_middleware_chain_error());
    assert_eq!(run.executed(), vec![0, 1]);
    let inner = err.unwrap_middleware_chain_error().unwrap();
    assert_eq!(inner.code, ErrorCode::ACLDenied);
}

#[test]
fn errors_are_offered_in_reverse() {
    let mut run = ErrorRun::start(3, vec![0, 1, 2]);
    assert_eq!(run.advance(), Some(2));
    assert!(ErrorRun::settle(Ok(None)).is_none());
    assert_eq!(run.advance(), Some(1));
    assert_eq!(run.advance(), Some(0));
    assert_eq!(run.advance(), None);
}

// Span of a call in the context

#[test]
fn enabled_writes_span_id_and_attributes() {
    let mw = TracingMiddleware::builder().enabled(true).build();
    let trace_id = random_simple_id();
    let writes = mw
        .before(false, "executor.email.send_email", &trace_id, Some("orchestrator.notifications"))
        .unwrap();
    let span_id = find(&writes, TRACING_SPAN_ID).unwrap().as_str().unwrap();
    assert_eq!(span_id.len(), 32);
    let attrs = find(&writes, TRACING_ATTRIBUTES_KEY).unwrap();
    assert_eq!(attrs.get("apcore.module_id").unwrap().as_str(), Some("executor.email.send_email"));
    assert_eq!(attrs.get("apcore.caller_id").unwrap().as_str(), Some("orchestrator.notifications"));
    assert_eq!(attrs.get("apcore.trace_id").unwrap().as_str().map(str::len), Some(32));
    assert_eq!(
        find(&writes, TRACING_SPAN_NAME_KEY).unwrap().as_str(),
        Some("executor.email.send_email")
    );
}

#[test]
fn disabled_is_silent_noop() {
    let mw = TracingMiddleware::builder().enabled(false).build();
    assert!(mw.before(true, "mod.a", "t", Some("orch")).is_none());
}

#[test]
fn after_records_ok_status() {
    let mw = TracingMiddleware::builder().enabled(true).build();
    let writes = mw.finish(false, false).unwrap();
    assert_eq!(find(&writes, TRACING_SPAN_STATUS_KEY).unwrap().as_str(), Some("ok"));
}

#[test]
fn on_error_records_error_status() {
    let mw = TracingMiddleware::builder().enabled(true).build();
    let writes = mw.finish(false, true).unwrap();
    assert_eq!(find(&writes, TRACING_SPAN_STATUS_KEY).unwrap().as_str(), Some("error"));
}

#[test]
fn disabled_on_error_does_not_panic() {
    let mw = TracingMiddleware::builder().enabled(false).build();
    assert!(mw.finish(true, true).is_none());
}

#[test]
fn random_texts_are_hexadecimal() {
    let a = random_simple_id();
    let b = random_simple_id();
    assert_ne!(a, b);
    assert!(a.chars().all(|c| c.is_ascii_hexdigit()));
    assert_eq!(random_span_id().len(), 16);
    assert!(random_draw() < DRAW_LIMIT);
}

#[test]
fn texts_and_numbers_come_from_an_identifier() {
    let id = "01234567-89ab-4cde-8f01-fedcba987654";
    assert_eq!(simple_form(id), "0123456789ab4cde8f01fedcba987654");
    assert_eq!(span_form(id), "8f01fedcba987654");
    assert_eq!(draw_of(id), 0x0123_4567_89ab);
    assert_eq!(draw_of("ffffffff-ffff-4fff-bfff-ffffffffffff"), DRAW_LIMIT - 1);
    assert_eq!(draw_of("00000000-0000-4000-8000-000000000000"), 0);
}

// Retries

#[test]
fn test_retry_config_default() {
    let config = RetryConfig::default();
    assert_eq!(config.max_retries, 3);
    assert_eq!(config.strategy, "exponential");
    assert_eq!(config.base_delay_ms, 100);
    assert_eq!(config.max_delay_ms, 5000);
    assert!(config.jitter);
}

#[test]
fn test_retry_config_serde_defaults() {
    let config = RetryConfig::from_json(&json("{\"max_retries\": 5}")).unwrap();
    assert_eq!(config.max_retries, 5);
    assert_eq!(config.strategy, "exponential");
    assert_eq!(config.base_delay_ms, 100);
}

fn retries(max_retries: u32, strategy: &str, base_delay_ms: u64, max_delay_ms: u64, jitter: bool) -> RetryMiddleware {
    RetryMiddleware::new(RetryConfig {
        max_retries,
        strategy: strategy.to_string(),
        base_delay_ms,
        max_delay_ms,
        jitter,
    })
}

#[test]
fn test_calculate_delay_fixed_no_jitter() {
    let mw = retries(3, "fixed", 200, 5000, false);
    assert_eq!(mw.calculate_delay(0, 0), 200);
    assert_eq!(mw.calculate_delay(1, 0), 200);
    assert_eq!(mw.calculate_delay(5, 0), 200);
}

#[test]
fn test_calculate_delay_exponential_no_jitter() {
    let mw = retries(5, "exponential", 100, 5000, false);
    assert_eq!(mw.calculate_delay(0, 0), 100);
    assert_eq!(mw.calculate_delay(1, 0), 200);
    assert_eq!(mw.calculate_delay(2, 0), 400);
    assert_eq!(mw.calculate_delay(3, 0), 800);
}

#[test]
fn test_calculate_delay_exponential_capped() {
    let mw = retries(10, "exponential", 100, 500, false);
    assert_eq!(mw.calculate_delay(4, 0), 500);
}

#[test]
fn test_calculate_delay_with_jitter_in_range() {
    let mw = retries(3, "fixed", 1000, 5000, true);
    for i in 0..20 {
        let delay = mw.calculate_delay(0, i * 49_999_999);
        assert!(delay >= 500, "delay {delay} should be >= 500");
        assert!(delay < 1500, "delay {delay} should be < 1500");
    }
}

#[test]
fn test_retry_middleware_name() {
    let mw = RetryMiddleware::new(RetryConfig::default());
    assert_eq!(mw.name(), "retry");
}

#[test]
fn test_after_resets_retry_count() {
    let mut mw = RetryMiddleware::new(RetryConfig::default());
    mw.retry_counts.insert("mod.a".to_string(), 2);
    mw.after("mod.a");
    assert!(mw.retry_counts.get("mod.a").is_none());
}

#[test]
fn test_on_error_non_retryable_returns_none() {
    let mut mw = retries(3, "fixed", 1, 1, false);
    let err = ModuleError::new(ErrorCode::ModuleExecuteError, "fail");
    assert!(matches!(mw.on_error("mod.a", &err, 0), RetryDecision::Propagate));
}

#[test]
fn test_on_error_retryable_returns_inputs() {
    let mut mw = retries(3, "fixed", 1, 1, false);
    let err = ModuleError::new(ErrorCode::ModuleExecuteError, "fail").with_retryable(true);
    assert!(matches!(mw.on_error("mod.a", &err, 0), RetryDecision::RetryAfter(1)));
    assert_eq!(*mw.retry_counts.get("mod.a").unwrap(), 1);
}

#[test]
fn test_on_error_exceeds_max_retries() {
    let mut mw = retries(2, "fixed", 1, 1, false);
    mw.retry_counts.insert("mod.a".to_string(), 2);
    let err = ModuleError::new(ErrorCode::ModuleExecuteError, "fail").with_retryable(true);
    assert!(matches!(mw.on_error("mod.a", &err, 0), RetryDecision::Propagate));
}

// Chains from a configuration

fn custom(handler: &str, priority: Option<u16>) -> MiddlewareConfig {
    MiddlewareConfig::Custom(CustomMiddlewareConfig {
        handler: handler.to_string(),
        config: JsonValue::Null,
        match_modules: None,
        priority,
    })
}

#[test]
fn factory_builds_tracing_and_logging() {
    let chain = MiddlewareChainConfig {
        middleware: vec![
            MiddlewareConfig::Tracing(TracingMiddlewareConfig {
                enabled: Some(false),
                ..TracingMiddlewareConfig::default()
            }),
            MiddlewareConfig::Logging(LoggingMiddlewareConfig::default()),
        ],
    };
    let built = MiddlewareFactory::new().build_chain(&chain).unwrap();
    assert_eq!(built.len(), 2);
    match &built[0] {
        BuiltMiddleware::Tracing(t) => assert_eq!(t.name(), "tracing"),
        _ => panic!("expected tracing"),
    }
    match &built[1] {
        BuiltMiddleware::Logging(l) => assert_eq!(l.name(), "logging"),
        _ => panic!("expected logging"),
    }
}

#[test]
fn factory_unknown_custom_handler_errors() {
    let chain = MiddlewareChainConfig { middleware: vec![custom("missing.handler", None)] };
    let err = MiddlewareFactory::new().build_chain(&chain).unwrap_err();
    assert_eq!(err.code, ErrorCode::PipelineConfigInvalid);
}

#[test]
fn factory_resolves_registered_custom_handler() {
    let chain = MiddlewareChainConfig { middleware: vec![custom("stub", None)] };
    let mut factory = MiddlewareFactory::new();
    factory.register_custom("stub");
    let built = factory.build_chain(&chain).unwrap();
    match &built[0] {
        BuiltMiddleware::Custom(c) => assert_eq!(c.handler, "stub"),
        _ => panic!("expected the handler"),
    }
}

#[test]
fn factory_applies_priority_override_to_custom_middleware() {
    let chain = MiddlewareChainConfig { middleware: vec![custom("stub", Some(950))] };
    let mut factory = MiddlewareFactory::new();
    factory.register_custom("stub");
    let built = factory.build_chain(&chain).unwrap();
    match &built[0] {
        BuiltMiddleware::Custom(c) => {
            assert_eq!(c.priority(100), 950);
            assert_eq!(c.handler, "stub");
        }
        _ => panic!("expected the handler"),
    }
}

#[test]
fn a_circuit_breaker_takes_its_settings_from_the_chain() {
    let config = MiddlewareConfig::CircuitBreaker(CircuitBreakerMiddlewareConfig {
        open_threshold: Some(Rate { num: 3, den: 10 }),
        min_samples: Some(1),
        ..CircuitBreakerMiddlewareConfig::default()
    });
    match MiddlewareFactory::new().build(&config).unwrap() {
        BuiltMiddleware::CircuitBreaker(mut mw, emits) => {
            assert!(!emits);
            let err = ModuleError::new(ErrorCode::ModuleExecuteError, "boom");
            let _ = mw.on_error("m", None, &err, 0);
            assert_eq!(mw.before("m", None, 1).1.unwrap_err().code, ErrorCode::CircuitBreakerOpen);
        }
        _ => panic!("expected a circuit breaker"),
    }
}

// Notices

#[test]
fn a_notice_comes_once_until_recovery() {
    let mut mw = PlatformNotifyMiddleware::new(Rate { num: 1, den: 10 }, 1_000);
    let bad = ModuleReading { errors: 5, total: 10, p99_nanos: 0 };
    let good = ModuleReading { errors: 0, total: 100, p99_nanos: 0 };
    assert!(mw.on_error("m", bad).is_some());
    let bad = ModuleReading { errors: 5, total: 10, p99_nanos: 0 };
    assert!(mw.on_error("m", bad).is_none());
    let event = mw.check_error_recovery("m", good);
    assert!(event.is_some());
    let bad = ModuleReading { errors: 5, total: 10, p99_nanos: 0 };
    assert!(mw.on_error("m", bad).is_some());
}

#[test]
fn a_retry_configuration_reads_from_a_list() {
    let c = RetryConfig::from_json(&json("[7]")).unwrap();
    assert_eq!(c.max_retries, 7);
    assert_eq!(c.strategy, "exponential");
    assert_eq!(c.base_delay_ms, 100);
    assert!(c.jitter);
    let c = RetryConfig::from_json(&json("[1, \"fixed\", 5, 6, false]")).unwrap();
    assert_eq!((c.strategy.as_str(), c.base_delay_ms, c.max_delay_ms, c.jitter), ("fixed", 5, 6, false));
    assert!(RetryConfig::from_json(&json("[]")).is_none());
    assert!(RetryConfig::from_json(&json("[1, 2]")).is_none());
    assert!(RetryConfig::from_json(&json("[1, \"fixed\", 5, 6, false, 0]")).is_none());
}

#[test]
fn a_chain_error_gives_back_its_error_at_any_time() {
    let mut orig = ModuleError::new(ErrorCode::ACLDenied, "no");
    orig.timestamp = Timestamp { secs: 8_210_266_876_799, nanos: 1_500_000_000 };
    let mut run = BeforeRun::start(1, json("{}"));
    let err = run.settle("m", Err(orig.clone())).unwrap_err();
    let inner = err.unwrap_middleware_chain_error().unwrap();
    assert_eq!(inner.code, ErrorCode::ACLDenied);
    assert_eq!(inner.timestamp, orig.timestamp);
}

#[test]
fn the_end_of_a_call_is_told_with_its_duration() {
    let mut mw = LoggingMiddleware::new(true, true, true);
    mw.before("demo.module", "t", &JsonValue::Null, None, 1_000_000);
    let nanos = mw.after("demo.module", "t", 13_345_678).unwrap();
    assert_eq!(LoggingMiddleware::end_message("demo.module", nanos), "END demo.module (12.35ms)");
    assert_eq!(LoggingMiddleware::end_message("m", 0), "END m (0.00ms)");
    assert_eq!(LoggingMiddleware::end_message("m", 1_999_000_000), "END m (1999.00ms)");
}
