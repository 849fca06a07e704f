use apcore::clock::Timestamp;
use apcore::error_code::ErrorCode;
use apcore::errors::ModuleError;
use apcore::events::circuit_breaker::{CircuitBreakerWrapper, CircuitState, DeliveryOutcome};
use apcore::events::emitter::{
    dlq_event, flush_step, Delivery, DeliveryStep, EventEmitter, FlushAction, SubscriberEntry,
    DLQ_EVENT_TYPE,
};
use apcore::events::event::{render_event_json, render_event_text, ApCoreEvent};
use apcore::events::retry::EventRetryConfig;
use apcore::events::subscribers::{
    create_subscriber, match_glob_pattern, register_subscriber_type, reset_subscriber_registry,
    unregister_subscriber_type, A2AAuth, A2ASubscriber, BuiltSubscriber, FileSubscriber,
    FilterSubscriber, OutputFormat, StdoutSubscriber, SubscriberRegistry, WebhookStep,
    WebhookSubscriber,
};
use apcore::json::{JsonValue, Number};
use apcore::strmap::StrMap;

fn convert(v: &serde_json::Value) -> JsonValue {
    match v {
        serde_json::Value::Null => JsonValue::Null,
        serde_json::Value::Bool(b) => JsonValue::Bool(*b),
        serde_json::Value::Number(n) => JsonValue::Number(if let Some(u) = n.as_u64() {
            Number::PosInt(u)
        } else if let Some(i) = n.as_i64() {
            Number::NegInt(i)
        } else {
            Number::Float(n.to_string())
        }),
        serde_json::Value::String(s) => JsonValue::String(s.clone()),
        serde_json::Value::Array(a) => JsonValue::Array(a.iter().map(convert).collect()),
        serde_json::Value::Object(m) => {
            let mut out = StrMap::new();
            for (k, x) in m {
                out.insert(k.clone(), convert(x));
            }
            JsonValue::Object(out)
        }
    }
}

fn json(text: &str) -> JsonValue {
    convert(&serde_json::from_str(text).unwrap())
}

fn at(secs: i64) -> Timestamp {
    Timestamp { secs, nanos: 0 }
}

fn failure() -> ModuleError {
    ModuleError::new(ErrorCode::GeneralInternalError, "boom")
}

fn entry(id: &str, pattern: &str, handle: u64) -> SubscriberEntry {
    SubscriberEntry { id: id.to_string(), pattern: pattern.to_string(), event_type: None, handle }
}

// Circuit breaker around a subscriber

#[test]
fn opens_after_threshold() {
    let mut wrapper = CircuitBreakerWrapper::new("webhook-x")
        .with_open_threshold(3)
        .with_subscriber_type_name("webhook");
    let mut captured = Vec::new();
    for i in 0..3 {
        assert!(wrapper.delivers(at(100 + i)));
        if let Some(e) = wrapper.settle(DeliveryOutcome::Failed, at(100 + i)) {
            captured.push(e);
        }
    }
    assert_eq!(wrapper.state(), CircuitState::Open);
    assert_eq!(wrapper.consecutive_failures(), 3);
    assert_eq!(captured.len(), 1);
    assert_eq!(captured[0].event_type, "apcore.subscriber.circuit_opened");
}

#[test]
fn open_state_discards_without_delivery() {
    let mut wrapper = CircuitBreakerWrapper::new("webhook-x");
    wrapper.force_state(CircuitState::Open);
    wrapper.force_last_failure_at(Some(at(1000)));
    assert!(!wrapper.delivers(at(1000)));
    assert_eq!(wrapper.state(), CircuitState::Open);
    assert_eq!(wrapper.consecutive_failures(), 0);
}

#[test]
fn half_open_on_success_closes_and_emits() {
    let mut wrapper = CircuitBreakerWrapper::new("webhook-x");
    wrapper.force_state(CircuitState::HalfOpen);
    assert!(wrapper.delivers(at(5)));
    let event = wrapper.settle(DeliveryOutcome::Delivered, at(5)).unwrap();
    assert_eq!(wrapper.state(), CircuitState::Closed);
    assert_eq!(wrapper.consecutive_failures(), 0);
    assert_eq!(event.event_type, "apcore.subscriber.circuit_closed");
}

#[test]
fn check_recovery_transitions_open_to_half_open() {
    let mut wrapper = CircuitBreakerWrapper::new("webhook-x").with_recovery_window_ms(30_000);
    wrapper.force_state(CircuitState::Open);
    wrapper.force_last_failure_at(Some(at(1000)));
    wrapper.check_recovery(at(1031));
    assert_eq!(wrapper.state(), CircuitState::HalfOpen);
}

#[test]
fn an_open_circuit_waits_for_the_whole_window() {
    let mut wrapper = CircuitBreakerWrapper::new("webhook-x").with_recovery_window_ms(30_000);
    wrapper.force_state(CircuitState::Open);
    wrapper.force_last_failure_at(Some(at(1000)));
    wrapper.check_recovery(at(1029));
    assert_eq!(wrapper.state(), CircuitState::Open);
    assert!(!wrapper.delivers(at(1029)));
}

#[test]
fn a_failed_probe_opens_again() {
    let mut wrapper = CircuitBreakerWrapper::new("webhook-x");
    wrapper.force_state(CircuitState::HalfOpen);
    let _ = wrapper.settle(DeliveryOutcome::TimedOut, at(9));
    assert_eq!(wrapper.state(), CircuitState::Open);
    assert_eq!(wrapper.last_failure_at(), Some(at(9)));
    wrapper.force_state(CircuitState::HalfOpen);
    let _ = wrapper.settle(DeliveryOutcome::Delivered, at(10));
    assert_eq!(wrapper.last_failure_at(), None);
}

#[test]
fn circuit_states_have_names() {
    assert_eq!(CircuitState::Closed.as_str(), "CLOSED");
    assert_eq!(CircuitState::Open.as_str(), "OPEN");
    assert_eq!(CircuitState::HalfOpen.as_str(), "HALF_OPEN");
}

// Events

#[test]
fn test_event_new_defaults() {
    let event = ApCoreEvent::new("test.event", json("{\"key\": \"val\"}"));
    assert_eq!(event.event_type, "test.event");
    assert_eq!(event.severity, "info");
    assert!(event.module_id.is_none());
    assert!(!event.timestamp.is_empty());
}

#[test]
fn test_event_with_module() {
    let event = ApCoreEvent::with_module("err.event", json("{}"), "mod.a", "error");
    assert_eq!(event.event_type, "err.event");
    assert_eq!(event.severity, "error");
    assert_eq!(event.module_id.as_deref(), Some("mod.a"));
}

#[test]
fn test_event_serialization_skips_none_module_id() {
    let event = ApCoreEvent::new("test", json("null"));
    let serialized = event.to_json();
    assert!(serialized.get("module_id").is_none());
    assert_eq!(serialized.get("event_type").unwrap().as_str(), Some("test"));
}

#[test]
fn events_carry_the_time_in_utc() {
    let event = ApCoreEvent::at("t", JsonValue::Null, None, "info", at(0));
    assert!(event.timestamp.starts_with("1970-01-01T00:00:00"));
    let other = ApCoreEvent::at("t", JsonValue::Null, None, "info", at(86_400));
    assert!(other.timestamp.starts_with("1970-01-02T00:00:00"));
}

#[test]
fn rendered_events_tell_their_type() {
    let event = ApCoreEvent::at("a.b", json("{\"n\": 1}"), Some("mod.x"), "warn", at(0));
    let text = render_event_text(&event);
    assert!(text.contains("a.b"));
    assert!(text.contains("mod.x"));
    let line: serde_json::Value = serde_json::from_str(&render_event_json(&event)).unwrap();
    assert_eq!(line["event_type"], "a.b");
    assert_eq!(line["data"]["n"], 1);
    assert_eq!(line["severity"], "warn");
}

// Emitter

#[test]
fn test_emitter_default_max_workers() {
    let emitter = EventEmitter::new();
    assert_eq!(emitter.max_workers, 4);
}

#[test]
fn test_emit_to_matching_subscriber() {
    let mut emitter = EventEmitter::new();
    emitter.subscribe(entry("sub1", "test.*", 7));
    assert_eq!(emitter.recipients("test.hello"), vec![7]);
}

#[test]
fn test_emit_skips_non_matching_subscriber() {
    let mut emitter = EventEmitter::new();
    emitter.subscribe(entry("sub1", "other.*", 7));
    assert!(emitter.recipients("test.hello").is_empty());
}

#[test]
fn test_emit_wildcard_matches_all() {
    let mut emitter = EventEmitter::new();
    emitter.subscribe(entry("sub1", "*", 7));
    assert_eq!(emitter.recipients("anything.at.all").len(), 1);
}

#[test]
fn test_unsubscribe_by_id() {
    let mut emitter = EventEmitter::new();
    emitter.subscribe(entry("sub1", "*", 1));
    assert!(emitter.unsubscribe_by_id("sub1"));
    assert!(!emitter.unsubscribe_by_id("sub1"));
}

#[test]
fn test_unsubscribe_removes_subscriber() {
    let mut emitter = EventEmitter::new();
    let sub = entry("sub1", "*", 1);
    emitter.subscribe(entry("sub1", "*", 1));
    emitter.unsubscribe(&sub);
    assert!(emitter.recipients("test").is_empty());
}

#[test]
fn test_emit_filtered() {
    let mut emitter = EventEmitter::new();
    emitter.subscribe(entry("sub1", "test.*", 4));
    assert_eq!(emitter.recipients_filtered("test.hello", "test.*").len(), 1);
    assert_eq!(emitter.recipients_filtered("test.hello", "other.*").len(), 0);
}

#[test]
fn test_flush_succeeds() {
    let emitter = EventEmitter::new();
    assert!(!emitter.is_shutdown());
    assert!(matches!(flush_step(1000, 0), FlushAction::WaitAtMost(1000)));
}

#[test]
fn test_matches_pattern_wildcard() {
    assert!(EventEmitter::matches_pattern("*", "anything"));
}

#[test]
fn test_matches_pattern_exact() {
    assert!(EventEmitter::matches_pattern("test.event", "test.event"));
    assert!(!EventEmitter::matches_pattern("test.event", "test.other"));
}

#[test]
fn test_matches_pattern_prefix_wildcard() {
    assert!(EventEmitter::matches_pattern("test.*", "test.hello"));
    assert!(EventEmitter::matches_pattern("test.*", "test."));
    assert!(!EventEmitter::matches_pattern("test.*", "other.hello"));
}

#[test]
fn test_matches_pattern_suffix_wildcard() {
    assert!(EventEmitter::matches_pattern("*.event", "test.event"));
    assert!(!EventEmitter::matches_pattern("*.event", "test.other"));
}

#[test]
fn test_matches_pattern_middle_wildcard() {
    assert!(EventEmitter::matches_pattern("a.*.z", "a.b.z"));
    assert!(EventEmitter::matches_pattern("a.*.z", "a.anything.z"));
    assert!(!EventEmitter::matches_pattern("a.*.z", "a.b.c"));
}

#[test]
fn a_star_may_stand_for_what_follows_it_again() {
    assert!(EventEmitter::matches_pattern("*.event", "a.event.event"));
    assert!(match_glob_pattern("*b*b", "abbb"));
    assert!(!match_glob_pattern("*b*b", "ab"));
}

#[test]
fn test_emit_error_isolation() {
    let mut emitter = EventEmitter::new();
    emitter.subscribe(entry("fail", "*", 1));
    emitter.subscribe(entry("good", "*", 2));
    let mut received = 0;
    for handle in emitter.recipients("test") {
        let answer: Result<(), ModuleError> = if handle == 1 { Err(failure()) } else { Ok(()) };
        if answer.is_ok() {
            received += 1;
        }
    }
    assert_eq!(received, 1);
}

#[test]
fn unsubscribing_an_event_type_counts() {
    let mut emitter = EventEmitter::new();
    let mut bound = entry("a", "x", 1);
    bound.event_type = Some("x".to_string());
    emitter.subscribe(bound);
    emitter.subscribe(entry("b", "*", 2));
    assert_eq!(emitter.unsubscribe_by_event_type("x"), 1);
    assert_eq!(emitter.unsubscribe_by_event_type("x"), 0);
    assert_eq!(emitter.recipients("x"), vec![2]);
}

#[test]
fn failures_do_not_reach_the_catch_all() {
    let mut emitter = EventEmitter::new();
    emitter.subscribe(entry("all", "*", 1));
    emitter.subscribe(entry("failures", DLQ_EVENT_TYPE, 2));
    assert_eq!(emitter.dlq_recipients(), vec![2]);
}

#[test]
fn an_emitter_shuts_down_once() {
    let mut emitter = EventEmitter::new();
    assert!(emitter.shutdown());
    assert!(!emitter.shutdown());
    assert!(emitter.is_shutdown());
}

#[test]
fn a_delivery_is_repeated_until_it_succeeds() {
    let (mut d, step) = Delivery::start(3);
    assert!(matches!(step, DeliveryStep::Attempt));
    assert!(matches!(d.settle(Err(failure())), DeliveryStep::Backoff(0)));
    assert!(matches!(d.settle(Ok(())), DeliveryStep::Done));
}

#[test]
fn a_delivery_gives_up_with_the_last_error() {
    let (mut d, _step) = Delivery::start(2);
    assert!(matches!(d.settle(Err(failure())), DeliveryStep::Backoff(0)));
    match d.settle(Err(failure())) {
        DeliveryStep::Exhausted(e) => {
            assert_eq!(e.message, "boom");
            match d.told(e) {
                DeliveryStep::CallHook(e, attempts) => {
                    assert_eq!(e.message, "boom");
                    assert_eq!(attempts, 2);
                }
                _ => panic!("expected the failure hook"),
            }
        }
        _ => panic!("expected the last error"),
    }
}

#[test]
fn a_failed_delivery_is_reported_as_an_event() {
    let event = ApCoreEvent::at("a.b", json("{}"), None, "info", at(1));
    let dlq = dlq_event("webhook", "webhook-1", &event, &failure(), 3, at(2));
    assert_eq!(dlq.event_type, DLQ_EVENT_TYPE);
    assert_eq!(dlq.data.get("subscriber_id").unwrap().as_str(), Some("webhook-1"));
    assert_eq!(dlq.data.get("attempt_count").unwrap().as_u64(), Some(3));
}

// Repetition

#[test]
fn test_default_is_single_attempt() {
    let cfg = EventRetryConfig::default();
    assert_eq!(cfg.max_attempts, 1);
}

#[test]
fn test_compute_delay_ms_exponential() {
    let cfg = EventRetryConfig {
        max_attempts: 5,
        initial_backoff_ms: 100,
        max_backoff_ms: 30_000,
        backoff_multiplier: 2,
    };
    assert_eq!(cfg.compute_delay_ms(0), 100);
    assert_eq!(cfg.compute_delay_ms(1), 200);
    assert_eq!(cfg.compute_delay_ms(2), 400);
    assert_eq!(cfg.compute_delay_ms(3), 800);
}

#[test]
fn test_compute_delay_ms_caps_at_max() {
    let cfg = EventRetryConfig {
        max_attempts: 10,
        initial_backoff_ms: 1000,
        max_backoff_ms: 5_000,
        backoff_multiplier: 2,
    };
    assert_eq!(cfg.compute_delay_ms(3), 5_000);
}

// Subscribers

#[test]
fn test_webhook_subscriber_new() {
    let sub = WebhookSubscriber::new("wh1", "https://example.com/hook", "test.*");
    assert_eq!(sub.id, "wh1");
    assert_eq!(sub.url, "https://example.com/hook");
    assert_eq!(sub.event_pattern, "test.*");
    assert_eq!(sub.retry_count, 3);
    assert_eq!(sub.timeout_ms, 5000);
    assert!(sub.headers.is_empty());
}

#[test]
fn test_webhook_subscriber_trait_methods() {
    let sub = WebhookSubscriber::new("wh1", "https://example.com", "*");
    assert_eq!(sub.subscriber_id(), "wh1");
    assert_eq!(sub.event_pattern(), "*");
}

#[test]
fn test_a2a_subscriber_new() {
    let sub = A2ASubscriber::new("a2a1", "https://platform.example.com", "module.*");
    assert_eq!(sub.id, "a2a1");
    assert_eq!(sub.platform_url, "https://platform.example.com");
    assert_eq!(sub.event_pattern, "module.*");
    assert!(sub.auth.is_none());
    assert_eq!(sub.timeout_ms, 5000);
}

#[test]
fn test_a2a_subscriber_trait_methods() {
    let sub = A2ASubscriber::new("a2a1", "https://p.com", "ev.*");
    assert_eq!(sub.subscriber_id(), "a2a1");
    assert_eq!(sub.event_pattern(), "ev.*");
}

#[test]
fn test_a2a_auth_bearer() {
    let auth = A2AAuth::Bearer("my_token".to_string());
    match auth {
        A2AAuth::Bearer(t) => assert_eq!(t, "my_token"),
        A2AAuth::Headers(_) => panic!("expected Bearer"),
    }
}

#[test]
fn test_a2a_auth_headers() {
    let mut headers = StrMap::new();
    headers.insert("X-Custom".to_string(), "value".to_string());
    let auth = A2AAuth::Headers(headers);
    match auth {
        A2AAuth::Headers(h) => assert_eq!(h.get("X-Custom").unwrap(), "value"),
        A2AAuth::Bearer(_) => panic!("expected Headers"),
    }
}

#[test]
fn a_bearer_token_becomes_a_header() {
    let mut sub = A2ASubscriber::new("a", "https://p.com", "*");
    sub.auth = Some(A2AAuth::Bearer("tok".to_string()));
    let headers = sub.request_headers();
    assert!(headers.iter().any(|(k, v)| k == "Authorization" && v == "Bearer tok"));
}

#[test]
fn a_webhook_is_called_again_after_a_server_error() {
    let sub = WebhookSubscriber::new("w", "https://p.com", "*");
    assert!(matches!(sub.after_request(0, Some(200)), WebhookStep::Delivered));
    assert!(matches!(sub.after_request(0, Some(404)), WebhookStep::Refused));
    assert!(matches!(sub.after_request(0, Some(503)), WebhookStep::Again));
    assert!(matches!(sub.after_request(0, None), WebhookStep::Again));
    assert!(matches!(sub.after_request(3, Some(503)), WebhookStep::GaveUp));
}

#[test]
fn test_create_subscriber_missing_type_field() {
    let registry = SubscriberRegistry::new();
    let err = create_subscriber(&registry, &json("{\"url\": \"https://example.com\"}")).unwrap_err();
    assert_eq!(err.code, ErrorCode::ConfigInvalid);
    assert!(err.message.contains("'type'"));
}

#[test]
fn test_create_subscriber_unknown_type() {
    let mut registry = SubscriberRegistry::new();
    reset_subscriber_registry(&mut registry);
    let err = create_subscriber(&registry, &json("{\"type\": \"nonexistent\"}")).unwrap_err();
    assert!(err.message.contains("nonexistent"));
}

#[test]
fn test_create_webhook_subscriber_via_factory() {
    let registry = SubscriberRegistry::new();
    let config = json(
        "{\"type\": \"webhook\", \"url\": \"https://example.com/hook\", \"retry_count\": 5, \"timeout_ms\": 3000, \"headers\": {\"Authorization\": \"Bearer tok\"}}",
    );
    match create_subscriber(&registry, &config).unwrap() {
        BuiltSubscriber::Webhook(sub) => {
            assert!(sub.subscriber_id().starts_with("webhook-"));
            assert_eq!(sub.event_pattern(), "*");
            assert_eq!(sub.retry_count, 5);
            assert_eq!(sub.timeout_ms, 3000);
            assert_eq!(sub.headers.get("Authorization").unwrap(), "Bearer tok");
        }
        _ => panic!("expected a webhook"),
    }
}

#[test]
fn test_create_webhook_subscriber_missing_url() {
    let registry = SubscriberRegistry::new();
    let err = create_subscriber(&registry, &json("{\"type\": \"webhook\"}")).unwrap_err();
    assert!(err.message.contains("url"));
}

#[test]
fn test_create_a2a_subscriber_via_factory() {
    let registry = SubscriberRegistry::new();
    let config = json(
        "{\"type\": \"a2a\", \"platform_url\": \"https://platform.example.com\", \"timeout_ms\": 2000, \"auth\": \"my_bearer_token\"}",
    );
    match create_subscriber(&registry, &config).unwrap() {
        BuiltSubscriber::A2A(sub) => {
            assert!(sub.subscriber_id().starts_with("a2a-"));
            assert_eq!(sub.event_pattern(), "*");
            assert_eq!(sub.timeout_ms, 2000);
            assert!(matches!(sub.auth, Some(A2AAuth::Bearer(t)) if t == "my_bearer_token"));
        }
        _ => panic!("expected an A2A subscriber"),
    }
}

#[test]
fn test_create_a2a_subscriber_missing_platform_url() {
    let registry = SubscriberRegistry::new();
    let err = create_subscriber(&registry, &json("{\"type\": \"a2a\"}")).unwrap_err();
    assert!(err.message.contains("platform_url"));
}

#[test]
fn test_register_and_unregister_custom_subscriber_type() {
    let mut registry = SubscriberRegistry::new();
    let name = "custom_unique_test_type";
    register_subscriber_type(&mut registry, name);
    let config = json("{\"type\": \"custom_unique_test_type\"}");
    match create_subscriber(&registry, &config).unwrap() {
        BuiltSubscriber::Custom(factory, given) => {
            assert_eq!(factory, name);
            assert!(given.same(&config));
        }
        _ => panic!("expected the factory"),
    }
    unregister_subscriber_type(&mut registry, name).unwrap();
    assert!(create_subscriber(&registry, &config).is_err());
}

#[test]
fn test_unregister_nonexistent_type_returns_error() {
    let mut registry = SubscriberRegistry::new();
    reset_subscriber_registry(&mut registry);
    assert!(unregister_subscriber_type(&mut registry, "does_not_exist").is_err());
}

#[test]
fn test_reset_subscriber_registry_restores_builtins() {
    let mut registry = SubscriberRegistry::new();
    unregister_subscriber_type(&mut registry, "webhook").unwrap();
    reset_subscriber_registry(&mut registry);
    let webhook = json("{\"type\": \"webhook\", \"url\": \"https://example.com\"}");
    assert!(create_subscriber(&registry, &webhook).is_ok());
    let a2a = json("{\"type\": \"a2a\", \"platform_url\": \"https://p.com\"}");
    assert!(create_subscriber(&registry, &a2a).is_ok());
}

#[test]
fn random_identifiers_differ() {
    let registry = SubscriberRegistry::new();
    let config = json("{\"type\": \"file\", \"path\": \"/tmp/events.log\"}");
    let mut ids = Vec::new();
    for _ in 0..2 {
        match create_subscriber(&registry, &config).unwrap() {
            BuiltSubscriber::File(f) => ids.push(f.id),
            _ => panic!("expected a file"),
        }
    }
    assert_ne!(ids[0], ids[1]);
    assert_eq!(ids[0].len(), "file-".len() + 36);
}

#[test]
fn a_file_is_put_aside_when_it_is_full() {
    let sub = FileSubscriber::new("/tmp/x.log").with_rotate_bytes(Some(100));
    assert!(sub.rotates(Some(100)));
    assert!(!sub.rotates(Some(99)));
    assert!(!sub.rotates(None));
    assert!(!FileSubscriber::new("/tmp/x.log").rotates(Some(100)));
}

#[test]
fn standard_output_is_filtered_by_severity() {
    let sub = StdoutSubscriber::new().with_level_filter(Some("warn".to_string()));
    let low = ApCoreEvent::at("a", JsonValue::Null, None, "info", at(0));
    let high = ApCoreEvent::at("a", JsonValue::Null, None, "error", at(0));
    assert!(!sub.allow(&low));
    assert!(sub.line(&low).is_none());
    assert!(sub.allow(&high));
    assert!(sub.line(&high).is_some());
}

#[test]
fn output_formats_have_names() {
    assert!(matches!(OutputFormat::from_config_str(Some("json")), OutputFormat::Json));
    assert!(matches!(OutputFormat::from_config_str(None), OutputFormat::Text));
}

#[test]
fn a_filter_includes_before_it_excludes() {
    let only = FilterSubscriber::new(()).with_include(vec!["a.*".to_string()]);
    assert!(only.matches("a.b"));
    assert!(!only.matches("c.b"));
    let not = FilterSubscriber::new(()).with_exclude(vec!["a.*".to_string()]);
    assert!(!not.matches("a.b"));
    assert!(not.matches("c.b"));
}

#[test]
fn a_wrapper_can_be_set_up() {
    let mut w = CircuitBreakerWrapper::new("s").with_timeout_ms(250).with_open_threshold(3);
    assert_eq!(w.timeout_ms, 250);
    w.force_consecutive_failures(2);
    assert_eq!(w.consecutive_failures(), 2);
    let told = w.on_failure(Timestamp { secs: 1, nanos: 0 });
    assert!(told.is_some());
    assert_eq!(w.state(), CircuitState::Open);
}

#[test]
fn a_filter_has_the_event_pattern_of_its_delegate() {
    let registry = SubscriberRegistry::new();
    let config = json("{\"type\": \"filter\", \"delegate_type\": \"stdout\", \"delegate_config\": {\"type\": \"webhook\"}}");
    match create_subscriber(&registry, &config).unwrap() {
        BuiltSubscriber::Filter(f) => {
            assert!(f.id.starts_with("filter-"));
            assert_eq!(f.event_pattern(), Some("*"));
        }
        _ => panic!("expected a filter"),
    }
    let webhook = BuiltSubscriber::Webhook(WebhookSubscriber::new("w", "https://example.com", "module.*"));
    let inner = BuiltSubscriber::Filter(Box::new(FilterSubscriber::new(webhook)));
    assert_eq!(FilterSubscriber::new(inner).event_pattern(), Some("module.*"));
    let custom = BuiltSubscriber::Custom("mine".to_string(), json("{}"));
    assert_eq!(custom.event_pattern(), None);
}
