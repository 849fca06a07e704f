use apcore::clock::Timestamp;
use apcore::error_code::ErrorCode;
use apcore::errors::ModuleError;
use apcore::json::{JsonValue, Number};
use apcore::observability::error_history::{
    compute_fingerprint, normalize_message, ErrorHistory, ErrorHistoryMiddleware,
};
use apcore::observability::exporters::{span_to_otlp, InMemoryExporter, OTLPExporter, StdoutExporter};
use apcore::observability::labels::sort_labels;
use apcore::observability::logging::{level_value, ContextLogger, LogFormat, ObsLoggingMiddleware};
use apcore::observability::metrics::{
    escape_prometheus_label_value, estimate_p99_from_histogram, estimate_p99_from_sorted,
    extract_module_call_counts, extract_module_latency_stats, observation_key, seconds,
    MetricsCollector, MetricsMiddleware,
};
use apcore::observability::processor::{BatchSpanProcessor, BatchSpanProcessorConfig};
use apcore::observability::prometheus_exporter::{
    parse_target, reads_on, request_line, PrometheusExporter,
};
use apcore::observability::redaction::{
    normalize_key_for_match, DeprecationNotice, RedactionConfig, RedactionConfigError, Setting,
    CANONICAL_SENSITIVE_KEYS, DEFAULT_REPLACEMENT, LEGACY_SENSITIVE_KEYS,
};
use apcore::observability::span::{Span, SpanStatus};
use apcore::observability::storage::{default_storage_backend, InMemoryStorageBackend, StorageError};
use apcore::observability::store::{InMemoryObservabilityStore, MetricPoint};
use apcore::observability::tracing_config::{
    build_exporter, build_tracing_middleware, check_endpoint_matches_exporter, parse_strategy,
    why_no_exporter, ConfiguredExporter, NoExporter, TracingSettings, ALLOWED_EXPORTERS,
    DEFAULT_OTLP_ENDPOINT,
};
use apcore::observability::tracing_middleware::{decide, SamplingStrategy, TracingMiddleware, SAMPLED_KEY};
use apcore::observability::usage::{compute_trend, usage_key, Trend, UsageCollector, UsageMiddleware};
use apcore::observability::usage_exporter::{
    DriverAction, DriverEvent, NoopUsageExporter, PeriodicUsageExporter,
};
use apcore::rate::Rate;
use apcore::strmap::StrMap;

fn convert(v: &serde_json::Value) -> JsonValue {
    match v {
        serde_json::Value::Null => JsonValue::Null,
        serde_json::Value::Bool(b) => JsonValue::Bool(*b),
        serde_json::Value::Number(n) => JsonValue::Number(if let Some(u) = n.as_u64() {
            Number::PosInt(u)
        } else if let Some(i) = n.as_i64() {
            Number::NegInt(i)
        } else {
            Number::Float(n.to_string())
        }),
        serde_json::Value::String(s) => JsonValue::String(s.clone()),
        serde_json::Value::Array(a) => JsonValue::Array(a.iter().map(convert).collect()),
        serde_json::Value::Object(m) => {
            let mut out = StrMap::new();
            for (k, x) in m {
                out.insert(k.clone(), convert(x));
            }
            JsonValue::Object(out)
        }
    }
}

fn json(text: &str) -> JsonValue {
    convert(&serde_json::from_str(text).unwrap())
}

fn at(secs: i64) -> Timestamp {
    Timestamp { secs, nanos: 0 }
}

fn texts(v: &[&str]) -> Vec<String> {
    v.iter().map(|s| s.to_string()).collect()
}

fn boom() -> ModuleError {
    ModuleError::new(ErrorCode::ModuleExecuteError, "boom")
}

// Error history

#[test]
fn normalize_replaces_uuid() {
    let s = normalize_message("token a1b2c3d4-e5f6-7890-abcd-ef1234567890 is invalid");
    assert_eq!(s, "token <uuid> is invalid");
}

#[test]
fn normalize_replaces_integers_over_3_digits() {
    let s = normalize_message("retry after 30000 ms");
    assert_eq!(s, "retry after <id> ms");
}

#[test]
fn normalize_replaces_iso8601() {
    let s = normalize_message("at 2026-01-01T10:00:00Z something failed");
    assert_eq!(s, "at <timestamp> something failed");
}

#[test]
fn normalize_trims_and_lowers() {
    assert_eq!(normalize_message("  Some TEXT \n"), "some text");
}

#[test]
fn fingerprint_is_64_char_hex() {
    let fp = compute_fingerprint("DB_TIMEOUT", "executor.db", "connection timed out");
    assert_eq!(fp.len(), 64);
    assert!(fp.chars().all(|c| c.is_ascii_hexdigit()));
}

#[test]
fn fingerprint_dedup_normalized_messages() {
    let a = compute_fingerprint(
        "TOKEN_INVALID",
        "executor.auth",
        "token a1b2c3d4-e5f6-7890-abcd-ef1234567890 is invalid",
    );
    let b = compute_fingerprint(
        "TOKEN_INVALID",
        "executor.auth",
        "token 00000000-0000-0000-0000-000000000001 is invalid",
    );
    assert_eq!(a, b);
    assert_ne!(a, compute_fingerprint("TOKEN_INVALID", "executor.other", "x"));
}

#[test]
fn repeated_errors_count() {
    let mut history = ErrorHistory::new(10);
    let _ = history.record_at("m", &boom(), at(1));
    let entry = history.record_at("m", &boom(), at(2));
    assert_eq!(entry.count, 2);
    assert_eq!(entry.first_occurred, at(1));
    assert_eq!(entry.last_occurred, at(2));
    assert_eq!(history.count(), 1);
}

#[test]
fn the_oldest_error_leaves_a_full_history() {
    let mut history = ErrorHistory::with_limits(10, 2);
    for (i, text) in ["one", "two", "three"].iter().enumerate() {
        let error = ModuleError::new(ErrorCode::ModuleExecuteError, text);
        let _ = history.record_at("m", &error, at(i as i64));
    }
    let all = history.get_all(None);
    let messages: Vec<&str> = all.iter().map(|e| e.message.as_str()).collect();
    assert_eq!(messages, vec!["three", "two"]);
    assert_eq!(history.get("m", Some(1)).len(), 1);
}

#[test]
fn one_module_is_cleared() {
    let mut history = ErrorHistory::new(10);
    let _ = history.record_at("a", &boom(), at(1));
    let _ = history.record_at("b", &boom(), at(2));
    history.clear(Some("a"));
    assert_eq!(history.get("a", None).len(), 0);
    assert_eq!(history.get("b", None).len(), 1);
    history.clear(None);
    assert_eq!(history.count(), 0);
}

#[test]
fn the_history_middleware_has_a_name() {
    let mw = ErrorHistoryMiddleware::new(ErrorHistory::new(1));
    assert_eq!(mw.name(), "error_history");
    assert_eq!(mw.history().count(), 0);
}

// Metrics

#[test]
fn extract_module_call_counts_reads_what_increment_calls_writes() {
    let mut collector = MetricsCollector::new();
    for _ in 0..7 {
        collector.increment_calls("mod.a", "success");
    }
    for _ in 0..3 {
        collector.increment_calls("mod.a", "error");
    }
    collector.increment_calls("mod.other", "error");
    let counts = extract_module_call_counts(&collector.snapshot(), "mod.a");
    assert_eq!(counts.total, 10);
    assert_eq!(counts.errors, 3);
    let rate = counts.error_rate();
    assert!((rate.num as f64 / rate.den as f64 - 0.3).abs() < 1e-9);
}

#[test]
fn extract_module_call_counts_is_zero_for_an_unseen_module() {
    let mut collector = MetricsCollector::new();
    collector.increment_calls("mod.a", "error");
    let counts = extract_module_call_counts(&collector.snapshot(), "mod.missing");
    assert_eq!(counts.total, 0);
    assert_eq!(counts.errors, 0);
    assert_eq!(counts.error_rate().num, 0);
}

#[test]
fn extract_module_latency_stats_reads_what_observe_duration_writes() {
    let mut collector = MetricsCollector::new();
    collector.observe_duration("mod.a", 200_000_000);
    collector.observe_duration("mod.a", 200_000_000);
    let stats = extract_module_latency_stats(&collector.snapshot(), "mod.a");
    assert_eq!(stats.count, 2);
    let avg_ms = stats.sum_nanos as f64 / stats.count as f64 / 1e6;
    assert!((avg_ms - 200.0).abs() < 1e-6, "{avg_ms}");
    assert!(stats.p99_nanos > 0);
}

#[test]
fn on_error_uses_canonical_wire_code_label() {
    let mut mw = MetricsMiddleware::new(MetricsCollector::new());
    mw.on_error("demo.module", "t", &boom(), 0);
    let exported = mw.collector().export_prometheus();
    assert!(exported.contains("error_code=\"MODULE_EXECUTE_ERROR\""), "got:\n{exported}");
    assert!(!exported.contains("ModuleExecuteError"), "got:\n{exported}");
}

#[test]
fn nested_same_trace_call_records_outer_duration() {
    let mut mw = MetricsMiddleware::new(MetricsCollector::new());
    mw.before("shared-trace", 0);
    mw.before("shared-trace", 10_000_000);
    mw.after("inner", "shared-trace", 11_000_000);
    mw.after("outer", "shared-trace", 12_000_000);
    let snap = mw.collector().snapshot();
    let outer = snap.histograms.get("apcore_module_duration_seconds|module_id=outer").unwrap();
    assert_eq!(outer.sum_nanos, 12_000_000);
}

#[test]
fn a_trace_without_calls_under_way_is_forgotten() {
    let mut mw = MetricsMiddleware::new(MetricsCollector::new());
    mw.before("a", 0);
    mw.before("a", 5);
    mw.before("b", 7);
    assert_eq!(mw.pop_duration("a", 9), 4);
    assert!(mw.starts.contains_key("a"));
    mw.after("m", "a", 10);
    assert!(!mw.starts.contains_key("a"));
    assert!(mw.starts.contains_key("b"));
    mw.on_error("m", "b", &boom(), 10);
    assert_eq!(mw.starts.len(), 0);
    assert_eq!(mw.pop_duration("b", 11), 0);
    assert_eq!(mw.starts.len(), 0);
}

#[test]
fn recording_gives_the_entry_as_it_is() {
    let mut history = ErrorHistory::new(10);
    let first = history.record("m", &boom());
    let second = history.record("m", &boom());
    assert_eq!((first.count, second.count), (1, 2));
    assert_eq!(second.module_id, "m");
    assert_eq!(second.error_code, "MODULE_EXECUTE_ERROR");
    assert_eq!(second.message, boom().message);
    assert_eq!(second.first_occurred, first.timestamp);
    assert_eq!(second.last_occurred, second.timestamp);
    assert_eq!(second.fingerprint, first.fingerprint);
}

#[test]
fn a_missing_exporter_has_a_reason() {
    assert_eq!(why_no_exporter("stdout", false), None);
    assert_eq!(why_no_exporter("otlp", true), None);
    for (name, reason) in [
        ("otlp", NoExporter::CannotSend),
        ("jaeger", NoExporter::NotImplemented),
        ("zipkin", NoExporter::NotAllowed),
    ] {
        assert!(build_exporter(name, None, false).is_none());
        assert_eq!(why_no_exporter(name, false), Some(reason));
    }
    assert!(NoExporter::CannotSend.message().contains("would discard every span"));
    assert!(NoExporter::NotImplemented.message().contains("is 'jaeger', which names no implementation"));
    assert_eq!(
        NoExporter::NotAllowed.message(),
        "observability.tracing.exporter is not one of the allowed values. No tracing middleware was installed."
    );
    assert_eq!(ALLOWED_EXPORTERS, "stdout, otlp, jaeger");
}

#[test]
fn error_code_wire_str_is_screaming_snake_case() {
    assert_eq!(ErrorCode::ModuleExecuteError.wire_str(), "MODULE_EXECUTE_ERROR");
}

#[test]
fn estimate_p99_from_sorted_empty_returns_zero() {
    assert_eq!(estimate_p99_from_sorted(&Vec::new()), 0);
}

#[test]
fn estimate_p99_from_sorted_single_element() {
    assert_eq!(estimate_p99_from_sorted(&vec![42]), 42);
}

#[test]
fn estimate_p99_from_sorted_100_elements() {
    let data: Vec<u64> = (1..=100).collect();
    assert_eq!(estimate_p99_from_sorted(&data), 99);
}

#[test]
fn estimate_p99_from_sorted_two_elements() {
    assert_eq!(estimate_p99_from_sorted(&vec![10, 200]), 200);
}

#[test]
fn estimate_p99_from_histogram_empty_buckets_returns_zero() {
    assert_eq!(estimate_p99_from_histogram(&Vec::new(), 100), 0);
}

#[test]
fn estimate_p99_from_histogram_zero_count_returns_zero() {
    assert_eq!(estimate_p99_from_histogram(&vec![(Some(100_000_000), 50)], 0), 0);
}

#[test]
fn estimate_p99_from_histogram_finds_correct_bucket() {
    let buckets = vec![
        (Some(100_000_000), 90),
        (Some(500_000_000), 99),
        (Some(1_000_000_000), 100),
    ];
    assert_eq!(estimate_p99_from_histogram(&buckets, 100), 500_000_000);
}

#[test]
fn estimate_p99_from_histogram_beyond_top_bucket_returns_largest_finite_bound() {
    let buckets = vec![(Some(100_000_000), 50), (Some(500_000_000), 50), (None, 100)];
    assert_eq!(estimate_p99_from_histogram(&buckets, 100), 500_000_000);
}

#[test]
fn estimate_p99_from_histogram_ignores_the_inf_bucket_as_a_bound() {
    let buckets = vec![(Some(1_000_000_000), 1), (None, 10)];
    assert_eq!(estimate_p99_from_histogram(&buckets, 10), 1_000_000_000);
}

#[test]
fn metrics_collector_new_produces_empty_snapshot() {
    let collector = MetricsCollector::new();
    assert!(collector.snapshot().counters.is_empty());
}

#[test]
fn metrics_collector_records_calls_and_snapshot_contains_counter() {
    let mut collector = MetricsCollector::new();
    collector.increment_calls("math.add", "success");
    collector.increment_calls("math.add", "success");
    let counters = collector.snapshot().counters;
    assert!(counters.key_at(0).contains("math.add"));
    assert_eq!(*counters.value_at(0), 2);
}

#[test]
fn metrics_collector_increment_by_known_amount() {
    let mut collector = MetricsCollector::new();
    let mut labels = StrMap::new();
    labels.insert("module".to_string(), "test".to_string());
    collector.increment("my_counter", &labels, 3);
    collector.increment("my_counter", &labels, 7);
    let counters = collector.snapshot().counters;
    assert_eq!(counters.len(), 1);
    assert!(counters.key_at(0).contains("my_counter"));
    assert_eq!(*counters.value_at(0), 10);
}

#[test]
fn metrics_collector_reset_clears_all_metrics() {
    let mut collector = MetricsCollector::new();
    collector.increment_calls("m", "success");
    collector.reset();
    assert!(collector.snapshot().counters.is_empty());
}

#[test]
fn metrics_collector_observe_duration_populates_histogram() {
    let mut collector = MetricsCollector::new();
    collector.observe_duration("m", 50_000_000);
    collector.observe_duration("m", 200_000_000);
    let histograms = collector.snapshot().histograms;
    assert!(histograms.key_at(0).contains("duration"));
    assert_eq!(histograms.value_at(0).count, 2);
}

#[test]
fn labels_do_not_depend_on_their_order() {
    let mut a = StrMap::new();
    a.insert("x".to_string(), "1".to_string());
    a.insert("b".to_string(), "2".to_string());
    let sorted = sort_labels(&a);
    assert_eq!(sorted[0].0, "b");
    assert_eq!(sorted[1].0, "x");
}

#[test]
fn exported_labels_are_escaped() {
    assert_eq!(escape_prometheus_label_value("a\"b\\c\nd"), "a\\\"b\\\\c\\nd");
    assert_eq!(seconds(1_500_000_000), "1.5");
    assert_eq!(seconds(2_000_000_000), "2");
    assert_eq!(seconds(1), "0.000000001");
    assert_eq!(observation_key("n", &Timestamp { secs: 1, nanos: 7 }), "n:1000000007");
}

// Prometheus

#[test]
fn export_includes_required_metrics_when_empty() {
    let exporter = PrometheusExporter::new(MetricsCollector::new());
    let body = exporter.export(&StrMap::new());
    assert!(body.contains("apcore_module_calls_total"));
    assert!(body.contains("apcore_module_errors_total"));
    assert!(body.contains("apcore_module_duration_seconds"));
}

#[test]
fn export_includes_required_metrics_when_populated() {
    let mut collector = MetricsCollector::new();
    collector.increment_calls("mod.a", "success");
    collector.increment_errors("mod.a", "ERR");
    collector.observe_duration("mod.a", 100_000_000);
    let exporter = PrometheusExporter::new(collector);
    let body = exporter.export(&StrMap::new());
    assert!(body.contains("apcore_module_calls_total"));
    assert!(body.contains("apcore_module_errors_total"));
    assert!(body.contains("apcore_module_duration_seconds"));
    assert!(!body.contains("apcore standard metric"));
}

#[test]
fn health_and_readiness_are_served() {
    let mut exporter = PrometheusExporter::new(MetricsCollector::new());
    let none = StrMap::new();
    assert_eq!(exporter.respond("/healthz", "/metrics", &none).status, "200 OK");
    let waiting = exporter.respond("/readyz", "/metrics", &none);
    assert_eq!(waiting.status, "503 Service Unavailable");
    assert_eq!(waiting.body, "Not ready\n");
    exporter.mark_ready();
    assert_eq!(exporter.respond("/readyz", "/metrics", &none).status, "200 OK");
    exporter.mark_not_ready();
    assert_eq!(exporter.respond("/readyz", "/metrics", &none).status, "503 Service Unavailable");
    let missing = exporter.respond("/other", "/metrics", &none);
    assert_eq!(
        missing.to_text(),
        "HTTP/1.1 404 Not Found\r\nContent-Type: text/plain; charset=utf-8\r\nContent-Length: 10\r\nConnection: close\r\n\r\nNot Found\n"
    );
    let metrics = exporter.respond("/metrics", "/metrics", &none);
    assert_eq!(metrics.content_type, "text/plain; version=0.0.4; charset=utf-8");
}

#[test]
fn the_length_of_an_answer_counts_bytes() {
    let exporter = PrometheusExporter::new(MetricsCollector::new()).with_usage_collector(UsageCollector::new());
    let answer = exporter.respond("/m", "/m", &StrMap::new());
    assert!(answer.body.contains('–'));
    let expected = format!("Content-Length: {}\r\n", answer.body.len());
    assert!(answer.to_text().contains(&expected));
}

#[test]
fn requests_are_read_up_to_an_empty_line() {
    assert!(reads_on(&Vec::new()));
    assert!(reads_on(&b"GET /metrics HTTP/1.1\r\n".to_vec()));
    assert!(!reads_on(&b"GET /metrics HTTP/1.1\r\n\r\n".to_vec()));
    assert!(reads_on(&vec![b'x'; 8192]));
    assert!(!reads_on(&vec![b'x'; 8193]));
    assert_eq!(request_line("GET /x HTTP/1.1\r\nHost: a\r\n\r\n"), "GET /x HTTP/1.1");
    assert_eq!(request_line("a\rb"), "a\rb");
    assert_eq!(request_line(""), "");
    assert_eq!(parse_target("GET  /x\tHTTP/1.1").as_deref(), Some("/x"));
    assert_eq!(parse_target("GET"), None);
    assert_eq!(parse_target("   "), None);
}

// Redaction

fn field_patterns(patterns: &[&str]) -> RedactionConfig {
    RedactionConfig::builder().field_patterns(texts(patterns)).try_build().unwrap()
}

#[test]
fn field_glob_redacts_matching_field() {
    let cfg = field_patterns(&["*password*"]);
    let mut payload = json("{\"username\": \"alice\", \"user_password\": \"hunter2\"}");
    cfg.redact(&mut payload);
    assert_eq!(payload.get("username").unwrap().as_str(), Some("alice"));
    assert_eq!(payload.get("user_password").unwrap().as_str(), Some(DEFAULT_REPLACEMENT));
}

#[test]
fn value_regex_redacts_matching_value() {
    let cfg = RedactionConfig::builder().value_patterns(texts(&["^Bearer .*"])).try_build().unwrap();
    let mut payload =
        json("{\"url\": \"https://api.example.com/data\", \"authorization\": \"Bearer abc123xyz\"}");
    cfg.redact(&mut payload);
    assert_eq!(payload.get("authorization").unwrap().as_str(), Some(DEFAULT_REPLACEMENT));
    assert_eq!(payload.get("url").unwrap().as_str(), Some("https://api.example.com/data"));
}

#[test]
fn never_redact_fields_are_preserved() {
    let cfg = field_patterns(&["*"]);
    let mut payload = json(
        "{\"trace_id\": \"trace-1\", \"caller_id\": \"api.gateway\", \"module_id\": \"executor.auth\", \"other_field\": \"secret\"}",
    );
    cfg.redact(&mut payload);
    assert_eq!(payload.get("trace_id").unwrap().as_str(), Some("trace-1"));
    assert_eq!(payload.get("caller_id").unwrap().as_str(), Some("api.gateway"));
    assert_eq!(payload.get("module_id").unwrap().as_str(), Some("executor.auth"));
    assert_eq!(payload.get("other_field").unwrap().as_str(), Some(DEFAULT_REPLACEMENT));
}

#[test]
fn invalid_regex_returns_error() {
    let result = RedactionConfig::builder().value_patterns(texts(&["[invalid"])).try_build();
    assert!(result.is_err());
}

#[test]
fn an_invalid_glob_is_refused() {
    let err = RedactionConfig::builder().field_patterns(texts(&["a***b"])).try_build().unwrap_err();
    assert!(matches!(err, RedactionConfigError::InvalidFieldPattern { .. }));
    assert!(err.to_text().contains("a***b"));
}

fn absent() -> Setting {
    Setting { canonical: None, legacy: None }
}

#[test]
fn legacy_redaction_keys_emit_a_one_shot_deprecation_warning() {
    let keys = Setting { canonical: None, legacy: Some(json("[\"legacy_key\"]")) };
    let mut notice = DeprecationNotice::new();
    let (cfg, used) = RedactionConfig::from_config(&keys, &absent(), &absent());
    assert!(cfg.field_matches("legacy_key"));
    assert_eq!(used, vec![LEGACY_SENSITIVE_KEYS]);
    let logs = notice.warn(&used).unwrap_or_default();
    assert!(logs.contains(LEGACY_SENSITIVE_KEYS), "{logs}");
    assert!(logs.contains(CANONICAL_SENSITIVE_KEYS), "{logs}");
    let (_again, used) = RedactionConfig::from_config(&keys, &absent(), &absent());
    let again = notice.warn(&used).unwrap_or_default();
    assert!(!again.contains("deprecated"), "{again}");
}

#[test]
fn deprecation_names_every_key_in_use() {
    let mut notice = DeprecationNotice::new();
    assert_eq!(notice.warn(&Vec::new()), None);
    assert!(!notice.given);
    let text = Setting { canonical: None, legacy: Some(json("\"xx\"")) };
    let list = Setting { canonical: None, legacy: Some(json("[\"legacy_key\"]")) };
    let (_cfg, used) = RedactionConfig::from_config(&list, &list, &text);
    assert_eq!(
        notice.warn(&used).unwrap(),
        "[apcore] Config keys observability.redaction.sensitive_keys, \
         observability.redaction.regex_patterns, observability.redaction.replacement are deprecated; \
         use obs.redaction.sensitive_keys / obs.redaction.regex_patterns / \
         obs.redaction.replacement instead. Legacy keys will be removed in a future release."
    );
    assert!(notice.given);
    assert_eq!(notice.warn(&used), None);
}

#[test]
fn canonical_redaction_keys_emit_no_deprecation_warning() {
    let keys = Setting { canonical: Some(json("[\"canonical_key\"]")), legacy: None };
    let (cfg, used) = RedactionConfig::from_config(&keys, &absent(), &absent());
    assert!(cfg.field_matches("canonical_key"));
    assert!(used.is_empty());
    let logs = DeprecationNotice::new().warn(&used).unwrap_or_default();
    assert!(!logs.contains("deprecated"), "{logs}");
    assert_eq!(CANONICAL_SENSITIVE_KEYS, "obs.redaction.sensitive_keys");
}

#[test]
fn an_empty_list_of_sensitive_keys_overrides_the_defaults() {
    assert!(RedactionConfig::with_default_sensitive_keys().field_matches("password"));
    let keys = Setting { canonical: Some(json("[]")), legacy: None };
    let (cfg, _used) = RedactionConfig::from_config(&keys, &absent(), &absent());
    assert!(!cfg.field_matches("password"));
}

#[test]
fn redacting_twice_is_redacting_once() {
    let cfg = field_patterns(&["*password*"]);
    let mut payload = json("{\"a\": [{\"password\": {\"x\": 1}}]}");
    cfg.redact(&mut payload);
    let once = payload.clone();
    cfg.redact(&mut payload);
    assert!(payload.same(&once));
    assert_eq!(cfg.replacement(), DEFAULT_REPLACEMENT);
}

// Storage

#[test]
fn save_get_roundtrip() {
    let mut b = InMemoryStorageBackend::new();
    b.save("ns", "k", json("{\"x\": 1}")).unwrap();
    assert!(b.get("ns", "k").unwrap().unwrap().same(&json("{\"x\": 1}")));
}

#[test]
fn delete_is_idempotent_for_missing_keys() {
    let mut b = InMemoryStorageBackend::new();
    b.delete("ns", "absent").unwrap();
    b.save("ns", "k", json("1")).unwrap();
    b.delete("ns", "absent").unwrap();
    assert!(b.get("ns", "k").unwrap().unwrap().same(&json("1")));
    b.delete("ns", "k").unwrap();
    assert!(b.get("ns", "k").unwrap().is_none());
}

#[test]
fn list_returns_only_prefix_matches() {
    let mut b = default_storage_backend();
    b.save("ns", "user/1", json("1")).unwrap();
    b.save("ns", "post/1", json("2")).unwrap();
    let got = b.list("ns", "user/").unwrap();
    assert_eq!(got.len(), 1);
    assert_eq!(got[0].0, "user/1");
    assert_eq!(b.list("ns", "").unwrap().len(), 2);
    assert!(b.list("other", "").unwrap().is_empty());
}

#[test]
fn namespaces_are_isolated() {
    let mut b = InMemoryStorageBackend::default();
    b.save("a", "k", json("1")).unwrap();
    b.save("b", "k", json("2")).unwrap();
    assert!(b.get("a", "k").unwrap().unwrap().same(&json("1")));
    assert!(b.get("b", "k").unwrap().unwrap().same(&json("2")));
}

#[test]
fn storage_errors_say_why() {
    assert_eq!(StorageError::Backend("x".to_string()).to_text(), "storage backend error: x");
}

#[test]
fn records_are_found_in_a_store() {
    let mut store = InMemoryObservabilityStore::new();
    let mut history = ErrorHistory::new(10);
    store.record_error(history.record_at("a", &boom(), at(1)));
    store.record_error(history.record_at("b", &boom(), at(2)));
    assert_eq!(store.get_errors(Some("a"), None).len(), 1);
    assert_eq!(store.get_errors(None, Some(1))[0].module_id, "a");
    store.record_metric(MetricPoint::new("n", Number::Float("1.5".to_string())).with_module_id("a"));
    store.record_metric(MetricPoint::new("m", Number::PosInt(2)).with_labels(StrMap::new()));
    assert_eq!(store.get_metrics(Some("a"), None).len(), 1);
    assert_eq!(store.get_metrics(None, Some("m")).len(), 1);
    assert_eq!(store.get_metrics(Some("a"), Some("m")).len(), 0);
    store.flush();
    store.clear();
    assert!(store.get_errors(None, None).is_empty());
    assert_eq!(store.kind_name(), "InMemoryObservabilityStore");
}

// Spans

fn trace(mw: &mut TracingMiddleware, module_id: &str, trace_id: &str) {
    mw.before(module_id, trace_id, None, &StrMap::new());
}

fn finish(mw: &mut TracingMiddleware, trace_id: &str) -> Option<Span> {
    mw.after(trace_id, &StrMap::new(), &at(1_700_000_000), 0)
}

#[test]
fn test_nested_spans_parent_child_linking() {
    let mut exporter = InMemoryExporter::new();
    let mut mw = TracingMiddleware::new();
    trace(&mut mw, "mod_a", "trace-1");
    trace(&mut mw, "mod_b", "trace-1");
    exporter.export(&finish(&mut mw, "trace-1").unwrap()).unwrap();
    exporter.export(&finish(&mut mw, "trace-1").unwrap()).unwrap();
    let spans = exporter.get_spans();
    assert_eq!(spans.len(), 2, "expected 2 exported spans");
    let span_b = &spans[0];
    let span_a = &spans[1];
    assert_eq!(span_b.attributes.get("module_id").unwrap().as_str(), Some("mod_b"));
    assert_eq!(span_a.attributes.get("module_id").unwrap().as_str(), Some("mod_a"));
    assert_eq!(
        span_b.parent_span_id.as_ref().unwrap(),
        &span_a.span_id,
        "inner span should reference outer span as parent"
    );
    assert!(span_a.parent_span_id.is_none(), "root span should have no parent");
}

#[test]
fn test_nested_spans_cleanup_after_all_pops() {
    let mut mw = TracingMiddleware::new();
    trace(&mut mw, "mod_a", "trace-cleanup");
    trace(&mut mw, "mod_b", "trace-cleanup");
    let _ = finish(&mut mw, "trace-cleanup");
    assert!(mw.spans.contains_key("trace-cleanup"));
    let _ = finish(&mut mw, "trace-cleanup");
    assert!(!mw.spans.contains_key("trace-cleanup"));
    assert!(!mw.sampling.contains_key("trace-cleanup"));
}

#[test]
fn test_sampling_decision_inherited_from_parent() {
    let mut mw = TracingMiddleware::with_sampling(SamplingStrategy::Always, Rate { num: 1, den: 1 });
    trace(&mut mw, "mod_a", "trace-inherit");
    assert_eq!(mw.sampling.get("trace-inherit"), Some(&true));
    trace(&mut mw, "mod_b", "trace-inherit");
    assert_eq!(mw.sampling.get("trace-inherit"), Some(&true));
    let _ = finish(&mut mw, "trace-inherit");
    let _ = finish(&mut mw, "trace-inherit");
}

#[test]
fn test_sampling_never_does_not_export() {
    let mut mw = TracingMiddleware::with_sampling(SamplingStrategy::Never, Rate { num: 0, den: 1 });
    trace(&mut mw, "mod_a", "trace-never");
    assert!(finish(&mut mw, "trace-never").is_none());
}

#[test]
fn failures_come_first_whatever_the_rate() {
    let mut mw = TracingMiddleware::with_sampling(SamplingStrategy::ErrorFirst, Rate { num: 0, den: 1 });
    trace(&mut mw, "m", "t");
    let span = mw.on_error("t", &boom(), &StrMap::new(), &at(1_700_000_000), 0).unwrap();
    assert_eq!(span.status, SpanStatus::Error);
    assert_eq!(span.attributes.get("error_code").unwrap().as_str(), Some("ModuleExecuteError"));
    assert_eq!(span.events[0].name, "exception");
    trace(&mut mw, "m", "t");
    assert!(finish(&mut mw, "t").is_none());
}

#[test]
fn a_handed_down_decision_is_followed() {
    let mut data = StrMap::new();
    data.insert(SAMPLED_KEY.to_string(), JsonValue::Bool(false));
    let mut mw = TracingMiddleware::new();
    mw.before("m", "t", Some("c"), &data);
    assert!(mw.sampling.is_empty());
    assert!(mw.after("t", &data, &at(1_700_000_000), 0).is_none());
    assert!(decide(SamplingStrategy::Probabilistic, Rate { num: 1, den: 2 }, 0));
    assert!(!decide(SamplingStrategy::Probabilistic, Rate { num: 1, den: 2 }, 0x8000_0000_0000));
}

#[test]
fn spans_tell_how_long_they_took() {
    let mut mw = TracingMiddleware::new();
    let start = Timestamp { secs: 10, nanos: 250_000_000 };
    let end = Timestamp { secs: 12, nanos: 0 };
    mw.before_with("m", "t", None, &StrMap::new(), "id".to_string(), &start, 0);
    let span = mw.after("t", &StrMap::new(), &end, 0).unwrap();
    assert_eq!(span.start_ms, 10_250);
    assert_eq!(span.end_ms, Some(12_000));
    match span.attributes.get("duration_ms").unwrap() {
        JsonValue::Number(Number::Float(t)) => assert_eq!(t, "1750.0"),
        _ => panic!("expected a number"),
    }
}

#[test]
fn a_new_span_has_a_random_identifier() {
    let mut span = Span::new("work", "trace");
    assert_eq!(span.span_id.len(), 16);
    assert_eq!(span.status, SpanStatus::Unset);
    span.set_attribute("k", JsonValue::uint(1));
    span.add_event("e");
    span.end();
    assert!(span.end_ms.unwrap() >= span.start_ms);
    assert_ne!(span.span_id, Span::new("work", "trace").span_id);
}

#[test]
fn memory_keeps_the_latest_spans() {
    let mut exporter = InMemoryExporter::with_max_spans(2);
    for name in ["a", "b", "c"] {
        let span = Span::new_at(name, "t", name.to_string(), &at(1));
        exporter.export(&span).unwrap();
    }
    let names: Vec<String> = exporter.get_spans().into_iter().map(|s| s.name).collect();
    assert_eq!(names, vec!["b", "c"]);
    exporter.clear();
    assert!(exporter.get_spans().is_empty());
    assert_eq!(InMemoryExporter::default().max_spans, 1000);
}

#[test]
fn spans_are_written_for_a_collector() {
    let mut span = Span::new_at("work", "trace", "0123456789abcdef".to_string(), &at(5));
    span.set_attribute("n", JsonValue::uint(7));
    span.set_attribute("s", JsonValue::str("x"));
    span.parent_span_id = Some("p".to_string());
    span.status = SpanStatus::Okay;
    span.end_at(&at(6));
    let otlp = span_to_otlp(&span);
    assert_eq!(otlp.get("startTimeUnixNano").unwrap().as_u64(), Some(5_000_000_000));
    assert_eq!(otlp.get("endTimeUnixNano").unwrap().as_u64(), Some(6_000_000_000));
    assert_eq!(otlp.get("parentSpanId").unwrap().as_str(), Some("p"));
    assert_eq!(otlp.get("status").unwrap().get("code").unwrap().as_u64(), Some(1));
    let attributes = otlp.get("attributes").unwrap().as_array().unwrap();
    assert_eq!(attributes[0].get("value").unwrap().get("stringValue").unwrap().as_str(), Some("7"));
    assert_eq!(attributes[1].get("value").unwrap().get("stringValue").unwrap().as_str(), Some("\"x\""));
    let payload = OTLPExporter::new("http://c:4318").payload(&span);
    assert!(payload.get("resourceSpans").is_some());
}

#[test]
fn traces_are_posted_below_the_endpoint() {
    assert_eq!(OTLPExporter::new("http://c:4318").url(), "http://c:4318/v1/traces");
    assert_eq!(OTLPExporter::new(DEFAULT_OTLP_ENDPOINT).url(), DEFAULT_OTLP_ENDPOINT);
    let err = OTLPExporter::new("x").failure("refused");
    assert_eq!(err.message, "OTLP export failed: refused");
    assert_eq!(StdoutExporter.failure("y").message, "Failed to serialize span: y");
}

#[test]
fn spans_are_collected_in_batches() {
    let config = BatchSpanProcessorConfig::default();
    assert_eq!(config.max_queue_size, 2048);
    assert_eq!(config.schedule_delay_ms, 5000);
    assert_eq!(config.max_export_batch_size, 512);
    assert_eq!(config.export_timeout_ms, 30000);
    let mut p = BatchSpanProcessor::builder().max_queue_size(3).max_export_batch_size(2).build();
    for name in ["a", "b", "c", "d"] {
        p.on_span_end(Span::new_at(name, "t", name.to_string(), &at(1)));
    }
    assert_eq!(p.queue_size(), 3);
    assert_eq!(p.spans_dropped(), 1);
    assert_eq!(p.max_queue_size(), 3);
    let names: Vec<String> = p.flush_batch().into_iter().map(|s| s.name).collect();
    assert_eq!(names, vec!["a", "b"]);
    assert!(!p.worker_may_end(true));
    assert!(p.signal_shutdown());
    assert!(!p.signal_shutdown());
    assert_eq!(p.drain().len(), 1);
    assert!(p.worker_may_end(true));
}

fn settings(exporter: &str, endpoint: Option<&str>) -> TracingSettings {
    TracingSettings {
        enabled: true,
        exporter: exporter.to_string(),
        otlp_endpoint: endpoint.map(|s| s.to_string()),
        strategy: "error_first".to_string(),
        sampling_rate: Rate { num: 5, den: 4 },
    }
}

#[test]
fn tracing_is_built_as_configured() {
    let t = build_tracing_middleware(&settings("otlp", None), true).unwrap().unwrap();
    assert_eq!(t.middleware.sampling_strategy, SamplingStrategy::ErrorFirst);
    assert_eq!(t.middleware.sampling_rate, Rate { num: 4, den: 4 });
    match t.exporter {
        ConfiguredExporter::Otlp(o) => assert_eq!(o.endpoint, DEFAULT_OTLP_ENDPOINT),
        ConfiguredExporter::Stdout(_) => panic!("expected OTLP"),
    }
    assert!(build_tracing_middleware(&settings("otlp", None), false).unwrap().is_none());
    assert!(build_tracing_middleware(&settings("jaeger", None), true).unwrap().is_none());
    assert!(build_tracing_middleware(&settings("stdout", None), true).unwrap().is_some());
    let mut off = settings("stdout", Some("http://x"));
    off.enabled = false;
    assert!(build_tracing_middleware(&off, true).unwrap().is_none());
}

#[test]
fn an_endpoint_that_nothing_reads_is_refused() {
    let err = build_tracing_middleware(&settings("stdout", Some("http://x")), true).unwrap_err();
    assert_eq!(err.code, ErrorCode::ConfigInvalid);
    assert!(err.message.contains("'stdout', which does not read it"));
    assert!(check_endpoint_matches_exporter("otlp", Some("http://x")).is_ok());
    for s in [
        SamplingStrategy::Always,
        SamplingStrategy::Probabilistic,
        SamplingStrategy::ErrorFirst,
        SamplingStrategy::Never,
    ] {
        assert_eq!(parse_strategy(s.as_str()), s);
    }
    assert_eq!(parse_strategy("unknown"), SamplingStrategy::Always);
}

// Logging

#[test]
fn records_tell_of_their_call() {
    let logger = ContextLogger::from_context("t-1", &texts(&["a", "b"]), Some("c"), "log");
    let mut extra = StrMap::new();
    extra.insert("level".to_string(), JsonValue::str("mine"));
    extra.insert("_secret_x".to_string(), JsonValue::str("s"));
    let line = logger.line("INFO", "hello", Some(&extra), &at(0)).unwrap();
    let record: serde_json::Value = serde_json::from_str(&line).unwrap();
    assert_eq!(record["level"], "info");
    assert_eq!(record["timestamp"], "1970-01-01T00:00:00+00:00");
    assert_eq!(record["logger"], "log");
    assert_eq!(record["trace_id"], "t-1");
    assert_eq!(record["module_id"], "b");
    assert_eq!(record["caller_id"], "c");
    assert_eq!(record["extra"]["level"], "mine");
    assert_eq!(record["extra"]["_secret_x"], "***REDACTED***");
}

#[test]
fn lines_of_text_tell_of_their_call() {
    let mut logger = ContextLogger::new("log");
    logger.set_format(LogFormat::Text);
    logger.set_level("Warning");
    assert!(logger.info("no").is_none());
    assert!(logger.error("yes").is_some());
    logger.trace_id = Some("t".to_string());
    logger.module_id = Some("m".to_string());
    assert_eq!(
        logger.line("warn", "hi", None, &at(0)).unwrap(),
        "1970-01-01T00:00:00+00:00 WARN log [trace=t module=m] hi"
    );
    assert_eq!(level_value("FATAL"), 50);
    assert_eq!(level_value("other"), 20);
}

#[test]
fn calls_are_logged_with_their_duration() {
    let mut logger = ContextLogger::new("log");
    logger.set_format(LogFormat::Text);
    let mut mw = ObsLoggingMiddleware::new(logger);
    assert_eq!(mw.name(), "logging");
    let line = mw.before("m", &json("{}"), "t", None, 1_000_000, &at(0)).unwrap();
    assert!(line.ends_with(" Starting m"));
    let line = mw.after("m", &json("{}"), "t", 13_346_000, &at(0)).unwrap();
    assert!(line.ends_with(" Completed m in 12.35ms"), "{line}");
    let line = mw.on_error("m", &boom(), "t", 5, &at(0)).unwrap();
    assert!(line.ends_with(" Error in m after 0.00ms: boom"), "{line}");
}

#[test]
fn logged_inputs_are_redacted() {
    let mut mw = ObsLoggingMiddleware::with_options(ContextLogger::new("log"), true, false)
        .with_redaction_config(field_patterns(&["*password*"]));
    let line = mw.before("m", &json("{\"password\": \"x\"}"), "t", Some("c"), 0, &at(0)).unwrap();
    let record: serde_json::Value = serde_json::from_str(&line).unwrap();
    assert_eq!(record["extra"]["inputs"]["password"], DEFAULT_REPLACEMENT);
    assert_eq!(record["extra"]["caller_id"], "c");
    let line = mw.after("m", &json("{}"), "t", 1_500_000, &at(0)).unwrap();
    let record: serde_json::Value = serde_json::from_str(&line).unwrap();
    assert_eq!(record["extra"]["duration_ms"], 1.5);
    assert!(record["extra"]["output"].is_null());
}

// Usage

#[test]
fn uses_are_summarised() {
    let mut usage = UsageCollector::new();
    usage.record_at("m", Some("a"), 1_000_000, true, at(0));
    usage.record_at("m", Some("b"), 3_000_000, false, at(3600));
    usage.record_at("m", None, 2_000_000, true, at(3601));
    let s = usage.get_module_summary("m").unwrap();
    assert_eq!(s.call_count, 3);
    assert_eq!(s.error_count, 1);
    assert_eq!(s.total_latency_nanos, 6_000_000);
    assert_eq!(s.unique_callers, 2);
    assert_eq!(s.trend, Trend::Stable);
    assert!(usage.get_module_summary("other").is_none());
    assert_eq!(usage.get_all_summaries().len(), 1);
    let hours = usage.get_hourly_distribution("m");
    assert_eq!(hours.len(), 2);
    assert_eq!(hours[0].hour, "1970-01-01T00:00:00Z");
    assert_eq!(hours[1].hour, "1970-01-01T01:00:00Z");
    assert_eq!(hours[1].call_count, 2);
    assert_eq!(hours[1].error_count, 1);
    assert_eq!(usage.get_p99_latency_nanos("m"), 3_000_000);
    let callers = usage.get_caller_breakdown("m");
    assert_eq!(callers.len(), 3);
    assert!(callers.iter().any(|c| c.caller_id == "unknown" && c.call_count == 1));
    usage.reset();
    assert!(usage.get_all_summaries().is_empty());
}

#[test]
fn trends_compare_two_periods() {
    assert_eq!(compute_trend(0, 0).as_str(), "stable");
    assert_eq!(compute_trend(0, 1).as_str(), "inactive");
    assert_eq!(compute_trend(1, 0).as_str(), "new");
    assert_eq!(compute_trend(13, 10).as_str(), "rising");
    assert_eq!(compute_trend(12, 10).as_str(), "stable");
    assert_eq!(compute_trend(8, 10).as_str(), "stable");
    assert_eq!(compute_trend(7, 10).as_str(), "declining");
    let mut usage = UsageCollector::new();
    usage.record_at("m", None, 0, true, at(5));
    usage.record_at("m", None, 0, true, at(15));
    usage.record_at("m", None, 0, true, at(16));
    let r = usage.summaries_between(&at(0), &at(10), &at(20));
    assert_eq!(r[0].call_count, 2);
    assert_eq!(r[0].trend, Trend::Rising);
    assert_eq!(usage.get_summary_for_period(None)[0].call_count, 3);
    let recent = usage.get_summary_for_period(Some(1_000_000_000));
    assert_eq!(recent[0].call_count, 0);
    assert_eq!(recent[0].trend, Trend::Stable);
}

#[test]
fn only_the_latest_hours_are_kept() {
    let mut usage = UsageCollector::new();
    for h in 0..170 {
        usage.record_at("m", None, 1, true, at(h * 3600));
    }
    let hours = usage.get_hourly_distribution("m");
    assert_eq!(hours.len(), 168);
    assert_eq!(hours[0].hour, "1970-01-01T02:00:00Z");
    usage.record_at("m", None, 1, true, at(-1));
    assert_eq!(usage.get_hourly_distribution("m").len(), 168);
    assert_eq!(usage.get_module_summary("m").unwrap().call_count, 168);
}

#[test]
fn usage_is_exported_in_order() {
    let mut usage = UsageCollector::new();
    usage.record_at("b", None, 2_500_000, true, at(0));
    usage.record_at("a", None, 1_000_000, false, at(0));
    let mut rates = StrMap::new();
    rates.insert("a".to_string(), "1".to_string());
    let text = usage.export_prometheus(&rates);
    assert!(text.starts_with("# HELP apcore_usage_calls_total Total module call count by status\n"));
    let a = text.find("module_id=\"a\"").unwrap();
    let b = text.find("module_id=\"b\"").unwrap();
    assert!(a < b);
    assert!(text.contains("apcore_usage_calls_total{module_id=\"a\",status=\"error\"} 1\n"));
    assert!(text.contains("apcore_usage_error_rate{module_id=\"a\"} 1\n"));
    assert!(text.contains("apcore_usage_error_rate{module_id=\"b\"} 0\n"));
    assert!(text.contains("apcore_usage_p99_latency_ms{module_id=\"b\"} 2.5\n"));
    assert_eq!(usage_key("m", &Timestamp { secs: 1, nanos: 5 }), "m:1000000005");
    assert_eq!(usage_key("m", &at(-1)), "m:-1000000000");
}

#[test]
fn calls_are_recorded_as_uses() {
    let mut mw = UsageMiddleware::new(UsageCollector::new());
    assert_eq!(mw.name(), "usage");
    mw.before("t", 100);
    mw.after("m", "t", Some("c"), 160, at(1));
    mw.on_error("m", "t", None, 170, at(2));
    let s = mw.collector().get_module_summary("m").unwrap();
    assert_eq!(s.call_count, 2);
    assert_eq!(s.error_count, 1);
    assert_eq!(s.total_latency_nanos, 60);
    let mut direct = UsageCollector::new();
    direct.record("m", None, 5, true);
    assert_eq!(direct.get_module_summary("m").unwrap().call_count, 1);
}

// Export of usage

#[test]
fn noop_exporter_returns_ok() {
    let exporter = NoopUsageExporter;
    exporter.export(&JsonValue::Null).unwrap();
    exporter.shutdown().unwrap();
}

#[test]
fn periodic_driver_calls_exporter() {
    let mut driver = PeriodicUsageExporter::new(25);
    let mut exports = 0;
    let mut shutdowns = 0;
    assert_eq!(driver.step(DriverEvent::Start), DriverAction::Spawn);
    for _ in 0..4 {
        if driver.step(DriverEvent::Tick) == DriverAction::Export {
            exports += 1;
        }
    }
    for _ in 0..2 {
        if driver.step(DriverEvent::Stop) == DriverAction::Cancel {
            shutdowns += 1;
        }
    }
    assert!(exports >= 2);
    assert_eq!(shutdowns, 1);
    assert_eq!(driver.step(DriverEvent::Tick), DriverAction::Nothing);
}

#[test]
fn periodic_driver_double_start_is_idempotent() {
    let mut driver = PeriodicUsageExporter::new(25);
    assert_eq!(driver.step(DriverEvent::Start), DriverAction::Spawn);
    assert_eq!(driver.step(DriverEvent::Start), DriverAction::Nothing);
    assert_eq!(driver.step(DriverEvent::Stop), DriverAction::Cancel);
}

#[test]
fn a_stop_without_a_start_shuts_down_once() {
    let mut driver = PeriodicUsageExporter::new(25);
    assert_eq!(driver.step(DriverEvent::Stop), DriverAction::Cancel);
    assert_eq!(driver.step(DriverEvent::Stop), DriverAction::Nothing);
    assert_eq!(driver.step(DriverEvent::Start), DriverAction::Spawn);
    assert_eq!(driver.step(DriverEvent::Stop), DriverAction::Cancel);
    assert_eq!(driver.step(DriverEvent::Stop), DriverAction::Nothing);
}

#[test]
fn normal_names_have_one_form() {
    for s in ["AccessKey", "access-key", "ACCESS KEY", "access\u{2003}key"] {
        assert_eq!(normalize_key_for_match(s), "access_key");
    }
    for s in ["Pass-Word\tX", "\u{130}d\u{a0}\u{3a3}\u{391}\u{3a3} Z", "aB-\u{1e9e}"] {
        let once = normalize_key_for_match(s);
        assert!(!once.chars().any(|c| c.is_ascii_uppercase() || c == '-' || c.is_whitespace()));
        assert_eq!(normalize_key_for_match(&once), once);
    }
}

#[test]
fn measurements_go_to_the_store_of_their_module() {
    let mut mw = MetricsMiddleware::new(MetricsCollector::new());
    mw.before("t", 1_000_000_000);
    let points = mw.on_error("mod.a", "t", &boom(), 2_500_000_000);
    let names: Vec<&str> = points.iter().map(|p| p.name.as_str()).collect();
    assert_eq!(
        names,
        vec!["apcore_module_calls_total", "apcore_module_errors_total", "apcore_module_duration_seconds"]
    );
    assert!(matches!(points[0].value, Number::PosInt(1)));
    assert_eq!(points[1].labels.get("error_code").map(|s| s.as_str()), Some("MODULE_EXECUTE_ERROR"));
    assert!(matches!(&points[2].value, Number::Float(t) if t == "1.5"));
    let mut store = InMemoryObservabilityStore::new();
    for p in points {
        assert_eq!(p.module_id.as_deref(), Some("mod.a"));
        store.record_metric(p);
    }
    assert_eq!(store.get_metrics(Some("mod.a"), None).len(), 3);
    let other = MetricPoint::observed("n", &StrMap::new(), Number::PosInt(2));
    assert!(other.module_id.is_none());
    mw.before("t", 0);
    assert_eq!(mw.after("mod.a", "t", 1).len(), 2);
}

#[test]
fn a_use_is_given_back_for_a_storage() {
    let mut mw = UsageMiddleware::new(UsageCollector::new());
    mw.before("t", 5);
    let record = mw.after("mod.a", "t", Some("me"), 12, at(3600));
    assert_eq!(record.latency_nanos, 7);
    assert_eq!(record.caller_id.as_deref(), Some("me"));
    assert!(record.success);
    let now = mw.collector.record("mod.a", None, 1, false);
    assert!(!now.success);
    assert_eq!(mw.collector().get_module_summary("mod.a").unwrap().call_count, 2);
}
