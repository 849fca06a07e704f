use apcore::clock::Timestamp;
use apcore::decimals::{fraction, signed};
use apcore::error_code::ErrorCode;
use apcore::errors::{ErrorCodeRegistry, ModuleError, SchemaValidationError};
use apcore::json::{to_text, JsonValue, Number};
use apcore::rate::Rate;
use apcore::strmap::StrMap;
use apcore::strset::StrSet;
use apcore::text::is_white_space;
use apcore::wildcard::matches_wildcard;

fn convert(v: &serde_json::Value) -> JsonValue {
    match v {
        serde_json::Value::Null => JsonValue::Null,
        serde_json::Value::Bool(b) => JsonValue::Bool(*b),
        serde_json::Value::Number(n) => JsonValue::Number(if let Some(u) = n.as_u64() {
            Number::PosInt(u)
        } else if let Some(i) = n.as_i64() {
            Number::NegInt(i)
        } else {
            Number::Float(n.to_string())
        }),
        serde_json::Value::String(s) => JsonValue::String(s.clone()),
        serde_json::Value::Array(a) => JsonValue::Array(a.iter().map(convert).collect()),
        serde_json::Value::Object(m) => {
            let mut out = StrMap::new();
            for (k, x) in m {
                out.insert(k.clone(), convert(x));
            }
            JsonValue::Object(out)
        }
    }
}

fn json(text: &str) -> JsonValue {
    convert(&serde_json::from_str(text).unwrap())
}

#[test]
fn an_error_survives_its_dictionary() {
    let e = ModuleError::new(ErrorCode::ACLDenied, "no")
        .with_trace_id("t")
        .with_cause("c")
        .with_retryable(true)
        .with_suggestion("s")
        .with_ai_guidance("g");
    let back = ModuleError::from_dict(&e.to_dict()).unwrap();
    assert_eq!(back.code, ErrorCode::ACLDenied);
    assert_eq!(back.message, "no");
    assert_eq!(back.trace_id.as_deref(), Some("t"));
    assert_eq!(back.retryable, Some(true));
    assert_eq!(back.suggestion.as_deref(), Some("s"));
    assert_eq!(back.ai_guidance.as_deref(), Some("g"));
    assert!(ModuleError::from_dict(&JsonValue::Null).is_none());
}

#[test]
fn codes_are_found_by_their_wire_names() {
    assert_eq!(ErrorCode::from_wire("MODULE_EXECUTE_ERROR"), Some(ErrorCode::ModuleExecuteError));
    assert_eq!(ErrorCode::from_wire("nope"), None);
    assert_eq!(ErrorCode::ModuleExecuteError.name(), "ModuleExecuteError");
}

#[test]
fn a_step_error_keeps_its_cause() {
    let cause = ModuleError::new(ErrorCode::ModuleTimeout, "late");
    let e = ModuleError::pipeline_step_error("execute", &cause);
    assert_eq!(e.step_name(), Some("execute"));
    assert_eq!(e.unwrap_pipeline_step_error().unwrap().code, ErrorCode::ModuleTimeout);
    assert!(ModuleError::new(ErrorCode::ACLDenied, "x").unwrap_pipeline_step_error().is_none());
}

#[test]
fn modules_own_their_codes() {
    let mut registry = ErrorCodeRegistry::new();
    let mut codes = StrSet::new();
    codes.insert("MY_CODE".to_string());
    registry.register("a", &codes).unwrap();
    assert!(registry.all_codes().contains("MY_CODE"));
    assert!(registry.register("b", &codes).is_err());
    registry.unregister("a");
    assert!(registry.codes_for_module("a").is_none());
    assert!(registry.register("b", &codes).is_ok());
}

#[test]
fn framework_codes_are_reserved() {
    let mut registry = ErrorCodeRegistry::default();
    let mut codes = StrSet::new();
    codes.insert("MODULE_MINE".to_string());
    let err = registry.register("a", &codes).unwrap_err();
    assert_eq!(err.code, ErrorCode::ErrorCodeCollision);
}

#[test]
fn schema_errors_become_module_errors() {
    let mut failure = StrMap::new();
    failure.insert("field".to_string(), "/a".to_string());
    let e = SchemaValidationError::new("bad", vec![failure]).to_module_error();
    assert_eq!(e.code, ErrorCode::SchemaValidationError);
    assert!(e.details.contains_key("errors"));
}

#[test]
fn values_are_written_as_json() {
    let v = json("{\"b\": [1, -2, 2.5, null, true], \"a\": \"x\\\"y\"}");
    let text = to_text(&v);
    let back: serde_json::Value = serde_json::from_str(&text).unwrap();
    let expected: serde_json::Value =
        serde_json::from_str("{\"a\": \"x\\\"y\", \"b\": [1, -2, 2.5, null, true]}").unwrap();
    assert_eq!(back, expected);
    assert!(v.same(&json(&text)));
    assert!(!v.same(&json("{}")));
}

#[test]
fn maps_keep_the_order_of_insertion() {
    let mut m = StrMap::new();
    m.insert("b".to_string(), 1);
    m.insert("a".to_string(), 2);
    m.insert("b".to_string(), 3);
    assert_eq!(m.len(), 2);
    assert_eq!(m.key_at(0), "b");
    assert_eq!(m.get("b"), Some(&3));
    assert_eq!(m.remove("b"), Some(3));
    assert_eq!(m.position("a"), Some(0));
}

#[test]
fn decimals_are_written_without_trailing_zeros() {
    assert_eq!(fraction(12, 500_000, 6), "12.5");
    assert_eq!(fraction(0, 1, 6), "0.000001");
    assert_eq!(fraction(7, 0, 6), "7");
    assert_eq!(signed(-42), "-42");
    assert_eq!(signed(0), "0");
}

#[test]
fn times_are_ordered_and_shifted() {
    let a = Timestamp { secs: 10, nanos: 500_000_000 };
    let b = a.minus(1_500_000_001);
    assert_eq!(b, Timestamp { secs: 8, nanos: 999_999_999 });
    assert!(b.is_before(&a));
    assert_eq!(a.millis_since(&b), 1500);
    assert_eq!(b.millis_since(&a), 0);
    assert_eq!(b.minus(-1_500_000_001), a);
}

#[test]
fn rates_are_compared_without_rounding() {
    let third = Rate { num: 1, den: 3 };
    assert!(third.reached_by(1, 3));
    assert!(!third.reached_by(33_333_333, 100_000_000));
    assert!(third.half_exceeds(16, 100));
    assert!(!third.half_exceeds(17, 100));
}

#[test]
fn stars_stand_for_anything() {
    assert!(matches_wildcard("*", ""));
    assert!(matches_wildcard("a*c", "abbc"));
    assert!(!matches_wildcard("a*c", "abb"));
    assert!(matches_wildcard("plain", "plain"));
}

#[test]
fn errors_are_made_for_their_causes() {
    let made = [
        (ModuleError::config_namespace_duplicate("n"), ErrorCode::ConfigNamespaceDuplicate, "Namespace 'n' is already registered"),
        (ModuleError::config_namespace_reserved("n"), ErrorCode::ConfigNamespaceReserved, "Namespace 'n' is reserved"),
        (ModuleError::config_env_prefix_conflict("P"), ErrorCode::ConfigEnvPrefixConflict, "env_prefix 'P' conflicts with reserved pattern"),
        (ModuleError::config_env_map_conflict("V", "o"), ErrorCode::ConfigEnvMapConflict, "Environment variable 'V' is already mapped by 'o'"),
        (ModuleError::config_mount_error("n", "r"), ErrorCode::ConfigMountError, "Mount failed for 'n': r"),
        (ModuleError::config_bind_error("n", "r"), ErrorCode::ConfigBindError, "Bind failed for 'n': r"),
        (ModuleError::error_formatter_duplicate("a"), ErrorCode::ErrorFormatterDuplicate, "ErrorFormatter for adapter 'a' is already registered"),
        (ModuleError::pipeline_abort("s", None), ErrorCode::PipelineAbort, "Pipeline aborted at step 's': no explanation"),
        (ModuleError::step_not_found("m"), ErrorCode::StepNotFound, "m"),
        (ModuleError::step_not_removable("m"), ErrorCode::StepNotRemovable, "m"),
        (ModuleError::step_not_replaceable("m"), ErrorCode::StepNotReplaceable, "m"),
        (ModuleError::step_name_duplicate("m"), ErrorCode::StepNameDuplicate, "m"),
        (ModuleError::strategy_not_found("m"), ErrorCode::StrategyNotFound, "m"),
    ];
    for (error, code, message) in made {
        assert_eq!(error.code, code);
        assert_eq!(error.message, message);
    }
}

#[test]
fn errors_of_identifiers_name_what_is_wrong() {
    let classes = vec!["A".to_string(), "B".to_string()];
    let conflict = ModuleError::module_id_conflict("f.py", &classes, "x");
    assert_eq!(conflict.code, ErrorCode::ModuleIdConflict);
    assert_eq!(
        conflict.message,
        "Module ID conflict in 'f.py': classes [\"A\", \"B\"] both produce segment 'x'"
    );
    let segment = ModuleError::invalid_segment("f.py", "A", "1");
    assert_eq!(segment.code, ErrorCode::InvalidSegment);
    let long = ModuleError::id_too_long("f.py", "abc");
    assert_eq!(long.message, "Derived module_id 'abc' exceeds maximum length of 192 characters");
    let open = ModuleError::circuit_breaker_open("m", "c");
    assert_eq!(open.code, ErrorCode::CircuitBreakerOpen);
}

#[test]
fn the_time_of_an_error_survives_its_dictionary() {
    let time = Timestamp { secs: 1_700_000_000, nanos: 123_000_000 };
    let e = ModuleError::at(ErrorCode::ACLDenied, "no".to_string(), time);
    let dict = e.to_dict();
    let text = dict.get("timestamp").unwrap().as_str().unwrap();
    assert!(text.starts_with("2023-11-14T22:13:20.123"));
    assert_eq!(ModuleError::from_dict(&dict).unwrap().timestamp, time);
}

#[test]
fn an_error_reads_from_a_list_of_its_fields() {
    let text = |s: &str| JsonValue::String(s.to_string());
    let mut fields = vec![
        text("ACL_DENIED"),
        text("no"),
        JsonValue::Object(StrMap::new()),
        JsonValue::Null,
        text("t"),
        text("2024-01-01T00:00:00Z"),
        JsonValue::Bool(true),
        JsonValue::Null,
        JsonValue::Null,
        text("ask"),
    ];
    let e = ModuleError::from_dict(&JsonValue::Array(fields.iter().map(|v| v.clone()).collect())).unwrap();
    assert_eq!(e.code, ErrorCode::ACLDenied);
    assert_eq!(e.trace_id.as_deref(), Some("t"));
    assert_eq!(e.retryable, Some(true));
    assert_eq!(e.suggestion.as_deref(), Some("ask"));
    let mut tagged = StrMap::new();
    tagged.insert("ACL_DENIED".to_string(), JsonValue::Null);
    fields[0] = JsonValue::Object(tagged);
    let e = ModuleError::from_dict(&JsonValue::Array(fields.iter().map(|v| v.clone()).collect())).unwrap();
    assert_eq!(e.code, ErrorCode::ACLDenied);
    fields.pop();
    assert!(ModuleError::from_dict(&JsonValue::Array(fields)).is_none());
}

#[test]
fn a_step_error_gives_back_its_cause_at_any_time() {
    for (secs, nanos) in [
        (-8_334_601_228_800, 0),
        (8_210_266_876_799, 999_999_999),
        (-62_167_219_201, 1_000_000),
        (253_402_300_800, 1_000),
        (59, 1_999_999_999),
        (-1, 1_000_000_000),
    ] {
        let mut cause = ModuleError::new(ErrorCode::ModuleTimeout, "late");
        cause.timestamp = Timestamp { secs, nanos };
        let outer = ModuleError::pipeline_step_error("execute", &cause);
        assert_eq!(outer.step_name(), Some("execute"));
        let inner = outer.unwrap_pipeline_step_error().unwrap();
        assert_eq!(inner.timestamp, cause.timestamp);
        assert_eq!(inner.code, ErrorCode::ModuleTimeout);
    }
}

#[test]
fn white_space_is_that_of_unicode() {
    for c in '\0'..=char::MAX {
        assert_eq!(is_white_space(c), c.is_whitespace(), "{c:?}");
    }
}
