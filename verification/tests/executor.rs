use apcore::error_code::ErrorCode;
use apcore::errors::ModuleError;
use apcore::executor::call::{
    call_step, call_with_trace_step, check_module_id, underlying_error, validate_module_id, CallAction,
    CallEvent,
};
use apcore::executor::merge::{
    deep_merge_chunks_checked, deep_merge_value, json_type_name, DEEP_MERGE_MAX_DEPTH,
};
use apcore::executor::pipeline::{
    list_strategies, rebinds_toggles, register_strategy, register_strategy_by_name,
    resolve_strategy_by_name, PipelineTrace, StepTrace, StrategyInfo, StrategyPreset, StrategyRegistry,
};
use apcore::executor::preflight::{
    binding_refused, failure_to_checks, finish_preflight, may_introspect, module_id_refused,
    trace_to_checks, validate_step, Introspection, Preview, ValidateAction, ValidateEvent,
};
use apcore::executor::redact::{redact_sensitive, REDACTED_VALUE};
use apcore::executor::schema::{validate_against_schema, SchemaFailure, SchemaVerdict};
use apcore::executor::stream::{
    asks_about_chunk_error, post_stream_failure_data, prepare_stream_step,
    recover_stream_chunk_error, run_stream_phase3, stream_deadline_exceeded, ChunkAction,
    PostStreamAction, PrepareAction, PrepareEvent, StreamBody,
};
use apcore::json::{to_text, JsonValue, Number};
use apcore::middleware::base::{OnErrorOutcome, RetrySignal};
use apcore::module::{AnnotationsError, ModuleAnnotations};
use apcore::strmap::StrMap;

fn convert(v: &serde_json::Value) -> JsonValue {
    match v {
        serde_json::Value::Null => JsonValue::Null,
        serde_json::Value::Bool(b) => JsonValue::Bool(*b),
        serde_json::Value::Number(n) => JsonValue::Number(if let Some(u) = n.as_u64() {
            Number::PosInt(u)
        } else if let Some(i) = n.as_i64() {
            Number::NegInt(i)
        } else {
            Number::Float(n.to_string())
        }),
        serde_json::Value::String(s) => JsonValue::String(s.clone()),
        serde_json::Value::Array(a) => JsonValue::Array(a.iter().map(convert).collect()),
        serde_json::Value::Object(m) => {
            let mut out = StrMap::new();
            for (k, x) in m {
                out.insert(k.clone(), convert(x));
            }
            JsonValue::Object(out)
        }
    }
}

fn json(text: &str) -> JsonValue {
    convert(&serde_json::from_str(text).unwrap())
}

fn build_nested(depth: usize, leaf_key: &str, leaf: u64) -> JsonValue {
    let mut m = StrMap::new();
    m.insert(leaf_key.to_string(), JsonValue::uint(leaf));
    let mut current = JsonValue::Object(m);
    for _ in 0..depth {
        let mut outer = StrMap::new();
        outer.insert("a".to_string(), current);
        current = JsonValue::Object(outer);
    }
    current
}

fn deep_merge_chunks(chunks: &[JsonValue]) -> JsonValue {
    let mut acc = JsonValue::Null;
    for chunk in chunks {
        deep_merge_value(&mut acc, chunk, 0);
    }
    acc
}

fn step(name: &str, action: &str) -> StepTrace {
    StepTrace {
        name: name.to_string(),
        skipped: false,
        action: action.to_string(),
        explanation: None,
    }
}

#[test]
fn test_deep_merge_depth_cap_is_32_aligned_with_python_typescript() {
    assert_eq!(DEEP_MERGE_MAX_DEPTH, 32);
}

#[test]
fn test_deep_merge_caps_recursion_at_max_depth() {
    let chunk_a = build_nested(33, "x", 1);
    let chunk_b = build_nested(33, "y", 2);
    let merged = deep_merge_chunks(&[chunk_a, chunk_b]);
    let mut cursor = &merged;
    for _ in 0..32 {
        cursor = cursor.get("a").expect("nested 'a' should exist within cap");
    }
    let inner = to_text(cursor);
    assert!(inner.contains("\"y\""), "the later chunk should replace the earlier one; got {inner}");
}

#[test]
fn objects_are_merged_and_other_values_replaced() {
    let mut base = json("{\"a\": {\"x\": 1}, \"b\": [1]}");
    deep_merge_value(&mut base, &json("{\"a\": {\"y\": 2}, \"b\": [2], \"c\": null}"), 0);
    assert!(base.same(&json("{\"a\": {\"x\": 1, \"y\": 2}, \"b\": [2], \"c\": null}")));
}

#[test]
fn a_chunk_that_is_no_object_is_refused() {
    let chunks = vec![json("{\"a\": 1}"), json("[1]")];
    let err = deep_merge_chunks_checked(&chunks).unwrap_err();
    assert_eq!(err.code, ErrorCode::GeneralInvalidInput);
    assert_eq!(err.details.get("code").unwrap().as_str(), Some("STREAM_CHUNK_NOT_OBJECT"));
    assert!(deep_merge_chunks_checked(&Vec::new()).unwrap().same(&json("{}")));
    assert_eq!(json_type_name(&json("[1]")), "array");
}

#[test]
fn test_validate_against_schema_valid_input_passes() {
    let schema = json(
        "{\"type\": \"object\", \"properties\": {\"name\": {\"type\": \"string\"}}, \"required\": [\"name\"]}",
    );
    assert!(validate_against_schema(&schema, "Input", &SchemaVerdict::Valid).is_ok());
}

#[test]
fn test_validate_against_schema_invalid_input_returns_error_with_details() {
    let schema = json(
        "{\"type\": \"object\", \"properties\": {\"age\": {\"type\": \"integer\"}}, \"required\": [\"age\"]}",
    );
    let verdict = SchemaVerdict::Invalid(vec![SchemaFailure {
        field: "/age".to_string(),
        message: "\"not-a-number\" is not of type \"integer\"".to_string(),
    }]);
    let err = validate_against_schema(&schema, "Input", &verdict).unwrap_err();
    assert_eq!(err.code, ErrorCode::SchemaValidationError);
    assert!(err.details.contains_key("errors"));
}

#[test]
fn a_schema_that_cannot_be_read_is_not_the_fault_of_the_value() {
    let verdict = SchemaVerdict::BadSchema("why".to_string());
    let err = validate_against_schema(&json("{\"type\": 1}"), "Output", &verdict).unwrap_err();
    assert_eq!(err.code, ErrorCode::SchemaParseError);
    assert_eq!(err.message, "Output schema is invalid: why");
}

#[test]
fn test_validate_against_schema_null_schema_skips() {
    let verdict = SchemaVerdict::Invalid(Vec::new());
    assert!(validate_against_schema(&JsonValue::Null, "Input", &verdict).is_ok());
}

#[test]
fn test_validate_against_schema_empty_object_schema_skips() {
    let verdict = SchemaVerdict::Invalid(Vec::new());
    assert!(validate_against_schema(&json("{}"), "Input", &verdict).is_ok());
}

#[test]
fn test_redact_sensitive_basic_field() {
    let schema = json(
        "{\"properties\": {\"password\": {\"type\": \"string\", \"x-sensitive\": true}, \"username\": {\"type\": \"string\"}}}",
    );
    let data = json("{\"password\": \"s3cret\", \"username\": \"alice\"}");
    let result = redact_sensitive(&data, &schema);
    assert_eq!(result.get("password").unwrap().as_str(), Some(REDACTED_VALUE));
    assert_eq!(result.get("username").unwrap().as_str(), Some("alice"));
}

#[test]
fn test_redact_sensitive_nested_object() {
    let schema = json(
        "{\"properties\": {\"credentials\": {\"type\": \"object\", \"properties\": {\"token\": {\"type\": \"string\", \"x-sensitive\": true}, \"scope\": {\"type\": \"string\"}}}}}",
    );
    let data = json("{\"credentials\": {\"token\": \"abc123\", \"scope\": \"read\"}}");
    let result = redact_sensitive(&data, &schema);
    let credentials = result.get("credentials").unwrap();
    assert_eq!(credentials.get("token").unwrap().as_str(), Some(REDACTED_VALUE));
    assert_eq!(credentials.get("scope").unwrap().as_str(), Some("read"));
}

#[test]
fn test_redact_sensitive_array_items() {
    let schema = json(
        "{\"properties\": {\"tokens\": {\"type\": \"array\", \"items\": {\"type\": \"string\", \"x-sensitive\": true}}}}",
    );
    let data = json("{\"tokens\": [\"a\", \"b\", \"c\"]}");
    let result = redact_sensitive(&data, &schema);
    let tokens = result.get("tokens").unwrap().as_array().unwrap();
    assert_eq!(tokens.len(), 3);
    for item in tokens {
        assert_eq!(item.as_str(), Some(REDACTED_VALUE));
    }
}

#[test]
fn test_redact_sensitive_secret_prefix_keys() {
    let data = json("{\"_secret_api_key\": \"key123\", \"public_field\": \"visible\"}");
    let result = redact_sensitive(&data, &json("{}"));
    assert_eq!(result.get("_secret_api_key").unwrap().as_str(), Some(REDACTED_VALUE));
    assert_eq!(result.get("public_field").unwrap().as_str(), Some("visible"));
}

#[test]
fn test_redact_secret_prefix_recurses_into_arrays() {
    let data = json(
        "{\"items\": [{\"_secret_api_key\": \"k\", \"name\": \"ok\"}, {\"nested\": {\"_secret_token\": \"t\"}}]}",
    );
    let result = redact_sensitive(&data, &json("{}"));
    let items = result.get("items").unwrap().as_array().unwrap();
    assert_eq!(items[0].get("_secret_api_key").unwrap().as_str(), Some(REDACTED_VALUE));
    assert_eq!(items[0].get("name").unwrap().as_str(), Some("ok"));
    let nested = items[1].get("nested").unwrap();
    assert_eq!(nested.get("_secret_token").unwrap().as_str(), Some(REDACTED_VALUE));
}

#[test]
fn test_redact_secret_prefix_recurses_into_nested_arrays() {
    let data = json("{\"outer\": [[{\"_secret_x\": \"v\"}]]}");
    let result = redact_sensitive(&data, &json("{}"));
    let outer = result.get("outer").unwrap().as_array().unwrap();
    let inner = outer[0].as_array().unwrap();
    assert_eq!(inner[0].get("_secret_x").unwrap().as_str(), Some(REDACTED_VALUE));
}

#[test]
fn test_redact_sensitive_null_values_preserved() {
    let schema = json("{\"properties\": {\"password\": {\"type\": \"string\", \"x-sensitive\": true}}}");
    let result = redact_sensitive(&json("{\"password\": null}"), &schema);
    assert!(result.get("password").unwrap().is_null());
}

#[test]
fn test_redact_sensitive_no_schema_no_redaction() {
    let data = json("{\"password\": \"s3cret\"}");
    let result = redact_sensitive(&data, &JsonValue::Null);
    assert!(result.same(&data));
}

#[test]
fn test_validate_notes_requires_approval_without_gating() {
    let trace = PipelineTrace { steps: vec![step("approval_gate", "continue")], success: true };
    let checks = trace_to_checks(&trace);
    let result = finish_preflight(checks, None, None, true);
    assert!(result.valid);
    assert!(result.requires_approval);
}

#[test]
fn a_module_identifier_has_to_fit() {
    let pattern = "^[a-z]+(\\.[a-z]+)*$";
    assert!(validate_module_id("a.b", pattern).is_ok());
    assert!(validate_module_id("a..b", pattern).is_err());
    let err = validate_module_id("A b", "^p$").unwrap_err();
    assert_eq!(err.code, ErrorCode::InvalidModuleId);
    assert_eq!(err.message, "Invalid module ID: 'A b'. Must match pattern: ^p$");
    assert!(validate_module_id("", ".*").is_err());
    assert!(check_module_id("a", true, "p").is_ok());
    assert!(check_module_id("a", false, "p").is_err());
}

#[test]
fn a_finished_call_returns_its_output() {
    let trace = PipelineTrace { steps: Vec::new(), success: true };
    let event = CallEvent::Finished { output: Some(json("{\"x\": 1}")), trace };
    match call_step(event) {
        CallAction::Return(Ok(v)) => assert!(v.same(&json("{\"x\": 1}"))),
        _ => panic!("expected the output"),
    }
    let trace = PipelineTrace { steps: Vec::new(), success: true };
    let event = CallEvent::Finished { output: Some(json("{\"x\": 1}")), trace };
    assert!(matches!(call_with_trace_step(event), CallAction::Return(Ok(_))));
}

#[test]
fn callers_see_what_a_step_hid() {
    let inner = ModuleError::new(ErrorCode::ACLDenied, "no");
    let outer = ModuleError::pipeline_step_error("acl_check", &inner);
    assert!(outer.is_pipeline_step_error());
    assert_eq!(underlying_error(outer).code, ErrorCode::ACLDenied);
}

#[test]
fn a_denied_caller_is_told_nothing_more() {
    let trace = PipelineTrace { steps: Vec::new(), success: false };
    let checks = failure_to_checks(&trace, ModuleError::new(ErrorCode::ACLDenied, "no"));
    assert!(!may_introspect(&checks, true));
    let result = finish_preflight(checks, None, None, false);
    assert!(!result.valid);
    assert!(result.predicted_changes.is_empty());
}

#[test]
fn a_preflight_goes_step_by_step() {
    assert!(matches!(validate_step(ValidateEvent::Identified(Ok(()))), ValidateAction::Bind));
    assert!(matches!(validate_step(ValidateEvent::Bound(Ok(()))), ValidateAction::DryRun));
    let refused = ModuleError::new(ErrorCode::ContextBindingError, "bound elsewhere");
    match validate_step(ValidateEvent::Bound(Err(refused))) {
        ValidateAction::Finish(r) => assert_eq!(r.checks[0].check, "executor_binding"),
        _ => panic!("expected a result"),
    }
    let ran = |code: Option<ErrorCode>, module_found: bool| ValidateEvent::Ran {
        trace: PipelineTrace { steps: vec![step("module_lookup", "continue")], success: code.is_none() },
        failure: code.map(|c| ModuleError::new(c, "why")),
        module_found,
        policy: None,
        annotated: true,
    };
    match validate_step(ran(Some(ErrorCode::ACLDenied), true)) {
        ValidateAction::Finish(r) => {
            assert!(!r.valid);
            assert!(r.requires_approval);
            assert_eq!(r.checks.len(), 2);
            assert_eq!(r.checks[1].check, "acl");
        }
        _ => panic!("a denied caller is told nothing"),
    }
    assert!(matches!(validate_step(ran(None, false)), ValidateAction::Finish(_)));
    match validate_step(ran(Some(ErrorCode::SchemaValidationError), true)) {
        ValidateAction::Introspect { checks } => {
            let account = Introspection {
                warnings: vec!["slow".to_string()],
                preview: Preview::Panicked("oops".to_string()),
            };
            let told = ValidateEvent::Told { checks, account, policy: Some(false), annotated: true };
            match validate_step(told) {
                ValidateAction::Finish(r) => {
                    assert!(!r.valid);
                    assert!(!r.requires_approval);
                    assert_eq!(r.checks.len(), 4);
                    assert_eq!(r.checks[3].warnings, vec!["preview() panicked: oops".to_string()]);
                }
                _ => panic!("expected a result"),
            }
        }
        _ => panic!("expected the module to be asked"),
    }
}

#[test]
fn strategies_are_known_by_name() {
    assert!(matches!(resolve_strategy_by_name("standard"), Ok(StrategyPreset::Standard)));
    assert_eq!(resolve_strategy_by_name("nope").unwrap_err().code, ErrorCode::GeneralInvalidInput);
    let mut registry = StrategyRegistry::new();
    register_strategy(
        &mut registry,
        StrategyInfo {
            name: "mine".to_string(),
            step_count: 1,
            step_names: vec!["a".to_string()],
            description: String::new(),
        },
    );
    assert_eq!(list_strategies(&registry).len(), 1);
    let mine = list_strategies(&registry).remove(0);
    register_strategy_by_name(&mut registry, "yours", &mine);
    let all = list_strategies(&registry);
    assert_eq!(all.len(), 2);
    assert_eq!(all[1].name, "yours");
    assert_eq!(all[1].step_names, vec!["a".to_string()]);
    register_strategy(
        &mut registry,
        StrategyInfo {
            name: "mine".to_string(),
            step_count: 2,
            step_names: vec!["a".to_string(), "b".to_string()],
            description: String::new(),
        },
    );
    let all = list_strategies(&registry);
    assert_eq!(all.len(), 2);
    assert_eq!((all[0].name.as_str(), all[0].step_count), ("mine", 2));
    assert_eq!((all[1].name.as_str(), all[1].step_count), ("yours", 1));
}

#[test]
fn an_aborted_step_is_found() {
    let trace = PipelineTrace {
        steps: vec![step("a", "continue"), step("b", "abort")],
        success: false,
    };
    assert_eq!(trace.aborted_step().unwrap().name, "b");
}

#[test]
fn chunks_are_yielded_and_merged() {
    let mut body = StreamBody::new();
    match body.take_chunk("m", None, 0, Ok(json("{\"a\": 1}"))) {
        ChunkAction::Yield(v) => assert!(v.same(&json("{\"a\": 1}"))),
        _ => panic!("expected the chunk"),
    }
    assert!(matches!(body.take_chunk("m", None, 0, Ok(json("{\"b\": 2}"))), ChunkAction::Yield(_)));
    assert!(body.merged().unwrap().same(&json("{\"a\": 1, \"b\": 2}")));
}

#[test]
fn a_stream_ends_at_its_deadline() {
    assert!(stream_deadline_exceeded(None, 99, "m").is_none());
    assert!(stream_deadline_exceeded(Some(100), 99, "m").is_none());
    let err = stream_deadline_exceeded(Some(100), 101, "m").unwrap();
    assert_eq!(err.code, ErrorCode::ModuleTimeout);
    let mut body = StreamBody::new();
    assert!(!matches!(body.take_chunk("m", Some(100), 101, Ok(json("{}"))), ChunkAction::Yield(_)));
}

#[test]
fn what_fails_after_a_stream_is_reported() {
    let schema = json("{\"type\": \"object\"}");
    let good = run_stream_phase3(Ok(json("{}")), &schema, &SchemaVerdict::Valid, true);
    assert!(matches!(good, PostStreamAction::RunAfter(_)));
    let none = run_stream_phase3(Ok(json("{}")), &schema, &SchemaVerdict::Valid, false);
    assert!(matches!(none, PostStreamAction::Nothing));
    let bad = run_stream_phase3(Ok(json("{}")), &schema, &SchemaVerdict::Invalid(Vec::new()), true);
    match bad {
        PostStreamAction::Report(e) => {
            let data = post_stream_failure_data(&e, "t-1");
            assert_eq!(data.get("trace_id").unwrap().as_str(), Some("t-1"));
        }
        _ => panic!("expected a report"),
    }
}

#[test]
fn annotations_are_read_and_written() {
    let a = ModuleAnnotations::from_json(&json(
        "{\"readonly\": true, \"cache_ttl\": 7, \"legacy\": 1, \"extra\": {\"legacy\": 2, \"k\": 3}}",
    ))
    .unwrap();
    assert!(a.readonly);
    assert_eq!(a.cache_ttl, 7);
    assert_eq!(a.extra.get("legacy").unwrap().as_u64(), Some(2));
    assert_eq!(a.extra.get("k").unwrap().as_u64(), Some(3));
    let again = ModuleAnnotations::from_json(&a.to_json()).unwrap();
    assert!(again.readonly);
    assert!(matches!(ModuleAnnotations::from_json(&json("[]")), Err(AnnotationsError::NotAnObject)));
    assert!(matches!(
        ModuleAnnotations::from_json(&json("{\"readonly\": 1}")),
        Err(AnnotationsError::WrongType(_))
    ));
}

#[test]
fn a_refused_call_is_a_failed_check() {
    let error = ModuleError::new(ErrorCode::InvalidModuleId, "no");
    let result = module_id_refused(&error);
    assert!(!result.valid);
    assert_eq!(result.checks[0].check, "module_id");
    assert_eq!(binding_refused(&error).checks[0].check, "executor_binding");
    let failed = result.errors_as_json();
    assert_eq!(failed.len(), 1);
    let object = failed[0].as_object().unwrap();
    assert_eq!(object.get("check").and_then(|c| c.as_str()), Some("module_id"));
}

#[test]
fn a_stream_starts_where_its_module_was_found() {
    let trace = PipelineTrace { steps: Vec::new(), success: true };
    let event = PrepareEvent::Finished { trace, module_found: true };
    assert!(matches!(prepare_stream_step("m", event), PrepareAction::Stream));
    let trace = PipelineTrace { steps: Vec::new(), success: true };
    let event = PrepareEvent::Finished { trace, module_found: false };
    match prepare_stream_step("m", event) {
        PrepareAction::Fail(e) => assert_eq!(e.code, ErrorCode::ModuleNotFound),
        _ => panic!("expected a failure"),
    }
}

#[test]
fn cancellation_is_not_recovered() {
    let error = ModuleError::new(ErrorCode::ExecutionCancelled, "stop");
    assert!(!asks_about_chunk_error(&error, true, &vec![0]));
    let other = ModuleError::new(ErrorCode::ModuleExecuteError, "x");
    assert!(asks_about_chunk_error(&other, true, &vec![0]));
    assert!(!asks_about_chunk_error(&other, true, &Vec::new()));
    let event = CallEvent::Decorated { error, executed: vec![0] };
    assert!(matches!(call_step(event), CallAction::Return(Err(_))));
}

#[test]
fn a_stream_is_recovered_but_not_repeated() {
    let value = recover_stream_chunk_error(Some(OnErrorOutcome::Recovery(json("{\"a\": 1}"))));
    assert!(value.unwrap().same(&json("{\"a\": 1}")));
    let again = Some(OnErrorOutcome::Retry(RetrySignal::new(json("{}"))));
    assert!(recover_stream_chunk_error(again).is_none());
    let error = ModuleError::new(ErrorCode::ModuleExecuteError, "x");
    let outcome = Some(OnErrorOutcome::Retry(RetrySignal::new(json("{\"b\": 2}"))));
    match call_step(CallEvent::Answered { error, outcome }) {
        CallAction::Run { inputs } => assert!(inputs.same(&json("{\"b\": 2}"))),
        _ => panic!("expected another run"),
    }
}

#[test]
fn an_output_counts_as_a_chunk() {
    let mut body = StreamBody::new();
    assert!(body.take_output(json("{\"a\": 1}")).same(&json("{\"a\": 1}")));
    assert!(body.merged().unwrap().same(&json("{\"a\": 1}")));
}

#[test]
fn toggles_are_bound_into_presets_only() {
    assert!(rebinds_toggles("minimal"));
    assert!(!rebinds_toggles("mine"));
}

#[test]
fn deep_merges_below_the_limit_are_shallow() {
    let mut base = json("{\"a\": {\"x\": 1}, \"b\": 2}");
    deep_merge_value(&mut base, &json("{\"a\": {\"y\": 3}}"), DEEP_MERGE_MAX_DEPTH + 5);
    assert!(base.same(&json("{\"a\": {\"y\": 3}, \"b\": 2}")));
}

#[test]
fn redacting_again_with_the_same_schema_changes_nothing() {
    let schema = json("{\"properties\": {\"p\": {\"x-sensitive\": true}, \"l\": {\"type\": \"array\", \"items\": {\"x-sensitive\": true}}}}");
    let data = json("{\"p\": {\"q\": 1}, \"l\": [1, null], \"_secret_t\": null, \"n\": {\"_secret_u\": 5}}");
    let once = redact_sensitive(&data, &schema);
    assert!(once.same(&json("{\"p\": \"***REDACTED***\", \"l\": [\"***REDACTED***\", null], \"_secret_t\": null, \"n\": {\"_secret_u\": \"***REDACTED***\"}}")));
    assert!(redact_sensitive(&once, &schema).same(&once));
}
