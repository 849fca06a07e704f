use apcore::error_code::ErrorCode;
use apcore::extensions::{
    exporter_step, exporter_target, ExporterStep, ExporterWiring, ExtensionKind, ExtensionManager,
    EXPORTER_NOT_APPLIED,
};
use apcore::middleware::manager::{MiddlewareEntry, MiddlewareManager};

#[test]
fn test_new_has_built_in_points() {
    let mgr = ExtensionManager::new();
    let points = mgr.list_points();
    assert_eq!(points.len(), 6);
    let names: Vec<String> = points.iter().map(|p| p.name.clone()).collect();
    assert!(names.contains(&"discoverer".to_string()));
    assert!(names.contains(&"middleware".to_string()));
    assert!(names.contains(&"acl".to_string()));
    assert!(names.contains(&"span_exporter".to_string()));
    assert!(names.contains(&"module_validator".to_string()));
    assert!(names.contains(&"approval_handler".to_string()));
}

#[test]
fn test_register_unknown_point_errors() {
    let mut mgr = ExtensionManager::new();
    let err = mgr.register("nonexistent", ExtensionKind::Acl(1)).unwrap_err();
    assert!(err.to_text().contains("Unknown extension point"));
}

#[test]
fn test_register_mismatched_kind_errors() {
    let mut mgr = ExtensionManager::new();
    assert!(mgr.register("middleware", ExtensionKind::Acl(1)).is_err());
}

#[test]
fn test_register_acl_replaces_previous() {
    let mut mgr = ExtensionManager::new();
    mgr.register("acl", ExtensionKind::Acl(1)).unwrap();
    assert_eq!(mgr.count("acl"), Some(1));
    mgr.register("acl", ExtensionKind::Acl(2)).unwrap();
    assert_eq!(mgr.count("acl"), Some(1));
    assert!(matches!(mgr.get("acl").unwrap(), Some(ExtensionKind::Acl(2))));
}

#[test]
fn test_has_and_clear() {
    let mut mgr = ExtensionManager::new();
    assert!(!mgr.has("acl").unwrap());
    mgr.register("acl", ExtensionKind::Acl(1)).unwrap();
    assert!(mgr.has("acl").unwrap());
    mgr.clear("acl").unwrap();
    assert!(!mgr.has("acl").unwrap());
}

#[test]
fn test_clear_all() {
    let mut mgr = ExtensionManager::new();
    mgr.register("acl", ExtensionKind::Acl(1)).unwrap();
    mgr.clear_all();
    assert!(!mgr.has("acl").unwrap());
}

#[test]
fn test_get_returns_the_registered_extension() {
    let mut mgr = ExtensionManager::new();
    assert!(mgr.get("acl").unwrap().is_none());
    mgr.register("acl", ExtensionKind::Acl(1)).unwrap();
    assert!(matches!(mgr.get("acl").unwrap(), Some(ExtensionKind::Acl(_))));
    let err = mgr.get("nonexistent").unwrap_err();
    assert_eq!(err.code, ErrorCode::GeneralInvalidInput);
}

#[test]
fn test_get_all_returns_registration_order() {
    let mut mgr = ExtensionManager::new();
    assert!(mgr.get_all("middleware").unwrap().is_empty());
    for id in [11, 22] {
        mgr.register("middleware", ExtensionKind::Middleware(id)).unwrap();
    }
    let all = mgr.get_all("middleware").unwrap();
    assert_eq!(all.len(), 2);
    let ids: Vec<u64> = all
        .iter()
        .map(|e| match e {
            ExtensionKind::Middleware(m) => *m,
            _ => panic!("expected middleware"),
        })
        .collect();
    assert_eq!(ids, vec![11, 22]);
    let err = mgr.get_all("nonexistent").unwrap_err();
    assert_eq!(err.code, ErrorCode::GeneralInvalidInput);
}

#[test]
fn test_object_address_identifies_the_extension_across_moves() {
    let extension = ExtensionKind::Middleware(5);
    let object = extension.object();
    let moved = extension;
    assert_eq!(moved.object(), object);
    let stored = [moved];
    assert_eq!(stored[0].object(), object);
    let lookalike = ExtensionKind::Middleware(6);
    assert_ne!(lookalike.object(), object);
}

#[test]
fn test_unregister_removes_only_the_matching_extension() {
    let mut mgr = ExtensionManager::new();
    mgr.register("middleware", ExtensionKind::Middleware(1)).unwrap();
    let other = ExtensionKind::Middleware(2);
    assert!(!mgr.unregister("middleware", &other).unwrap());
    assert_eq!(mgr.count("middleware"), Some(1));
    let err = mgr.unregister("nonexistent", &other).unwrap_err();
    assert_eq!(err.code, ErrorCode::GeneralInvalidInput);
    mgr.clear("middleware").unwrap();
    assert_eq!(mgr.count("middleware"), Some(0));
}

#[test]
fn test_unregister_handle_removes_exactly_one_registration() {
    let mut mgr = ExtensionManager::new();
    let keep = mgr.register("middleware", ExtensionKind::Middleware(1)).unwrap();
    let drop_me = mgr.register("middleware", ExtensionKind::Middleware(2)).unwrap();
    assert_eq!(mgr.count("middleware"), Some(2));
    assert!(mgr.unregister_handle(drop_me));
    assert_eq!(mgr.count("middleware"), Some(1));
    let remaining: Vec<u64> = mgr.get_all("middleware").unwrap().iter().map(|e| e.object()).collect();
    assert_eq!(remaining, vec![1]);
    assert!(!mgr.unregister_handle(drop_me));
    assert!(mgr.unregister_handle(keep));
    assert_eq!(mgr.count("middleware"), Some(0));
}

#[test]
fn test_unregister_by_identity_is_expressible_from_outside() {
    let mut mgr = ExtensionManager::new();
    let mine = ExtensionKind::Middleware(9);
    mgr.register("middleware", mine).unwrap();
    assert_eq!(mgr.count("middleware"), Some(1));
    assert!(mgr.unregister("middleware", &mine).unwrap());
    assert_eq!(mgr.count("middleware"), Some(0));
}

#[test]
fn test_default_impl() {
    let mgr = ExtensionManager::default();
    assert_eq!(mgr.list_points().len(), 6);
}

#[test]
fn test_debug_impl() {
    let mgr = ExtensionManager::new();
    let text = format!("{mgr:?}");
    assert!(text.contains("ExtensionManager"));
}

#[test]
fn everything_registered_is_wired() {
    let mut mgr = ExtensionManager::new();
    mgr.register("acl", ExtensionKind::Acl(1)).unwrap();
    mgr.register("middleware", ExtensionKind::Middleware(2)).unwrap();
    mgr.register("span_exporter", ExtensionKind::SpanExporter(3)).unwrap();
    let wiring = mgr.apply();
    assert_eq!(wiring.acl, Some(1));
    assert_eq!(wiring.middleware, vec![2]);
    assert!(matches!(wiring.span_exporters, ExporterWiring::Single(3)));
    mgr.register("span_exporter", ExtensionKind::SpanExporter(4)).unwrap();
    match mgr.apply().span_exporters {
        ExporterWiring::Composite(v) => assert_eq!(v, vec![3, 4]),
        _ => panic!("expected both exporters"),
    }
}

#[test]
fn exporters_go_to_the_first_tracing_middleware() {
    let entry = |name: &str, priority: u16, id: u64| MiddlewareEntry { name: name.to_string(), priority, id };
    let mut chain = MiddlewareManager::new();
    assert_eq!(exporter_target(&chain, true), None);
    chain.add(entry("logging", 900, 0)).unwrap();
    chain.add(entry("tracing", 100, 1)).unwrap();
    chain.add(entry("tracing", 500, 2)).unwrap();
    assert_eq!(exporter_target(&chain, true), Some(1));
    assert_eq!(chain.entry(1).id, 2);
    assert_eq!(exporter_target(&chain, false), None);
    assert_eq!(chain.len(), 3);
}

#[test]
fn exporters_without_a_tracing_middleware_are_not_applied() {
    assert_eq!(exporter_step(&ExporterWiring::Nothing, None), ExporterStep::Nothing);
    assert_eq!(exporter_step(&ExporterWiring::Nothing, Some(0)), ExporterStep::Nothing);
    assert_eq!(exporter_step(&ExporterWiring::Single(7), None), ExporterStep::NotApplied);
    assert_eq!(exporter_step(&ExporterWiring::Composite(vec![7, 8]), Some(2)), ExporterStep::SetOn(2));
    assert!(EXPORTER_NOT_APPLIED.contains("no TracingMiddleware found"));
}
