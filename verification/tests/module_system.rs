//! The JS module registry and the per-request execution state machine.

use laputa::common::RequestData;
use laputa::js::isolate::{
    classify_specifier, root_module_string, DriverAction, FetchPlan, Isolate, LoadDecision,
    ModuleEvent,
};
use laputa::js::response::JsValue;

fn request() -> RequestData {
    RequestData {
        headers: Vec::new(),
        body: Vec::new(),
        uri: "/r".to_string(),
        query: String::new(),
    }
}

fn specifiers(list: &[&str]) -> Vec<String> {
    list.iter().map(|s| s.to_string()).collect()
}

#[test]
fn module_dedup() {
    let mut iso = Isolate::new();
    let id = iso.finish_load("lib.js".to_string(), false, 7, Vec::new());
    assert_eq!(id, 7);
    match iso.begin_load(&"lib.js".to_string()) {
        LoadDecision::AlreadyLoaded(cached) => assert_eq!(cached, 7),
        LoadDecision::NeedCompile => panic!("cached module was not found"),
    }
    // a second call without intervening eviction: same identity, no change
    match iso.begin_load(&"lib.js".to_string()) {
        LoadDecision::AlreadyLoaded(cached) => assert_eq!(cached, 7),
        LoadDecision::NeedCompile => panic!("cached module was not found"),
    }
    assert_eq!(iso.modules.lookup_name(&"lib.js".to_string()), Some(7));
}

#[test]
fn root_name_always_recompiled() {
    let mut iso = Isolate::new();
    let root = root_module_string();
    iso.finish_load(root.clone(), true, 1, Vec::new());
    match iso.begin_load(&root) {
        LoadDecision::NeedCompile => {},
        LoadDecision::AlreadyLoaded(_) => panic!("root name must never be reused"),
    }
    assert_eq!(iso.modules.lookup_name(&root), None);
}

/// Drives one full successful execution of `spec`, where the target module
/// compiles with identity `target_id` and declares `imports`, every other
/// import compiles with ids counted up from `target_id`, and evaluation
/// yields `value`.  Returns the specifiers that were actually fetched.
fn drive_execution(
    iso: &mut Isolate,
    spec: &str,
    target_id: i32,
    imports: &[&str],
    value: JsValue,
) -> (Vec<String>, Result<u16, String>) {
    let mut fetched = Vec::new();
    let (mut st, mut action) = iso.module_execute_begin(&spec.to_string(), request());
    let mut next_id = target_id;
    let mut first = true;
    let mut value_slot = Some(value);
    loop {
        let ev = match action {
            DriverAction::CompileRoot { ref name, ref source } => {
                assert_eq!(name, "___root_module__");
                assert!(source.contains(spec));
                ModuleEvent::Loaded { id: 1000, imports: specifiers(&[spec]) }
            },
            DriverAction::Load { ref specifier } => {
                fetched.push(specifier.clone());
                let id = next_id;
                next_id += 1;
                let declared = if first {
                    first = false;
                    specifiers(imports)
                } else {
                    Vec::new()
                };
                ModuleEvent::Loaded { id, imports: declared }
            },
            DriverAction::Instantiate { .. } => ModuleEvent::Instantiated,
            DriverAction::Evaluate { .. } => {
                ModuleEvent::Evaluated { value: value_slot.take().unwrap() }
            },
            DriverAction::Done { result } => {
                return (fetched, result.map(|r| r.status).map_err(|e| e));
            },
        };
        let stepped = iso.step(st, ev);
        st = stepped.0;
        action = stepped.1;
    }
}

#[test]
fn import_resolution_loads_each_once() {
    let mut iso = Isolate::new();
    // the target imports a sibling, which imports the target back: the
    // cycle terminates and each module is fetched exactly once
    let (fetched, result) =
        drive_execution(&mut iso, "a.js", 10, &["b.js", "a.js"], JsValue::Text("x".to_string()));
    assert_eq!(fetched, vec!["a.js".to_string(), "b.js".to_string()]);
    assert_eq!(result, Ok(200));
}

#[test]
fn root_replacement() {
    let mut iso = Isolate::new();
    let root = root_module_string();
    let (_, r1) = drive_execution(&mut iso, "a.js", 10, &[], JsValue::Text("x".to_string()));
    assert_eq!(r1, Ok(200));
    assert_eq!(iso.modules.lookup_name(&root), Some(1000));
    // run the same locator again with a different compile identity for the
    // fresh root: the registry maps the root name to the new identity only
    let (mut st, mut action) = iso.module_execute_begin(&"a.js".to_string(), request());
    assert_eq!(iso.modules.lookup_name(&root), None);
    let _ = &mut st;
    match action {
        DriverAction::CompileRoot { .. } => {},
        _ => panic!("expected the root compile"),
    }
    let stepped = iso.step(st, ModuleEvent::Loaded { id: 2000, imports: specifiers(&["a.js"]) });
    st = stepped.0;
    action = stepped.1;
    assert_eq!(iso.modules.lookup_name(&root), Some(2000));
    assert!(iso.modules.get_by_id(1000).is_none());
    match action {
        DriverAction::Load { ref specifier } => assert_eq!(specifier, "a.js"),
        _ => panic!("the evicted target must be fetched again"),
    }
    let _ = st;
}

#[test]
fn cached_import_not_refetched_across_requests() {
    let mut iso = Isolate::new();
    let (fetched1, _) =
        drive_execution(&mut iso, "a.js", 10, &["lib.js"], JsValue::Text("x".to_string()));
    assert_eq!(fetched1, vec!["a.js".to_string(), "lib.js".to_string()]);
    // the target itself is evicted and re-fetched, but the cached library
    // import is found in the registry and not fetched again
    let (fetched2, _) =
        drive_execution(&mut iso, "a.js", 20, &["lib.js"], JsValue::Text("x".to_string()));
    assert_eq!(fetched2, vec!["a.js".to_string()]);
}

#[test]
fn error_isolation() {
    let mut iso = Isolate::new();
    // a script that throws during evaluation produces a failed result
    let (st, action) = iso.module_execute_begin(&"bad.js".to_string(), request());
    assert!(matches!(action, DriverAction::CompileRoot { .. }));
    let (st, action) = iso.step(st, ModuleEvent::Loaded { id: 1, imports: specifiers(&["bad.js"]) });
    assert!(matches!(action, DriverAction::Load { .. }));
    let (st, action) = iso.step(st, ModuleEvent::Loaded { id: 2, imports: Vec::new() });
    assert!(matches!(action, DriverAction::Instantiate { .. }));
    let (st, action) = iso.step(st, ModuleEvent::Instantiated);
    assert!(matches!(action, DriverAction::Evaluate { .. }));
    let (_st, action) = iso.step(st, ModuleEvent::Threw { message: "kaboom".to_string() });
    match action {
        DriverAction::Done { result } => assert_eq!(result.err().unwrap(), "kaboom".to_string()),
        _ => panic!("expected the failed reply"),
    }
    // the worker accepts and correctly executes the next unrelated event
    let (_, r2) = drive_execution(&mut iso, "good.js", 30, &[], JsValue::Text("fine".to_string()));
    assert_eq!(r2, Ok(200));
}

#[test]
fn root_compile_failure_is_reported() {
    let mut iso = Isolate::new();
    let (st, _) = iso.module_execute_begin(&"a.js".to_string(), request());
    let (_, action) = iso.step(st, ModuleEvent::LoadFailed);
    match action {
        DriverAction::Done { result } => {
            assert_eq!(result.err().unwrap(), "Cannot compile module: ___root_module__");
        },
        _ => panic!("expected the failed reply"),
    }
}

#[test]
fn instantiate_failure_carries_cause() {
    let mut iso = Isolate::new();
    let (st, _) = iso.module_execute_begin(&"a.js".to_string(), request());
    let (st, _) = iso.step(st, ModuleEvent::Loaded { id: 1, imports: Vec::new() });
    let (_, action) = iso.step(
        st,
        ModuleEvent::InstantiateFailed { message: Some("boom".to_string()) },
    );
    match action {
        DriverAction::Done { result } => {
            assert_eq!(
                result.err().unwrap(),
                "Module ___root_module__ cannot be instantiated, cause: boom"
            );
        },
        _ => panic!("expected the failed reply"),
    }
}

#[test]
fn instantiate_failure_without_cause() {
    let mut iso = Isolate::new();
    let (st, _) = iso.module_execute_begin(&"a.js".to_string(), request());
    let (st, _) = iso.step(st, ModuleEvent::Loaded { id: 1, imports: Vec::new() });
    let (_, action) = iso.step(st, ModuleEvent::InstantiateFailed { message: None });
    match action {
        DriverAction::Done { result } => {
            assert_eq!(result.err().unwrap(), "Module ___root_module__ cannot be instantiated");
        },
        _ => panic!("expected the failed reply"),
    }
}

#[test]
fn request_slot_is_replaced_per_execution() {
    let mut iso = Isolate::new();
    let mut first = request();
    first.uri = "/one".to_string();
    let _ = iso.module_execute_begin(&"a.js".to_string(), first);
    assert_eq!(iso.request_slot.as_ref().unwrap().uri, "/one".to_string());
    let mut second = request();
    second.uri = "/two".to_string();
    let _ = iso.module_execute_begin(&"a.js".to_string(), second);
    assert_eq!(iso.request_slot.as_ref().unwrap().uri, "/two".to_string());
}

#[test]
fn specifier_classification() {
    match classify_specifier(&"http://host/lib.js".to_string()) {
        FetchPlan::Network { url } => assert_eq!(url, "http://host/lib.js".to_string()),
        _ => panic!("expected a network fetch"),
    }
    match classify_specifier(&"https://host/lib.js".to_string()) {
        FetchPlan::Network { .. } => {},
        _ => panic!("expected a network fetch"),
    }
    match classify_specifier(&"file:///tmp/a.js".to_string()) {
        FetchPlan::File { path } => assert_eq!(path, "/tmp/a.js".to_string()),
        _ => panic!("expected a file read"),
    }
    match classify_specifier(&"./deploy/a.js".to_string()) {
        FetchPlan::File { path } => assert_eq!(path, "./deploy/a.js".to_string()),
        _ => panic!("expected a file read"),
    }
}

#[test]
fn import_fetch_failure_surfaces_at_instantiation() {
    let mut iso = Isolate::new();
    let (st, _) = iso.module_execute_begin(&"a.js".to_string(), request());
    let (st, action) =
        iso.step(st, ModuleEvent::Loaded { id: 1, imports: specifiers(&["gone.js"]) });
    assert!(matches!(action, DriverAction::Load { .. }));
    // the fetch fails; the loader moves on and lets the VM linking decide
    let (st, action) = iso.step(st, ModuleEvent::LoadFailed);
    assert!(matches!(action, DriverAction::Instantiate { .. }));
    let (_, action) = iso.step(
        st,
        ModuleEvent::InstantiateFailed { message: Some("gone.js is not available".to_string()) },
    );
    match action {
        DriverAction::Done { result } => {
            assert_eq!(
                result.err().unwrap(),
                "Module ___root_module__ cannot be instantiated, cause: gone.js is not available"
            );
        },
        _ => panic!("expected the failed reply"),
    }
}
