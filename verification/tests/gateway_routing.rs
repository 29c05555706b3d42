//! Routing, engines, script files and the composed host system.

use laputa::gateway::{HttpMethod, RouteKind, Server};
use laputa::host::exports::FileSystem;
use laputa::host::defaults::{
    DefaultGovernance, DefaultLifeCycleHandler, LocalCacheHandler, LocalFileSystem,
    LocalLogHandler, LocalMessage, MockDatabaseSystem,
};
use laputa::host::system::System;
use laputa::host::{CacheSelector, DatabaseSelector, GovernanceSelector};
use laputa::script::{RequestInfo, ScriptFile, ScriptMessage};
use laputa::service::ScriptType;

#[test]
fn server_starts_with_index_route() {
    let s = laputa::new();
    assert_eq!(s.routes.len(), 1);
    assert_eq!(s.routes[0].route, String::new());
    assert!(matches!(s.routes[0].kind, RouteKind::Native));
    assert_eq!(s.engines.len(), 0);
}

#[test]
fn routes_are_normalized() {
    let mut s = Server::new();
    s.route_fn(HttpMethod::Get, "/hello").unwrap();
    assert_eq!(s.routes[1].route, "hello".to_string());
    s.route_static(HttpMethod::Get, "assets", "./static/app.css").unwrap();
    assert_eq!(s.routes[2].route, "assets".to_string());
    match &s.routes[2].kind {
        RouteKind::StaticFile { path } => assert_eq!(path, "./static/app.css"),
        _ => panic!("expected a static route"),
    }
}

#[test]
fn one_engine_per_script_type() {
    let mut s = Server::new();
    let started = s.route_script(ScriptType::Lua, HttpMethod::Get, "/a", "./deploy/a.lua").unwrap();
    assert!(started);
    let started = s.route_script(ScriptType::Lua, HttpMethod::Get, "/b", "./deploy/b.lua").unwrap();
    assert!(!started);
    let started = s.route_script(ScriptType::JavaScript, HttpMethod::Get, "/c", "./deploy/c.js").unwrap();
    assert!(started);
    assert_eq!(s.engines.len(), 2);
    assert_eq!(s.routes.len(), 4);
    match &s.routes[1].kind {
        RouteKind::Script { script_type, path } => {
            assert_eq!(*script_type, ScriptType::Lua);
            assert_eq!(path, "./deploy/a.lua");
        },
        _ => panic!("expected a script route"),
    }
}

#[test]
fn script_type_names() {
    assert_eq!(ScriptType::Lua.engine_name(), "lua".to_string());
    assert_eq!(ScriptType::JavaScript.engine_name(), "javascript".to_string());
    assert_eq!(ScriptType::Lua, ScriptType::Lua);
    assert_ne!(ScriptType::Lua, ScriptType::JavaScript);
}

#[test]
fn script_file_route_paths() {
    let f = ScriptFile { file_path: "./deploy/x.lua".to_string(), script_type: "lua".to_string() };
    assert_eq!(f.route_path(), "x".to_string());
    assert_eq!(f.get_file_name(), "./deploy/x.lua".to_string());
    let g = ScriptFile { file_path: "a/b.tar.gz".to_string(), script_type: "js".to_string() };
    assert_eq!(g.route_path(), "b.tar".to_string());
    let h = ScriptFile { file_path: ".hidden".to_string(), script_type: "js".to_string() };
    assert_eq!(h.route_path(), ".hidden".to_string());
    let n = ScriptFile { file_path: "noext".to_string(), script_type: "js".to_string() };
    assert_eq!(n.route_path(), "noext".to_string());
}

#[test]
fn script_message_carries_request() {
    let msg = ScriptMessage {
        request: RequestInfo { path: "x".to_string() },
        source: b"return 1".to_vec(),
        file: "./deploy/x.lua".to_string(),
    };
    assert_eq!(msg.request.path, "x".to_string());
    assert_eq!(msg.source, b"return 1".to_vec());
}

struct FixedFileSystem;

impl FileSystem for FixedFileSystem {
    fn list_dir(&self, path: &str) -> Result<Vec<String>, String> {
        if path == "./deploy" {
            Ok(vec!["./deploy/x.lua".to_string()])
        } else {
            Err("no such directory".to_string())
        }
    }

    fn read_file(&self, path: &str) -> Result<Vec<u8>, String> {
        if path == "./deploy/x.lua" {
            Ok(b"exports = 'hi'".to_vec())
        } else {
            Err("no such file".to_string())
        }
    }
}

#[test]
fn system_delegates_to_wired_file_system() {
    let system = System::create(
        LocalLogHandler::new(),
        FixedFileSystem,
        MockDatabaseSystem::new(),
        DefaultLifeCycleHandler::new(),
        DefaultGovernance::new(),
        LocalCacheHandler::new(),
        LocalMessage::new(),
    );
    assert_eq!(system.list_dir("./deploy"), Ok(vec!["./deploy/x.lua".to_string()]));
    assert_eq!(system.read_file("./deploy/x.lua"), Ok(b"exports = 'hi'".to_vec()));
    assert!(system.read_file("./missing").is_err());
    let _names_the_role = LocalFileSystem::new();
}

#[test]
fn selectors_default_to_local_backends() {
    assert!(matches!(CacheSelector::default(), CacheSelector::Default(_)));
    assert!(matches!(DatabaseSelector::default(), DatabaseSelector::Default(_)));
    assert!(matches!(GovernanceSelector::default(), GovernanceSelector::Default(_)));
}

#[test]
fn directory_listing_drops_unreadable_entries() {
    let raw = vec!["./deploy/a.lua".to_string(), String::new(), "./deploy/b.js".to_string()];
    let kept = laputa::host::defaults::keep_nonempty(raw);
    assert_eq!(kept, vec!["./deploy/a.lua".to_string(), "./deploy/b.js".to_string()]);
}
