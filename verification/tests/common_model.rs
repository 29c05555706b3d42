//! The request/response data model, bindings and reply assembly.

use laputa::common::{
    Header, HeaderTable, RequestData, ResponseData, ScriptResultEvent, ServiceState,
};
use laputa::gateway::assemble_reply;
use laputa::js::bindings::{body_text, js_error, js_log};
use laputa::js::rejections::{PendingRejections, PromiseRejectEvent};
use laputa::platform::PlatformInit;
use laputa::text::{str_eq_ignore_case, trim};

fn header(name: &str, value: &str) -> Header {
    Header { name: name.to_string(), value: value.to_string() }
}

fn request_with_headers(headers: Vec<Header>) -> RequestData {
    RequestData {
        headers,
        body: b"ping".to_vec(),
        uri: "/app/x".to_string(),
        query: "k=v".to_string(),
    }
}

#[test]
fn header_table_insert_and_replace() {
    let mut t = HeaderTable::new();
    assert_eq!(t.len(), 0);
    t.insert("A".to_string(), "1".to_string());
    t.insert("B".to_string(), "2".to_string());
    assert_eq!(t.len(), 2);
    assert_eq!(t.get(&"A".to_string()), Some(&"1".to_string()));
    t.insert("A".to_string(), "3".to_string());
    assert_eq!(t.len(), 2);
    assert_eq!(t.get(&"A".to_string()), Some(&"3".to_string()));
    assert_eq!(t.get(&"missing".to_string()), None);
}

#[test]
fn request_accessors() {
    let req = request_with_headers(vec![header("accept", "text/html")]);
    assert_eq!(req.uri_value(), &"/app/x".to_string());
    assert_eq!(req.query_value(), &"k=v".to_string());
    assert_eq!(body_text(&req), Some("ping".to_string()));
}

#[test]
fn request_body_invalid_utf8() {
    let mut req = request_with_headers(Vec::new());
    req.body = vec![0xff, 0xfe];
    assert_eq!(body_text(&req), None);
}

#[test]
fn header_lookup_is_case_insensitive_and_ordered() {
    let req = request_with_headers(vec![
        header("accept", "a"),
        header("x-k", "1"),
        header("X-K", "2"),
        header("other", "o"),
    ]);
    assert_eq!(req.header_values("X-k"), vec!["1".to_string(), "2".to_string()]);
    assert_eq!(req.header_values("nothing"), Vec::<String>::new());
}

#[test]
fn console_bindings_echo() {
    assert_eq!(js_log("hello".to_string()), "hello".to_string());
    assert_eq!(js_error("oops".to_string()), "oops".to_string());
}

#[test]
fn trim_and_case_helpers() {
    assert_eq!(trim("  a b \t"), "a b".to_string());
    assert_eq!(trim("\u{3000}x\u{a0}"), "x".to_string());
    assert_eq!(trim("   "), String::new());
    assert!(str_eq_ignore_case("X-Key", "x-kEY"));
    assert!(!str_eq_ignore_case("X-Key", "x-keys"));
}

#[test]
fn assemble_single_ok_reply() {
    let mut headers = HeaderTable::new();
    headers.insert("X".to_string(), "1".to_string());
    let events = vec![ScriptResultEvent {
        result: Ok(ResponseData { status: 201, headers, body: b"out".to_vec() }),
    }];
    let r = assemble_reply(events);
    assert_eq!(r.status, 201);
    assert_eq!(r.headers.get(&"X".to_string()), Some(&"1".to_string()));
    assert_eq!(r.body, b"out".to_vec());
}

#[test]
fn assemble_error_reply_is_500() {
    let events = vec![ScriptResultEvent { result: Err("engine broke".to_string()) }];
    let r = assemble_reply(events);
    assert_eq!(r.status, 500);
    assert_eq!(r.headers.len(), 0);
    assert_eq!(r.body, b"engine broke".to_vec());
}

#[test]
fn assemble_concatenates_bodies_and_keeps_last_status() {
    let events = vec![
        ScriptResultEvent {
            result: Ok(ResponseData {
                status: 200,
                headers: HeaderTable::new(),
                body: b"ab".to_vec(),
            }),
        },
        ScriptResultEvent {
            result: Ok(ResponseData {
                status: 404,
                headers: HeaderTable::new(),
                body: b"cd".to_vec(),
            }),
        },
    ];
    let r = assemble_reply(events);
    assert_eq!(r.status, 404);
    assert_eq!(r.body, b"abcd".to_vec());
}

#[test]
fn assemble_empty_channel_yields_200() {
    let r = assemble_reply(Vec::new());
    assert_eq!(r.status, 200);
    assert_eq!(r.body, Vec::<u8>::new());
}

#[test]
fn platform_initializes_once() {
    let mut p = PlatformInit::new();
    assert!(p.acquire());
    assert!(!p.acquire());
    assert!(!p.acquire());
    assert_eq!(p.count, 3);
}

#[test]
fn promise_rejections_lifecycle() {
    let mut p = PendingRejections::new();
    p.on_event(PromiseRejectEvent::RejectWithNoHandler {
        promise_id: 5,
        message: "unhandled".to_string(),
    });
    assert_eq!(p.entries.len(), 1);
    assert_eq!(p.entries[0].promise_id, 5);
    assert_eq!(p.entries[0].message, "unhandled".to_string());
    p.on_event(PromiseRejectEvent::RejectAfterResolved { promise_id: 5 });
    assert_eq!(p.entries.len(), 1);
    p.on_event(PromiseRejectEvent::HandlerAddedAfterReject { promise_id: 5 });
    assert_eq!(p.entries.len(), 0);
}

#[test]
fn service_state_starts_empty() {
    let _state = ServiceState::new();
}
