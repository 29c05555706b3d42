//! The response conversion rule for evaluated JS values.

use laputa::js::response::{make_response, JsHeaderEntry, JsProp, JsValue};

fn entry(name: &str, value: &str) -> JsHeaderEntry {
    JsHeaderEntry { name: name.to_string(), value: JsProp::Text(value.to_string()) }
}

#[test]
fn response_object_full() {
    let value = JsValue::Object {
        status: Some(201),
        headers: vec![entry("X-Test", "1")],
        body: Some("ok".to_string()),
    };
    let r = make_response(value);
    assert_eq!(r.status, 201);
    assert_eq!(r.headers.len(), 1);
    assert_eq!(r.headers.get(&"X-Test".to_string()), Some(&"1".to_string()));
    assert_eq!(r.body, b"ok".to_vec());
}

#[test]
fn response_plain_string() {
    let r = make_response(JsValue::Text("hi".to_string()));
    assert_eq!(r.status, 200);
    assert_eq!(r.headers.len(), 0);
    assert_eq!(r.body, b"hi".to_vec());
}

#[test]
fn response_no_meaningful_export() {
    let r = make_response(JsValue::Other);
    assert_eq!(r.status, 404);
    assert_eq!(r.headers.len(), 0);
    assert_eq!(r.body, b"Script returns empty content".to_vec());
}

#[test]
fn response_missing_body_is_404() {
    let value = JsValue::Object {
        status: Some(200),
        headers: vec![entry("X-Test", "1")],
        body: None,
    };
    let r = make_response(value);
    assert_eq!(r.status, 404);
    assert_eq!(r.headers.get(&"X-Test".to_string()), Some(&"1".to_string()));
    assert_eq!(r.body, b"Script returns empty content".to_vec());
}

#[test]
fn response_missing_status_defaults_to_200() {
    let value = JsValue::Object {
        status: None,
        headers: Vec::new(),
        body: Some("b".to_string()),
    };
    let r = make_response(value);
    assert_eq!(r.status, 200);
    assert_eq!(r.body, b"b".to_vec());
}

#[test]
fn response_headers_trimmed_and_empty_skipped() {
    let value = JsValue::Object {
        status: Some(200),
        headers: vec![
            entry(" X-A ", " v "),
            entry("Empty", "   "),
            entry("   ", "x"),
            JsHeaderEntry { name: "X-N".to_string(), value: JsProp::Other },
        ],
        body: Some("".to_string()),
    };
    let r = make_response(value);
    assert_eq!(r.headers.len(), 1);
    assert_eq!(r.headers.get(&"X-A".to_string()), Some(&"v".to_string()));
}

#[test]
fn response_header_later_entry_replaces_earlier() {
    let value = JsValue::Object {
        status: Some(200),
        headers: vec![entry("A", "1"), entry(" A", "2")],
        body: Some("b".to_string()),
    };
    let r = make_response(value);
    assert_eq!(r.headers.len(), 1);
    assert_eq!(r.headers.get(&"A".to_string()), Some(&"2".to_string()));
}

#[test]
fn response_status_is_truncated_to_16_bits() {
    let value = JsValue::Object {
        status: Some(65536 + 201),
        headers: Vec::new(),
        body: Some("b".to_string()),
    };
    let r = make_response(value);
    assert_eq!(r.status, 201);
}
