//! Error chains and diagnostic rendering.

use laputa::js::error::{render_frame, CompileDiagnostic, JsError, StackFrame};
use laputa::text::u32_to_string;

#[test]
fn test_js_error() {
    let source_err = JsError::new("Source".to_string());
    let err = JsError::with_cause("Current".to_string(), source_err);
    assert_eq!(err.render(), "Current, cause: Source".to_string());
}

#[test]
fn error_without_cause_is_its_message() {
    let err = JsError::new("alone".to_string());
    assert_eq!(err.render(), "alone".to_string());
}

#[test]
fn diagnostic_header_line() {
    let d = CompileDiagnostic {
        message: "Unexpected token".to_string(),
        resource: Some("a.js".to_string()),
        line: Some(3),
        column_start: 1,
        column_end: 5,
        frames: Vec::new(),
    };
    assert_eq!(
        d.render_line(),
        "Compile error: Unexpected token -- at [line 3: column 1 - column 5] in a.js".to_string()
    );
}

#[test]
fn diagnostic_unknown_parts() {
    let d = CompileDiagnostic {
        message: "bad".to_string(),
        resource: None,
        line: None,
        column_start: 0,
        column_end: 0,
        frames: Vec::new(),
    };
    assert_eq!(
        d.render_line(),
        "Compile error: bad -- at [line <unknown>: column 0 - column 0] in <unknown>".to_string()
    );
}

#[test]
fn stack_frame_lines() {
    let f = StackFrame {
        function: Some("f".to_string()),
        script: Some("s.js".to_string()),
        line: 7,
        column: 2,
    };
    assert_eq!(render_frame(&f), "function f at s.js - [7:2]".to_string());
    let anon = StackFrame { function: None, script: None, line: 1, column: 1 };
    assert_eq!(render_frame(&anon), "function <unknown> at <unknown> - [1:1]".to_string());
    let d = CompileDiagnostic {
        message: "m".to_string(),
        resource: None,
        line: None,
        column_start: 0,
        column_end: 0,
        frames: vec![
            StackFrame { function: Some("g".to_string()), script: None, line: 2, column: 9 },
        ],
    };
    assert_eq!(d.render_frames(), vec!["function g at <unknown> - [2:9]".to_string()]);
}

#[test]
fn decimal_rendering() {
    assert_eq!(u32_to_string(0), "0".to_string());
    assert_eq!(u32_to_string(7), "7".to_string());
    assert_eq!(u32_to_string(42), "42".to_string());
    assert_eq!(u32_to_string(4294967295), "4294967295".to_string());
}
