//! The JS engine's error values and their textual form.
//!
//! `JsError` chains a message with an optional underlying cause; the worker
//! flattens a chain into one line when it replies.  `CompileDiagnostic`
//! carries what the VM reports about a parse failure — message, resource
//! name, line and column range, and raw stack frames — and renders the same
//! lines the worker writes to its log.

use vstd::prelude::*;
use crate::text::{spec_decimal, u32_to_string};

verus! {

/// An error of the JS engine: a message, optionally chained to the error
/// that caused it.
pub struct JsError {
    pub message: String,
    pub cause: Option<Box<JsError>>,
}

/// The flattened one-line text of an error chain: the message, then
/// `, cause: ` and the cause's text for each link.
pub open spec fn spec_error_text(e: JsError) -> Seq<char>
    decreases e,
{
    match e.cause {
        Some(c) => e.message@ + ", cause: "@ + spec_error_text(*c),
        None => e.message@,
    }
}

impl JsError {
    /// An error with no underlying cause.
    pub fn new(message: String) -> (r: JsError)
        ensures
            r.message@ == message@,
            r.cause is None,
    {
        JsError { message, cause: None }
    }

    /// An error caused by `cause`.
    pub fn with_cause(message: String, cause: JsError) -> (r: JsError)
        ensures
            r.message@ == message@,
            match r.cause {
                Some(c) => *c == cause,
                None => false,
            },
    {
        JsError { message, cause: Some(Box::new(cause)) }
    }

    /// The flattened one-line text of the chain.
    pub fn render(&self) -> (r: String)
        ensures
            r@ == spec_error_text(*self),
        decreases *self,
    {
        let mut out = self.message.clone();
        match &self.cause {
            Some(c) => {
                out.append(", cause: ");
                let tail = c.render();
                out.append(tail.as_str());
                assert(out@ =~= spec_error_text(*self));
                out
            },
            None => out,
        }
    }
}

/// One frame of a walked stack trace.
pub struct StackFrame {
    /// The function name, when the VM knows one.
    pub function: Option<String>,
    /// The script name or source URL, when known.
    pub script: Option<String>,
    /// 1-based line number.
    pub line: u32,
    /// 1-based column number.
    pub column: u32,
}

/// What the VM reports about a failed compilation or a thrown value:
/// message, resource name, line, column range, and the raw stack frames
/// where available.
pub struct CompileDiagnostic {
    pub message: String,
    /// The resource (script) name, when the VM knows one.
    pub resource: Option<String>,
    /// The 1-based line of the error, when known.
    pub line: Option<u32>,
    pub column_start: u32,
    pub column_end: u32,
    pub frames: Vec<StackFrame>,
}

/// The text standing in for a name the VM did not report.
pub open spec fn spec_unknown() -> Seq<char> {
    "<unknown>"@
}

/// `s`'s view, or `<unknown>` when absent.
pub open spec fn spec_or_unknown(s: Option<String>) -> Seq<char> {
    match s {
        Some(v) => v@,
        None => spec_unknown(),
    }
}

/// The header line logged for a compile error:
/// `Compile error: <message> -- at [line <line>: column <start> - column
/// <end>] in <resource>`, with `<unknown>` for a missing line or resource.
pub open spec fn spec_diag_line(d: CompileDiagnostic) -> Seq<char> {
    "Compile error: "@ + d.message@ + " -- at [line "@ + (match d.line {
        Some(n) => spec_decimal(n as int),
        None => spec_unknown(),
    }) + ": column "@ + spec_decimal(d.column_start as int) + " - column "@ + spec_decimal(
        d.column_end as int,
    ) + "] in "@ + spec_or_unknown(d.resource)
}

/// The line logged for one stack frame:
/// `function <function> at <script> - [<line>:<column>]`.
pub open spec fn spec_frame_line(f: StackFrame) -> Seq<char> {
    "function "@ + spec_or_unknown(f.function) + " at "@ + spec_or_unknown(f.script) + " - ["@
        + spec_decimal(f.line as int) + ":"@ + spec_decimal(f.column as int) + "]"@
}

fn or_unknown(s: &Option<String>) -> (r: &str)
    ensures
        r@ == spec_or_unknown(*s),
{
    match s {
        Some(v) => v.as_str(),
        None => "<unknown>",
    }
}

impl CompileDiagnostic {
    /// Renders the header line of the diagnostic, as the worker logs it.
    pub fn render_line(&self) -> (r: String)
        ensures
            r@ == spec_diag_line(*self),
    {
        let mut out = String::from_str("Compile error: ");
        out.append(self.message.as_str());
        out.append(" -- at [line ");
        match &self.line {
            Some(n) => {
                let num = u32_to_string(*n);
                out.append(num.as_str());
            },
            None => {
                out.append("<unknown>");
            },
        }
        out.append(": column ");
        let cs = u32_to_string(self.column_start);
        out.append(cs.as_str());
        out.append(" - column ");
        let ce = u32_to_string(self.column_end);
        out.append(ce.as_str());
        out.append("] in ");
        out.append(or_unknown(&self.resource));
        assert(out@ =~= spec_diag_line(*self));
        out
    }

    /// Renders the lines for the walked stack frames, in order.
    pub fn render_frames(&self) -> (r: Vec<String>)
        ensures
            r.deep_view() == self.frames@.map_values(|f: StackFrame| spec_frame_line(f)),
    {
        let mut out: Vec<String> = Vec::new();
        let n = self.frames.len();
        let mut i: usize = 0;
        while i < n
            invariant
                0 <= i <= n,
                n == self.frames@.len(),
                out.deep_view() =~= self.frames@.take(i as int).map_values(
                    |f: StackFrame| spec_frame_line(f),
                ),
            decreases n - i,
        {
            let ghost before = out.deep_view();
            let line = render_frame(&self.frames[i]);
            out.push(line);
            proof {
                assert(out.deep_view() =~= before.push(spec_frame_line(self.frames@[i as int])));
                assert(self.frames@.take(i + 1) =~= self.frames@.take(i as int).push(
                    self.frames@[i as int],
                ));
            }
            i = i + 1;
        }
        proof {
            assert(self.frames@.take(n as int) =~= self.frames@);
        }
        out
    }
}

/// Renders one stack frame's log line.
pub fn render_frame(f: &StackFrame) -> (r: String)
    ensures
        r@ == spec_frame_line(*f),
{
    let mut out = String::from_str("function ");
    out.append(or_unknown(&f.function));
    out.append(" at ");
    out.append(or_unknown(&f.script));
    out.append(" - [");
    let ln = u32_to_string(f.line);
    out.append(ln.as_str());
    out.append(":");
    let col = u32_to_string(f.column);
    out.append(col.as_str());
    out.append("]");
    assert(out@ =~= spec_frame_line(*f));
    out
}

} // verus!
