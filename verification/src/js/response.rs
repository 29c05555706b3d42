//! Conversion of an evaluated JS module value into a response.
//!
//! The rule: an object may carry `status` (number, default 200), `headers`
//! (own enumerable entries whose string values become the header map, other
//! values skipped) and `body` (a string); a missing body yields 404 with a
//! fixed placeholder message.  A plain string is the whole body with status
//! 200.  Anything else yields the 404 placeholder.

use vstd::prelude::*;
use vstd::utf8::encode_utf8;
use crate::common::{model_insert, table_model, HeaderTable, ResponseData};
use crate::text::{spec_trim, trim};

verus! {

/// One own enumerable property of the `headers` object, as the embedding
/// hands it over: the value either was a string, or it was something the
/// header map does not take.
pub enum JsProp {
    /// A string property value.
    Text(String),
    /// A value of any other type; skipped by the conversion.
    Other,
}

/// One entry of the `headers` object: property name and value.
pub struct JsHeaderEntry {
    pub name: String,
    pub value: JsProp,
}

/// The evaluated value of the root module, projected to what the response
/// conversion reads: either an object with its three relevant properties,
/// or a plain string, or anything else.
pub enum JsValue {
    /// An object; `status` is its `status` property read as a 32-bit
    /// integer (absent when the property is missing or not a number),
    /// `headers` the own enumerable entries of its `headers` object (empty
    /// when missing or not an object), `body` its stringified `body`
    /// property (absent when missing).
    Object { status: Option<i32>, headers: Vec<JsHeaderEntry>, body: Option<String> },
    /// A plain string value.
    Text(String),
    /// Any other value.
    Other,
}

/// The fixed body sent when a script returns nothing usable.
pub open spec fn placeholder_body() -> Seq<char> {
    "Script returns empty content"@
}

/// The placeholder body as a string.
pub fn placeholder_text() -> (r: String)
    ensures
        r@ == placeholder_body(),
{
    String::from_str("Script returns empty content")
}

/// The status code an object yields: its `status` property truncated to
/// 16 bits, or 200 when absent.
pub open spec fn spec_status_of(status: Option<i32>) -> u16 {
    match status {
        Some(n) => n as u16,
        None => 200u16,
    }
}

/// The header map an object's `headers` entries build: string values are
/// trimmed on both sides of name and value, entries with an empty trimmed
/// name or value are dropped, later entries replace earlier ones of the
/// same name, and non-string values are skipped.
pub open spec fn spec_collect_headers(entries: Seq<JsHeaderEntry>) -> Seq<
    (Seq<char>, Seq<char>),
>
    decreases entries.len(),
{
    if entries.len() == 0 {
        Seq::empty()
    } else {
        let rest = spec_collect_headers(entries.drop_last());
        match entries.last().value {
            JsProp::Text(v) => {
                let k = spec_trim(entries.last().name@);
                let tv = spec_trim(v@);
                if k.len() > 0 && tv.len() > 0 {
                    model_insert(rest, k, tv)
                } else {
                    rest
                }
            },
            JsProp::Other => rest,
        }
    }
}

/// The exact relation between an evaluated module value and the response
/// built for it.
pub open spec fn spec_response_ok(value: JsValue, r: ResponseData) -> bool {
    r.headers.wf() && match value {
        JsValue::Object { status, headers, body } => {
            &&& table_model(r.headers.entries@) == spec_collect_headers(headers@)
            &&& match body {
                Some(b) => r.status == spec_status_of(status) && r.body@ == encode_utf8(b@),
                None => r.status == 404 && r.body@ == encode_utf8(placeholder_body()),
            }
        },
        JsValue::Text(s) => {
            &&& r.status == 200
            &&& r.headers.entries@.len() == 0
            &&& r.body@ == encode_utf8(s@)
        },
        JsValue::Other => {
            &&& r.status == 404
            &&& r.headers.entries@.len() == 0
            &&& r.body@ == encode_utf8(placeholder_body())
        },
    }
}

/// Builds the response for one evaluated module value, following the
/// conversion rule above.
pub fn make_response(value: JsValue) -> (r: ResponseData)
    ensures
        r.headers.wf(),
        spec_response_ok(value, r),
        match value {
            JsValue::Object { status, headers, body } => {
                &&& table_model(r.headers.entries@) == spec_collect_headers(headers@)
                &&& match body {
                    Some(b) => r.status == spec_status_of(status) && r.body@ == encode_utf8(b@),
                    None => r.status == 404 && r.body@ == encode_utf8(placeholder_body()),
                }
            },
            JsValue::Text(s) => {
                &&& r.status == 200
                &&& r.headers.entries@.len() == 0
                &&& r.body@ == encode_utf8(s@)
            },
            JsValue::Other => {
                &&& r.status == 404
                &&& r.headers.entries@.len() == 0
                &&& r.body@ == encode_utf8(placeholder_body())
            },
        },
{
    match value {
        JsValue::Object { status, headers, body } => {
            let st: u16 = match status {
                Some(n) => #[verifier::truncate] (n as u16),
                None => 200,
            };
            assert(st == spec_status_of(status));
            let mut table = HeaderTable::new();
            let n = headers.len();
            let mut i: usize = 0;
            proof {
                assert(headers@.take(0) =~= Seq::<JsHeaderEntry>::empty());
                assert(table_model(table.entries@)
                    =~= spec_collect_headers(headers@.take(0)));
            }
            while i < n
                invariant
                    0 <= i <= n,
                    n == headers@.len(),
                    table.wf(),
                    table_model(table.entries@) == spec_collect_headers(headers@.take(i as int)),
                decreases n - i,
            {
                proof {
                    assert(headers@.take(i + 1).drop_last() =~= headers@.take(i as int));
                    assert(headers@.take(i + 1).last() == headers@[i as int]);
                }
                match &headers[i].value {
                    JsProp::Text(v) => {
                        let k = trim(headers[i].name.as_str());
                        let tv = trim(v.as_str());
                        if !k.as_str().is_empty() && !tv.as_str().is_empty() {
                            table.insert(k, tv);
                        }
                    },
                    JsProp::Other => {},
                }
                i = i + 1;
            }
            proof {
                assert(headers@.take(n as int) =~= headers@);
            }
            match body {
                Some(b) => ResponseData { status: st, headers: table, body: b.as_str().as_bytes_vec() },
                None => ResponseData {
                    status: 404,
                    headers: table,
                    body: placeholder_text().as_str().as_bytes_vec(),
                },
            }
        },
        JsValue::Text(s) => ResponseData {
            status: 200,
            headers: HeaderTable::new(),
            body: s.as_str().as_bytes_vec(),
        },
        JsValue::Other => ResponseData {
            status: 404,
            headers: HeaderTable::new(),
            body: placeholder_text().as_str().as_bytes_vec(),
        },
    }
}

} // verus!
