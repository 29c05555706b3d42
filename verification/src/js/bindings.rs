//! The script-visible native bindings of the JS engine.
//!
//! `console.log` and `console.error` forward their argument to the host
//! log and echo it back to the caller; the echo is the part stated here,
//! the logging is the embedding's side effect.  The `request` accessors
//! read the request bound to the isolate for the current execution; the
//! string ones live on [`crate::common::RequestData`], and the body
//! accessor decodes the body bytes as UTF-8 here.

use vstd::prelude::*;
use vstd::utf8::{encode_utf8, valid_utf8};
use crate::common::RequestData;

verus! {

/// The value `console.log(x)` hands back: its argument, unchanged.
pub fn js_log(message: String) -> (r: String)
    ensures
        r@ == message@,
{
    message
}

/// The value `console.error(x)` hands back: its argument, unchanged.
pub fn js_error(message: String) -> (r: String)
    ensures
        r@ == message@,
{
    message
}

/// Relies on `String::from_utf8` of std: it returns the string carrying
/// exactly the given bytes when they are valid UTF-8, and refuses
/// otherwise.
#[verifier::external_body]
fn string_from_utf8(bytes: Vec<u8>) -> (r: Option<String>)
    ensures
        match r {
            Some(s) => valid_utf8(bytes@) && encode_utf8(s@) == bytes@,
            None => !valid_utf8(bytes@),
        },
{
    String::from_utf8(bytes).ok()
}

/// The request body decoded as UTF-8, as the script-visible
/// `request.body` accessor hands it to the script; absent when the bytes
/// are not valid UTF-8.
pub fn body_text(request: &RequestData) -> (r: Option<String>)
    ensures
        match r {
            Some(s) => valid_utf8(request.body@) && encode_utf8(s@) == request.body@,
            None => !valid_utf8(request.body@),
        },
{
    let copy = clone_bytes(&request.body);
    string_from_utf8(copy)
}

/// Copies a byte vector.
fn clone_bytes(v: &Vec<u8>) -> (r: Vec<u8>)
    ensures
        r@ == v@,
{
    let mut out: Vec<u8> = Vec::new();
    let n = v.len();
    let mut i: usize = 0;
    while i < n
        invariant
            0 <= i <= n,
            n == v@.len(),
            out@ == v@.take(i as int),
        decreases n - i,
    {
        out.push(v[i]);
        proof {
            assert(v@.take(i + 1) =~= v@.take(i as int).push(v@[i as int]));
        }
        i = i + 1;
    }
    proof {
        assert(v@.take(n as int) =~= v@);
    }
    out
}

} // verus!
