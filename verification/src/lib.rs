//! An HTTP-triggered script execution host, modelled and verified.
//!
//! Inbound requests are routed to one of several embedded language runtimes
//! (a JavaScript engine and a Lua engine), which execute user-supplied script
//! files and produce an HTTP response (status, headers, body).  This crate
//! holds the execution core: the request/response data model, the JS module
//! registry and its load/instantiate/evaluate state machine, the response
//! conversion rules for both engines, and the routing table.  The actual VM
//! embeddings, threads and sockets live outside the library and drive the
//! state machines defined here.

use vstd::prelude::*;

pub mod common;
pub mod gateway;
pub mod host;
pub mod js;
pub mod lua;
pub mod platform;
pub mod script;
pub mod service;
pub mod text;

verus! {

/// Builds a fresh server model.  Banner printing and log initialization
/// are the embedding's concern; the core starts with the index route
/// registered and no script engine running.
pub fn new() -> (r: gateway::Server)
    ensures
        r.wf(),
        r.engines@.len() == 0,
        r.routes@.len() == 1,
{
    gateway::Server::new()
}

} // verus!
