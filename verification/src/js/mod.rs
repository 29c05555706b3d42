//! The JavaScript engine's verified core: the module registry, the
//! load/instantiate/evaluate state machine of one request, the response
//! conversion rule, pending promise rejections and error rendering.

pub mod bindings;
pub mod error;
pub mod isolate;
pub mod registry;
pub mod rejections;
pub mod response;
