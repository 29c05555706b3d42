//! The cache concern.

use vstd::prelude::*;

verus! {

/// A cache backend of the host.
pub trait CacheHandler: Copy + Send {

}

/// The in-process cache backend.
#[derive(Copy, Clone)]
pub struct LocalCacheHandler;

impl LocalCacheHandler {
    pub fn new() -> LocalCacheHandler {
        LocalCacheHandler {  }
    }
}

impl CacheHandler for LocalCacheHandler {

}

/// Which cache backend the host runs with.
#[derive(Copy, Clone)]
pub enum CacheSelector {
    Default(LocalCacheHandler),
}

impl Default for CacheSelector {
    /// The in-process backend.
    fn default() -> (r: Self)
        ensures
            r is Default,
    {
        CacheSelector::Default(LocalCacheHandler::new())
    }
}

} // verus!
