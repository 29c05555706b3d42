//! The life-cycle concern.

use vstd::prelude::*;

verus! {

/// A life-cycle hook set of the host.
pub trait LifeCycleHandler: Copy + Send {

}

/// The life-cycle hooks used by default.
#[derive(Copy, Clone)]
pub struct DefaultLifeCycleHandler;

impl DefaultLifeCycleHandler {
    pub fn new() -> DefaultLifeCycleHandler {
        DefaultLifeCycleHandler {  }
    }
}

impl LifeCycleHandler for DefaultLifeCycleHandler {

}

/// Which life-cycle backend the host runs with.
#[derive(Copy, Clone)]
pub enum LifeCycleSelector {
    Default(DefaultLifeCycleHandler),
}

impl Default for LifeCycleSelector {
    /// The default backend.
    fn default() -> (r: Self)
        ensures
            r is Default,
    {
        LifeCycleSelector::Default(DefaultLifeCycleHandler::new())
    }
}

} // verus!
