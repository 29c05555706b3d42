//! The logging concern.

use vstd::prelude::*;

verus! {

/// A log sink of the host.
pub trait LogHandler: Copy + Send {

}

/// The in-process log sink.
#[derive(Copy, Clone)]
pub struct LocalLogHandler;

impl LocalLogHandler {
    pub fn new() -> LocalLogHandler {
        LocalLogHandler {  }
    }
}

impl LogHandler for LocalLogHandler {

}

/// Which logging backend the host runs with.
#[derive(Copy, Clone)]
pub enum LogSelector {
    Default(LocalLogHandler),
}

impl Default for LogSelector {
    /// The default backend.
    fn default() -> (r: Self)
        ensures
            r is Default,
    {
        LogSelector::Default(LocalLogHandler::new())
    }
}

} // verus!
