//! The messaging concern.

use vstd::prelude::*;

verus! {

/// A messaging backend of the host.
pub trait Message: Copy + Send {

}

/// The in-process messaging backend.
#[derive(Copy, Clone)]
pub struct LocalMessage;

impl LocalMessage {
    pub fn new() -> LocalMessage {
        LocalMessage {  }
    }
}

impl Message for LocalMessage {

}

/// Which messaging backend the host runs with.
#[derive(Copy, Clone)]
pub enum MessageSelector {
    Default(LocalMessage),
}

impl Default for MessageSelector {
    /// The default backend.
    fn default() -> (r: Self)
        ensures
            r is Default,
    {
        MessageSelector::Default(LocalMessage::new())
    }
}

} // verus!
