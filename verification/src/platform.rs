//! Process-wide VM platform initialization.
//!
//! The shared VM infrastructure must be initialized exactly once however
//! many workers start, across script types.  A counter guards it: only the
//! acquisition that moves the counter off zero performs the one-time
//! initialization.

use vstd::prelude::*;

verus! {

/// The process-wide initialization counter.
pub struct PlatformInit {
    pub count: u64,
}

impl PlatformInit {
    /// Nothing initialized yet.
    pub fn new() -> (r: PlatformInit)
        ensures
            r.count == 0,
    {
        PlatformInit { count: 0 }
    }

    /// Called by each starting worker.  Returns whether this caller must
    /// perform the one-time platform initialization: true exactly for the
    /// first acquisition.
    pub fn acquire(&mut self) -> (do_init: bool)
        requires
            old(self).count < u64::MAX,
        ensures
            final(self).count == old(self).count + 1,
            do_init == (old(self).count == 0),
    {
        self.count = self.count + 1;
        self.count == 1
    }
}

} // verus!
