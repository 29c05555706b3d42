//! The capability surface a composed system exposes to the execution
//! core: one trait per concern.  Implementations that touch the outside
//! world (disk, network) live with the embedding; the library only speaks
//! through these interfaces.

use vstd::prelude::*;

verus! {

/// A log sink.
pub trait LogHandler {

}

/// Access to script files on some storage.
pub trait FileSystem {
    /// Lists the entries of the directory at `path`.
    fn list_dir(&self, path: &str) -> Result<Vec<String>, String>;

    /// Reads the file at `path`.
    fn read_file(&self, path: &str) -> Result<Vec<u8>, String>;
}

/// A database backend.
pub trait DatabaseSystem {

}

/// Process life-cycle hooks.
pub trait LifeCycleHandler {

}

/// A governance policy.
pub trait Governance {

}

/// A cache backend.
pub trait CacheHandler {

}

/// A messaging backend.
pub trait Message {

}

} // verus!
