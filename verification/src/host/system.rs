//! The composition root: one value holding an implementation of every
//! concern, wired once at startup and passed by reference into the parts
//! that need it.

use vstd::prelude::*;
use crate::host::exports::{
    CacheHandler, DatabaseSystem, FileSystem, Governance, LifeCycleHandler, LogHandler, Message,
};

verus! {

/// A composed system: one implementation per concern.
pub struct System<L, F, D, C, G, H, M> {
    log_handler: L,
    file_system: F,
    database_system: D,
    life_cycle_handler: C,
    governance: G,
    cache_handler: H,
    message: M,
}

impl<
    L: LogHandler,
    F: FileSystem,
    D: DatabaseSystem,
    C: LifeCycleHandler,
    G: Governance,
    H: CacheHandler,
    M: Message,
> System<L, F, D, C, G, H, M> {
    /// Wires the given implementations into one system.
    pub fn create(
        log_handler: L,
        file_system: F,
        database_system: D,
        life_cycle_handler: C,
        governance: G,
        cache_handler: H,
        message: M,
    ) -> System<L, F, D, C, G, H, M> {
        System {
            log_handler,
            file_system,
            database_system,
            life_cycle_handler,
            governance,
            cache_handler,
            message,
        }
    }

    /// Lists a directory through the wired file system.
    pub fn list_dir(&self, path: &str) -> Result<Vec<String>, String> {
        self.file_system.list_dir(path)
    }

    /// Reads a file through the wired file system.
    pub fn read_file(&self, path: &str) -> Result<Vec<u8>, String> {
        self.file_system.read_file(path)
    }
}

} // verus!
