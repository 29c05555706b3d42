//! The database concern.

use vstd::prelude::*;

verus! {

/// A database backend of the host.
pub trait DatabaseSystem: Copy + Send {

}

/// The stand-in database backend used until a real one is wired in.
#[derive(Copy, Clone)]
pub struct MockDatabaseSystem;

impl MockDatabaseSystem {
    pub fn new() -> MockDatabaseSystem {
        MockDatabaseSystem {  }
    }
}

impl DatabaseSystem for MockDatabaseSystem {

}

/// Which database backend the host runs with.
#[derive(Copy, Clone)]
pub enum DatabaseSelector {
    Default(MockDatabaseSystem),
}

impl Default for DatabaseSelector {
    /// The default backend.
    fn default() -> (r: Self)
        ensures
            r is Default,
    {
        DatabaseSelector::Default(MockDatabaseSystem::new())
    }
}

} // verus!
