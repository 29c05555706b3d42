//! The governance concern.

use vstd::prelude::*;

verus! {

/// A governance policy of the host.
pub trait Governance: Copy + Send {

}

/// The governance policy used by default.
#[derive(Copy, Clone)]
pub struct DefaultGovernance;

impl DefaultGovernance {
    pub fn new() -> DefaultGovernance {
        DefaultGovernance {  }
    }
}

impl Governance for DefaultGovernance {

}

/// Which governance backend the host runs with.
#[derive(Copy, Clone)]
pub enum GovernanceSelector {
    Default(DefaultGovernance),
}

impl Default for GovernanceSelector {
    /// The default backend.
    fn default() -> (r: Self)
        ensures
            r is Default,
    {
        GovernanceSelector::Default(DefaultGovernance::new())
    }
}

} // verus!
