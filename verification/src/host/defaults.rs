//! Default implementations of the capability surface.
//!
//! These are the unit backends a plain deployment wires together.  The
//! disk-backed `FileSystem` implementation does I/O and therefore lives
//! with the embedding, which implements the trait for a type of its own;
//! `LocalFileSystem` here only names that role.

use vstd::prelude::*;
use crate::host::exports::{
    CacheHandler, DatabaseSystem, Governance, LifeCycleHandler, LogHandler, Message,
};

verus! {

/// The entries of `items` that are not empty, in order.  A directory
/// listing maps unreadable entries to empty strings; this keeps the rest.
pub open spec fn spec_nonempty(items: Seq<String>) -> Seq<Seq<char>>
    decreases items.len(),
{
    if items.len() == 0 {
        Seq::empty()
    } else if items.last()@.len() > 0 {
        spec_nonempty(items.drop_last()).push(items.last()@)
    } else {
        spec_nonempty(items.drop_last())
    }
}

/// Drops the empty strings from a directory listing.
pub fn keep_nonempty(items: Vec<String>) -> (r: Vec<String>)
    ensures
        r.deep_view() == spec_nonempty(items@),
{
    let mut out: Vec<String> = Vec::new();
    let mut rest = items;
    let ghost orig = rest@;
    let n = rest.len();
    let mut i: usize = 0;
    proof {
        assert(orig.take(0) =~= Seq::<String>::empty());
        assert(out.deep_view() =~= spec_nonempty(orig.take(0)));
    }
    while i < n
        invariant
            0 <= i <= n,
            orig == items@,
            n == orig.len(),
            rest@ == orig.subrange(i as int, n as int),
            out.deep_view() == spec_nonempty(orig.take(i as int)),
        decreases n - i,
    {
        proof {
            assert(rest@[0] == orig[i as int]);
            assert(orig.take(i + 1).drop_last() =~= orig.take(i as int));
            assert(orig.take(i + 1).last() == orig[i as int]);
        }
        let ghost before = out.deep_view();
        let item = rest.remove(0);
        if !item.as_str().is_empty() {
            out.push(item);
            proof {
                assert(out.deep_view() =~= before.push(orig[i as int]@));
            }
        }
        i = i + 1;
    }
    proof {
        assert(orig.take(n as int) =~= orig);
    }
    out
}

/// The role of the local-disk file system backend.  Its `FileSystem`
/// implementation reads the disk and stands with the embedding.
pub struct LocalFileSystem;

impl LocalFileSystem {
    pub fn new() -> LocalFileSystem {
        LocalFileSystem {  }
    }
}

/// The in-process log sink.
pub struct LocalLogHandler;

impl LocalLogHandler {
    pub fn new() -> LocalLogHandler {
        LocalLogHandler {  }
    }
}

impl LogHandler for LocalLogHandler {

}

/// The stand-in database backend.
pub struct MockDatabaseSystem;

impl MockDatabaseSystem {
    pub fn new() -> MockDatabaseSystem {
        MockDatabaseSystem {  }
    }
}

impl DatabaseSystem for MockDatabaseSystem {

}

/// The default life-cycle hooks.
pub struct DefaultLifeCycleHandler;

impl DefaultLifeCycleHandler {
    pub fn new() -> DefaultLifeCycleHandler {
        DefaultLifeCycleHandler {  }
    }
}

impl LifeCycleHandler for DefaultLifeCycleHandler {

}

/// The default governance policy.
pub struct DefaultGovernance;

impl DefaultGovernance {
    pub fn new() -> DefaultGovernance {
        DefaultGovernance {  }
    }
}

impl Governance for DefaultGovernance {

}

/// The in-process cache backend.
pub struct LocalCacheHandler;

impl LocalCacheHandler {
    pub fn new() -> LocalCacheHandler {
        LocalCacheHandler {  }
    }
}

impl CacheHandler for LocalCacheHandler {

}

/// The in-process messaging backend.
pub struct LocalMessage;

impl LocalMessage {
    pub fn new() -> LocalMessage {
        LocalMessage {  }
    }
}

impl Message for LocalMessage {

}

} // verus!
