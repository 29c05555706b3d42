//! Tracking of pending promise rejections.
//!
//! The VM reports promise lifecycle events through a callback; the worker
//! keeps the rejections that still have no handler, keyed by promise
//! identity, so that a handler attached later can clear them.

use vstd::prelude::*;

verus! {

/// One unhandled rejection: the promise identity and the flattened
/// exception message.
pub struct PendingRejection {
    pub promise_id: i32,
    pub message: String,
}

/// A promise lifecycle event, as the VM's reject callback reports it.
pub enum PromiseRejectEvent {
    /// A promise was rejected and nothing handles it yet.
    RejectWithNoHandler { promise_id: i32, message: String },
    /// A handler was attached to an already-rejected promise.
    HandlerAddedAfterReject { promise_id: i32 },
    /// A rejection arrived after the promise resolved; ignored.
    RejectAfterResolved { promise_id: i32 },
    /// A resolution arrived after the promise resolved; ignored.
    ResolveAfterResolved { promise_id: i32 },
}

/// Promise identities of `s` are pairwise distinct.
pub open spec fn rejections_wf(s: Seq<PendingRejection>) -> bool {
    forall|i: int, j: int| 0 <= i < j < s.len() ==> s[i].promise_id != s[j].promise_id
}

/// Whether `s` holds a pending rejection for `id`.
pub open spec fn has_rejection(s: Seq<PendingRejection>, id: i32) -> bool {
    exists|i: int| 0 <= i < s.len() && s[i].promise_id == id
}

/// The message pending for `id`, when `has_rejection(s, id)`.
pub open spec fn rejection_message(s: Seq<PendingRejection>, id: i32) -> Seq<char> {
    let i = choose|i: int| 0 <= i < s.len() && s[i].promise_id == id;
    s[i].message@
}

proof fn lemma_rejection_at(s: Seq<PendingRejection>, w: int, id: i32)
    requires
        rejections_wf(s),
        0 <= w < s.len(),
        s[w].promise_id == id,
    ensures
        has_rejection(s, id),
        rejection_message(s, id) == s[w].message@,
{
    let i = choose|i: int| 0 <= i < s.len() && s[i].promise_id == id;
    if i != w {
        assert(s[i].promise_id == s[w].promise_id);
    }
}

/// The rejections of one worker that still await a handler.
pub struct PendingRejections {
    pub entries: Vec<PendingRejection>,
}

impl PendingRejections {
    /// The invariant: one pending entry per promise identity.
    pub open spec fn wf(self) -> bool {
        rejections_wf(self.entries@)
    }

    /// No rejection pending.
    pub fn new() -> (r: PendingRejections)
        ensures
            r.wf(),
            r.entries@.len() == 0,
    {
        PendingRejections { entries: Vec::new() }
    }

    /// Applies one VM promise event: an unhandled rejection is recorded
    /// (replacing any earlier record for the same promise), a late handler
    /// clears the record, and the two after-resolution events change
    /// nothing.
    pub fn on_event(&mut self, event: PromiseRejectEvent)
        requires
            old(self).wf(),
        ensures
            final(self).wf(),
            match event {
                PromiseRejectEvent::RejectWithNoHandler { promise_id, message } => {
                    &&& has_rejection(final(self).entries@, promise_id)
                    &&& rejection_message(final(self).entries@, promise_id) == message@
                    &&& forall|q: i32|
                        q != promise_id
                            ==> (has_rejection(final(self).entries@, q) == has_rejection(
                                old(self).entries@,
                                q,
                            ))
                    &&& forall|q: i32|
                        q != promise_id && has_rejection(old(self).entries@, q)
                            ==> rejection_message(final(self).entries@, q) == rejection_message(
                                old(self).entries@,
                                q,
                            )
                },
                PromiseRejectEvent::HandlerAddedAfterReject { promise_id } => {
                    &&& !has_rejection(final(self).entries@, promise_id)
                    &&& forall|q: i32|
                        q != promise_id
                            ==> (has_rejection(final(self).entries@, q) == has_rejection(
                                old(self).entries@,
                                q,
                            ))
                    &&& forall|q: i32|
                        q != promise_id && has_rejection(old(self).entries@, q)
                            ==> rejection_message(final(self).entries@, q) == rejection_message(
                                old(self).entries@,
                                q,
                            )
                },
                PromiseRejectEvent::RejectAfterResolved { .. } => *final(self) == *old(self),
                PromiseRejectEvent::ResolveAfterResolved { .. } => *final(self) == *old(self),
            },
    {
        match event {
            PromiseRejectEvent::RejectWithNoHandler { promise_id, message } => {
                self.record(promise_id, message);
            },
            PromiseRejectEvent::HandlerAddedAfterReject { promise_id } => {
                self.clear(promise_id);
            },
            PromiseRejectEvent::RejectAfterResolved { .. } => {},
            PromiseRejectEvent::ResolveAfterResolved { .. } => {},
        }
    }

    /// Records an unhandled rejection, replacing any earlier record for
    /// the same promise.
    fn record(&mut self, promise_id: i32, message: String)
        requires
            old(self).wf(),
        ensures
            final(self).wf(),
            has_rejection(final(self).entries@, promise_id),
            rejection_message(final(self).entries@, promise_id) == message@,
            forall|q: i32|
                q != promise_id
                    ==> (has_rejection(final(self).entries@, q) == has_rejection(
                        old(self).entries@,
                        q,
                    )),
            forall|q: i32|
                q != promise_id && has_rejection(old(self).entries@, q)
                    ==> rejection_message(final(self).entries@, q) == rejection_message(
                        old(self).entries@,
                        q,
                    ),
    {
        let ghost orig = self.entries@;
        let n = self.entries.len();
        let mut i: usize = 0;
        while i < n
            invariant
                0 <= i <= n,
                self.entries@ == orig,
                old(self).entries@ == orig,
                n == orig.len(),
                rejections_wf(orig),
                forall|j: int| 0 <= j < i ==> orig[j].promise_id != promise_id,
            decreases n - i,
        {
            if self.entries[i].promise_id == promise_id {
                let ghost w = i as int;
                self.entries.set(i, PendingRejection { promise_id, message });
                proof {
                    let now = self.entries@;
                    assert(forall|j: int|
                        0 <= j < now.len() ==> now[j].promise_id == orig[j].promise_id);
                    assert(rejections_wf(now));
                    lemma_rejection_at(now, w, promise_id);
                    assert forall|q: i32| q != promise_id implies (has_rejection(now, q)
                        == has_rejection(orig, q)) by {
                        if has_rejection(orig, q) {
                            let u = choose|u: int|
                                0 <= u < orig.len() && orig[u].promise_id == q;
                            assert(now[u].promise_id == q);
                        }
                        if has_rejection(now, q) {
                            let u = choose|u: int| 0 <= u < now.len() && now[u].promise_id == q;
                            assert(orig[u].promise_id == q);
                        }
                    }
                    assert forall|q: i32| q != promise_id && has_rejection(orig, q) implies
                        rejection_message(now, q) == rejection_message(orig, q) by {
                        let u = choose|u: int| 0 <= u < orig.len() && orig[u].promise_id == q;
                        assert(u != w);
                        lemma_rejection_at(now, u, q);
                        lemma_rejection_at(orig, u, q);
                    }
                }
                return;
            }
            i = i + 1;
        }
        self.entries.push(PendingRejection { promise_id, message });
        proof {
            let now = self.entries@;
            let last = orig.len() as int;
            assert(now[last].promise_id == promise_id);
            assert(forall|j: int| 0 <= j < last ==> now[j] == orig[j]);
            assert(rejections_wf(now));
            lemma_rejection_at(now, last, promise_id);
            assert forall|q: i32| q != promise_id implies (has_rejection(now, q) == has_rejection(
                orig,
                q,
            )) by {
                if has_rejection(orig, q) {
                    let u = choose|u: int| 0 <= u < orig.len() && orig[u].promise_id == q;
                    assert(now[u].promise_id == q);
                }
                if has_rejection(now, q) {
                    let u = choose|u: int| 0 <= u < now.len() && now[u].promise_id == q;
                    assert(u != last);
                    assert(orig[u].promise_id == q);
                }
            }
            assert forall|q: i32| q != promise_id && has_rejection(orig, q) implies
                rejection_message(now, q) == rejection_message(orig, q) by {
                let u = choose|u: int| 0 <= u < orig.len() && orig[u].promise_id == q;
                lemma_rejection_at(now, u, q);
                lemma_rejection_at(orig, u, q);
            }
        }
    }

    /// Clears the pending rejection for `promise_id`, if any.
    fn clear(&mut self, promise_id: i32)
        requires
            old(self).wf(),
        ensures
            final(self).wf(),
            !has_rejection(final(self).entries@, promise_id),
            forall|q: i32|
                q != promise_id
                    ==> (has_rejection(final(self).entries@, q) == has_rejection(
                        old(self).entries@,
                        q,
                    )),
            forall|q: i32|
                q != promise_id && has_rejection(old(self).entries@, q)
                    ==> rejection_message(final(self).entries@, q) == rejection_message(
                        old(self).entries@,
                        q,
                    ),
    {
        let ghost orig = self.entries@;
        let n = self.entries.len();
        let mut i: usize = 0;
        while i < n
            invariant
                0 <= i <= n,
                self.entries@ == orig,
                old(self).entries@ == orig,
                n == orig.len(),
                rejections_wf(orig),
                forall|j: int| 0 <= j < i ==> orig[j].promise_id != promise_id,
            decreases n - i,
        {
            if self.entries[i].promise_id == promise_id {
                let ghost w = i as int;
                self.entries.remove(i);
                proof {
                    let now = self.entries@;
                    assert(now =~= orig.subrange(0, w) + orig.subrange(w + 1, orig.len() as int));
                    assert forall|j: int| 0 <= j < now.len() implies now[j] == (if j < w {
                        orig[j]
                    } else {
                        orig[j + 1]
                    }) by {}
                    assert(rejections_wf(now));
                    assert(!has_rejection(now, promise_id)) by {
                        if has_rejection(now, promise_id) {
                            let u = choose|u: int|
                                0 <= u < now.len() && now[u].promise_id == promise_id;
                            if u < w {
                                assert(orig[u].promise_id == orig[w].promise_id);
                            } else {
                                assert(orig[u + 1].promise_id == orig[w].promise_id);
                            }
                        }
                    }
                    assert forall|q: i32| q != promise_id implies (has_rejection(now, q)
                        == has_rejection(orig, q)) by {
                        if has_rejection(orig, q) {
                            let u = choose|u: int|
                                0 <= u < orig.len() && orig[u].promise_id == q;
                            assert(u != w);
                            if u < w {
                                assert(now[u].promise_id == q);
                            } else {
                                assert(now[u - 1].promise_id == q);
                            }
                        }
                        if has_rejection(now, q) {
                            let u = choose|u: int| 0 <= u < now.len() && now[u].promise_id == q;
                            if u < w {
                                assert(orig[u].promise_id == q);
                            } else {
                                assert(orig[u + 1].promise_id == q);
                            }
                        }
                    }
                    assert forall|q: i32| q != promise_id && has_rejection(orig, q) implies
                        rejection_message(now, q) == rejection_message(orig, q) by {
                        let u = choose|u: int| 0 <= u < orig.len() && orig[u].promise_id == q;
                        lemma_rejection_at(orig, u, q);
                        if u < w {
                            lemma_rejection_at(now, u, q);
                        } else {
                            assert(u != w);
                            assert(now[u - 1] == orig[u]);
                            lemma_rejection_at(now, u - 1, q);
                        }
                    }
                }
                return;
            }
            i = i + 1;
        }
    }
}

} // verus!
