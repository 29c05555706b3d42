//! The JS worker's module registry.
//!
//! Each compiled module gets an entry holding its identity, name, lifecycle
//! flags and declared imports.  The registry is owned by exactly one JS
//! worker and keeps one invariant: a module name maps to at most one live
//! entry, and so does a module identity.

use vstd::prelude::*;

verus! {

/// What the registry records about one compiled module.  The engine-side
/// module handle itself lives with the VM embedding, keyed by `id`.
pub struct ModuleInfo {
    /// Whether this is the synthetic root module of a request.
    pub main: bool,
    /// Whether the module has been instantiated (imports resolved and
    /// linked).
    pub init: bool,
    /// The specifier under which the module was loaded.
    pub name: String,
    /// The identity the VM assigned to the compiled module.
    pub id: i32,
    /// The import specifiers the module declares, in source order.
    pub imports: Vec<String>,
}

/// Names of `s` are pairwise distinct, and so are identities.
pub open spec fn mods_wf(s: Seq<ModuleInfo>) -> bool {
    &&& forall|i: int, j: int| 0 <= i < j < s.len() ==> s[i].name@ != s[j].name@
    &&& forall|i: int, j: int| 0 <= i < j < s.len() ==> s[i].id != s[j].id
}

/// Whether `s` holds an entry named `n`.
pub open spec fn has_name(s: Seq<ModuleInfo>, n: Seq<char>) -> bool {
    exists|i: int| 0 <= i < s.len() && s[i].name@ == n
}

/// The index of the entry named `n`, when `has_name(s, n)`.
pub open spec fn name_index(s: Seq<ModuleInfo>, n: Seq<char>) -> int {
    choose|i: int| 0 <= i < s.len() && s[i].name@ == n
}

/// The entry named `n`, when `has_name(s, n)`.
pub open spec fn info_named(s: Seq<ModuleInfo>, n: Seq<char>) -> ModuleInfo {
    s[name_index(s, n)]
}

/// The identity registered under the name `n`, when `has_name(s, n)`.
pub open spec fn id_of(s: Seq<ModuleInfo>, n: Seq<char>) -> i32 {
    info_named(s, n).id
}

/// Whether `s` holds an entry with identity `id`.
pub open spec fn has_id(s: Seq<ModuleInfo>, id: i32) -> bool {
    exists|i: int| 0 <= i < s.len() && s[i].id == id
}

/// The entry with identity `id`, when `has_id(s, id)`.
pub open spec fn info_of(s: Seq<ModuleInfo>, id: i32) -> ModuleInfo {
    let i = choose|i: int| 0 <= i < s.len() && s[i].id == id;
    s[i]
}

/// In a well-formed registry, any entry named `n` is `info_named(s, n)`.
pub proof fn lemma_info_named_at(s: Seq<ModuleInfo>, w: int, n: Seq<char>)
    requires
        mods_wf(s),
        0 <= w < s.len(),
        s[w].name@ == n,
    ensures
        has_name(s, n),
        name_index(s, n) == w,
        info_named(s, n) == s[w],
{
    let i = name_index(s, n);
    if i != w {
        assert(s[i].name@ == s[w].name@);
    }
}

/// In a well-formed registry, any entry with identity `id` is
/// `info_of(s, id)`.
pub proof fn lemma_info_of_at(s: Seq<ModuleInfo>, w: int, id: i32)
    requires
        mods_wf(s),
        0 <= w < s.len(),
        s[w].id == id,
    ensures
        has_id(s, id),
        info_of(s, id) == s[w],
{
    let i = choose|i: int| 0 <= i < s.len() && s[i].id == id;
    if i != w {
        assert(s[i].id == s[w].id);
    }
}

/// The module registry: the set of live module entries of one JS worker.
pub struct Modules {
    pub entries: Vec<ModuleInfo>,
}

impl Modules {
    /// The registry invariant: unique names, unique identities.
    pub open spec fn wf(self) -> bool {
        mods_wf(self.entries@)
    }

    /// An empty registry.
    pub fn new() -> (r: Modules)
        ensures
            r.wf(),
            r.entries@.len() == 0,
    {
        Modules { entries: Vec::new() }
    }

    /// The identity registered under `name`, if any; the name-map lookup.
    pub fn lookup_name(&self, name: &String) -> (r: Option<i32>)
        requires
            self.wf(),
        ensures
            match r {
                Some(id) => has_name(self.entries@, name@) && id == id_of(self.entries@, name@),
                None => !has_name(self.entries@, name@),
            },
    {
        let n = self.entries.len();
        let mut i: usize = 0;
        while i < n
            invariant
                0 <= i <= n,
                n == self.entries@.len(),
                self.wf(),
                forall|j: int| 0 <= j < i ==> self.entries@[j].name@ != name@,
            decreases n - i,
        {
            if self.entries[i].name == *name {
                proof {
                    lemma_info_named_at(self.entries@, i as int, name@);
                }
                return Some(self.entries[i].id);
            }
            i = i + 1;
        }
        None
    }

    /// The entry with identity `id`, if any; the module-map lookup.
    pub fn get_by_id(&self, id: i32) -> (r: Option<&ModuleInfo>)
        requires
            self.wf(),
        ensures
            match r {
                Some(m) => has_id(self.entries@, id) && *m == info_of(self.entries@, id),
                None => !has_id(self.entries@, id),
            },
    {
        let n = self.entries.len();
        let mut i: usize = 0;
        while i < n
            invariant
                0 <= i <= n,
                n == self.entries@.len(),
                self.wf(),
                forall|j: int| 0 <= j < i ==> self.entries@[j].id != id,
            decreases n - i,
        {
            if self.entries[i].id == id {
                proof {
                    lemma_info_of_at(self.entries@, i as int, id);
                }
                return Some(&self.entries[i]);
            }
            i = i + 1;
        }
        None
    }

    /// Removes the entry named `name`, if any; every other entry stays.
    pub fn evict(&mut self, name: &String)
        requires
            old(self).wf(),
        ensures
            final(self).wf(),
            !has_name(final(self).entries@, name@),
            forall|k: Seq<char>|
                k != name@
                    ==> (has_name(final(self).entries@, k)
                        == has_name(old(self).entries@, k)),
            forall|k: Seq<char>|
                k != name@ && has_name(old(self).entries@, k)
                    ==> info_named(final(self).entries@, k)
                        == info_named(old(self).entries@, k),
            forall|i: i32|
                has_id(final(self).entries@, i)
                    ==> has_id(old(self).entries@, i),
            final(self).entries@.len()
                == if has_name(old(self).entries@, name@) {
                    old(self).entries@.len() - 1
                } else {
                    old(self).entries@.len() as int
                },
    {
        let ghost orig = self.entries@;
        let n = self.entries.len();
        let mut i: usize = 0;
        while i < n
            invariant
                0 <= i <= n,
                self.entries@ == orig,
                old(self).entries@ == orig,
                n == orig.len(),
                mods_wf(orig),
                forall|j: int| 0 <= j < i ==> orig[j].name@ != name@,
            decreases n - i,
        {
            if self.entries[i].name == *name {
                let ghost w = i as int;
                self.entries.remove(i);
                proof {
                    let now = self.entries@;
                    assert(now =~= orig.subrange(0, w) + orig.subrange(w + 1, orig.len() as int));
                    assert forall|j: int| 0 <= j < now.len() implies now[j] == (if j < w {
                        orig[j]
                    } else {
                        orig[j + 1]
                    }) by {}
                    assert(mods_wf(now));
                    assert forall|k: Seq<char>| k != name@ && has_name(orig, k) implies
                        has_name(now, k) && info_named(now, k) == info_named(orig, k) by {
                        let u = choose|u: int| 0 <= u < orig.len() && orig[u].name@ == k;
                        lemma_info_named_at(orig, u, k);
                        if u < w {
                            assert(now[u] == orig[u]);
                            lemma_info_named_at(now, u, k);
                        } else {
                            assert(u != w);
                            assert(now[u - 1] == orig[u]);
                            lemma_info_named_at(now, u - 1, k);
                        }
                    }
                    assert forall|k: Seq<char>| has_name(now, k) implies has_name(orig, k) by {
                        let u = choose|u: int| 0 <= u < now.len() && now[u].name@ == k;
                        if u < w {
                            assert(orig[u].name@ == k);
                        } else {
                            assert(orig[u + 1].name@ == k);
                        }
                    }
                    assert forall|q: i32| has_id(now, q) implies has_id(orig, q) by {
                        let u = choose|u: int| 0 <= u < now.len() && now[u].id == q;
                        if u < w {
                            assert(orig[u].id == q);
                        } else {
                            assert(orig[u + 1].id == q);
                        }
                    }
                    assert(!has_name(now, name@)) by {
                        if has_name(now, name@) {
                            let u = choose|u: int| 0 <= u < now.len() && now[u].name@ == name@;
                            if u < w {
                                assert(orig[u].name@ == orig[w].name@);
                            } else {
                                assert(orig[u + 1].name@ == orig[w].name@);
                            }
                        }
                    }
                }
                return;
            }
            i = i + 1;
        }
    }

    /// Removes the entry with identity `id`, if any; every other entry
    /// stays.
    pub fn evict_id(&mut self, id: i32)
        requires
            old(self).wf(),
        ensures
            final(self).wf(),
            !has_id(final(self).entries@, id),
            forall|k: Seq<char>|
                has_name(final(self).entries@, k)
                    ==> has_name(old(self).entries@, k)
                        && info_named(final(self).entries@, k)
                            == info_named(old(self).entries@, k),
            forall|k: Seq<char>|
                has_name(old(self).entries@, k)
                    && info_named(old(self).entries@, k).id != id
                    ==> has_name(final(self).entries@, k)
                        && info_named(final(self).entries@, k)
                            == info_named(old(self).entries@, k),
            forall|q: i32|
                q != id
                    ==> (has_id(final(self).entries@, q)
                        == has_id(old(self).entries@, q)),
    {
        let ghost orig = self.entries@;
        let n = self.entries.len();
        let mut i: usize = 0;
        while i < n
            invariant
                0 <= i <= n,
                self.entries@ == orig,
                old(self).entries@ == orig,
                n == orig.len(),
                mods_wf(orig),
                forall|j: int| 0 <= j < i ==> orig[j].id != id,
            decreases n - i,
        {
            if self.entries[i].id == id {
                let ghost w = i as int;
                self.entries.remove(i);
                proof {
                    let now = self.entries@;
                    assert(now =~= orig.subrange(0, w) + orig.subrange(w + 1, orig.len() as int));
                    assert forall|j: int| 0 <= j < now.len() implies now[j] == (if j < w {
                        orig[j]
                    } else {
                        orig[j + 1]
                    }) by {}
                    assert(mods_wf(now));
                    assert(!has_id(now, id)) by {
                        if has_id(now, id) {
                            let u = choose|u: int| 0 <= u < now.len() && now[u].id == id;
                            if u < w {
                                assert(orig[u].id == orig[w].id);
                            } else {
                                assert(orig[u + 1].id == orig[w].id);
                            }
                        }
                    }
                    assert forall|k: Seq<char>| has_name(now, k) implies has_name(orig, k)
                        && info_named(now, k) == info_named(orig, k) by {
                        let u = choose|u: int| 0 <= u < now.len() && now[u].name@ == k;
                        lemma_info_named_at(now, u, k);
                        if u < w {
                            assert(orig[u].name@ == k);
                            lemma_info_named_at(orig, u, k);
                        } else {
                            assert(orig[u + 1].name@ == k);
                            lemma_info_named_at(orig, u + 1, k);
                        }
                    }
                    assert forall|k: Seq<char>|
                        has_name(orig, k) && info_named(orig, k).id != id implies
                        has_name(now, k) && info_named(now, k) == info_named(orig, k) by {
                        let u = choose|u: int| 0 <= u < orig.len() && orig[u].name@ == k;
                        lemma_info_named_at(orig, u, k);
                        if u < w {
                            assert(now[u] == orig[u]);
                            lemma_info_named_at(now, u, k);
                        } else {
                            assert(u != w);
                            assert(now[u - 1] == orig[u]);
                            lemma_info_named_at(now, u - 1, k);
                        }
                    }
                    assert forall|q: i32| q != id implies (has_id(now, q) == has_id(
                        orig,
                        q,
                    )) by {
                        if has_id(orig, q) {
                            let u = choose|u: int| 0 <= u < orig.len() && orig[u].id == q;
                            assert(u != w);
                            if u < w {
                                assert(now[u].id == q);
                            } else {
                                assert(now[u - 1].id == q);
                            }
                        }
                        if has_id(now, q) {
                            let u = choose|u: int| 0 <= u < now.len() && now[u].id == q;
                            if u < w {
                                assert(orig[u].id == q);
                            } else {
                                assert(orig[u + 1].id == q);
                            }
                        }
                    }
                }
                return;
            }
            i = i + 1;
        }
    }

    /// Adds a freshly compiled module under a name not yet registered.  An
    /// entry that happens to share the VM identity is evicted first, so
    /// that an identity also maps to at most one live entry.
    pub fn register(&mut self, info: ModuleInfo)
        requires
            old(self).wf(),
            !has_name(old(self).entries@, info.name@),
        ensures
            final(self).wf(),
            has_name(final(self).entries@, info.name@),
            info_named(final(self).entries@, info.name@) == info,
            has_id(final(self).entries@, info.id),
            info_of(final(self).entries@, info.id) == info,
            forall|k: Seq<char>|
                k != info.name@
                    ==> (has_name(final(self).entries@, k)
                        == (has_name(old(self).entries@, k)
                            && info_named(old(self).entries@, k).id != info.id)),
            forall|k: Seq<char>|
                k != info.name@ && has_name(old(self).entries@, k)
                    && info_named(old(self).entries@, k).id != info.id
                    ==> info_named(final(self).entries@, k)
                        == info_named(old(self).entries@, k),
            forall|q: i32|
                q != info.id
                    ==> (has_id(final(self).entries@, q) == has_id(old(self).entries@, q)),
    {
        let ghost orig = self.entries@;
        self.evict_id(info.id);
        let ghost mid = self.entries@;
        self.entries.push(info);
        proof {
            let now = self.entries@;
            let last = mid.len() as int;
            assert(forall|j: int| 0 <= j < last ==> now[j] == mid[j]);
            assert(now[last] == info);
            assert(!has_name(mid, info.name@));
            assert(!has_id(mid, info.id));
            assert forall|i: int, j: int| 0 <= i < j < now.len() implies now[i].name@
                != now[j].name@ by {
                if j == last {
                    if now[i].name@ == info.name@ {
                        assert(has_name(mid, info.name@));
                    }
                }
            }
            assert forall|i: int, j: int| 0 <= i < j < now.len() implies now[i].id
                != now[j].id by {
                if j == last {
                    if now[i].id == info.id {
                        assert(has_id(mid, info.id));
                    }
                }
            }
            lemma_info_named_at(now, last, info.name@);
            lemma_info_of_at(now, last, info.id);
            assert forall|k: Seq<char>| k != info.name@ implies (has_name(now, k) == (has_name(
                orig,
                k,
            ) && info_named(orig, k).id != info.id)) by {
                if has_name(orig, k) && info_named(orig, k).id != info.id {
                    assert(has_name(mid, k));
                    let u = choose|u: int| 0 <= u < mid.len() && mid[u].name@ == k;
                    assert(now[u].name@ == k);
                }
                if has_name(now, k) {
                    let u = choose|u: int| 0 <= u < now.len() && now[u].name@ == k;
                    assert(u != last);
                    assert(mid[u].name@ == k);
                    lemma_info_named_at(mid, u, k);
                    assert(has_name(orig, k));
                    assert(info_named(orig, k) == mid[u]);
                    assert(info_named(orig, k).id != info.id);
                }
            }
            assert forall|k: Seq<char>|
                k != info.name@ && has_name(orig, k) && info_named(orig, k).id != info.id implies
                info_named(now, k) == info_named(orig, k) by {
                assert(has_name(mid, k) && info_named(mid, k) == info_named(orig, k));
                let u = choose|u: int| 0 <= u < mid.len() && mid[u].name@ == k;
                lemma_info_named_at(mid, u, k);
                assert(now[u] == mid[u]);
                lemma_info_named_at(now, u, k);
            }
            assert forall|q: i32| q != info.id implies (has_id(now, q) == has_id(orig, q)) by {
                if has_id(mid, q) {
                    let u = choose|u: int| 0 <= u < mid.len() && mid[u].id == q;
                    assert(now[u].id == q);
                }
                if has_id(now, q) {
                    let u = choose|u: int| 0 <= u < now.len() && now[u].id == q;
                    assert(u != last);
                    assert(mid[u].id == q);
                }
            }
        }
    }

    /// Marks the entry with identity `id` as instantiated; nothing else
    /// changes.
    pub fn mark_instantiated(&mut self, id: i32)
        requires
            old(self).wf(),
            has_id(old(self).entries@, id),
        ensures
            final(self).wf(),
            has_id(final(self).entries@, id),
            info_of(final(self).entries@, id) == (ModuleInfo {
                init: true,
                ..info_of(old(self).entries@, id)
            }),
            forall|k: Seq<char>|
                has_name(final(self).entries@, k) == has_name(old(self).entries@, k),
            forall|k: Seq<char>|
                has_name(old(self).entries@, k) && info_named(old(self).entries@, k).id != id
                    ==> info_named(final(self).entries@, k)
                        == info_named(old(self).entries@, k),
            forall|k: Seq<char>|
                has_name(old(self).entries@, k) && info_named(old(self).entries@, k).id == id
                    ==> info_named(final(self).entries@, k)
                        == (ModuleInfo { init: true, ..info_named(old(self).entries@, k) }),
            forall|q: i32|
                has_id(final(self).entries@, q) == has_id(old(self).entries@, q),
    {
        let ghost orig = self.entries@;
        let n = self.entries.len();
        let mut i: usize = 0;
        while i < n
            invariant
                0 <= i <= n,
                self.entries@ == orig,
                old(self).entries@ == orig,
                n == orig.len(),
                mods_wf(orig),
                has_id(orig, id),
                forall|j: int| 0 <= j < i ==> orig[j].id != id,
            decreases n - i,
        {
            if self.entries[i].id == id {
                let ghost w = i as int;
                let old_info = self.entries.remove(i);
                let new_info = ModuleInfo { init: true, ..old_info };
                self.entries.insert(i, new_info);
                proof {
                    let now = self.entries@;
                    assert(now =~= orig.update(w, ModuleInfo { init: true, ..orig[w] }));
                    assert(forall|j: int|
                        0 <= j < now.len() ==> now[j].name@ == orig[j].name@ && now[j].id
                            == orig[j].id);
                    assert(mods_wf(now));
                    lemma_info_of_at(orig, w, id);
                    lemma_info_of_at(now, w, id);
                    assert forall|k: Seq<char>| has_name(now, k) == has_name(orig, k) by {
                        if has_name(orig, k) {
                            let u = choose|u: int| 0 <= u < orig.len() && orig[u].name@ == k;
                            assert(now[u].name@ == k);
                        }
                        if has_name(now, k) {
                            let u = choose|u: int| 0 <= u < now.len() && now[u].name@ == k;
                            assert(orig[u].name@ == k);
                        }
                    }
                    assert forall|k: Seq<char>|
                        has_name(orig, k) && info_named(orig, k).id != id implies
                        info_named(now, k) == info_named(orig, k) by {
                        let u = choose|u: int| 0 <= u < orig.len() && orig[u].name@ == k;
                        lemma_info_named_at(orig, u, k);
                        assert(u != w);
                        assert(now[u] == orig[u]);
                        lemma_info_named_at(now, u, k);
                    }
                    assert forall|k: Seq<char>|
                        has_name(orig, k) && info_named(orig, k).id == id implies
                        info_named(now, k) == ModuleInfo {
                            init: true,
                            ..info_named(orig, k)
                        } by {
                        let u = choose|u: int| 0 <= u < orig.len() && orig[u].name@ == k;
                        lemma_info_named_at(orig, u, k);
                        assert(u == w);
                        lemma_info_named_at(now, u, k);
                    }
                    assert forall|q: i32| has_id(now, q) == has_id(orig, q) by {
                        if has_id(orig, q) {
                            let u = choose|u: int| 0 <= u < orig.len() && orig[u].id == q;
                            assert(now[u].id == q);
                        }
                        if has_id(now, q) {
                            let u = choose|u: int| 0 <= u < now.len() && now[u].id == q;
                            assert(orig[u].id == q);
                        }
                    }
                }
                return;
            }
            i = i + 1;
        }
        proof {
            let u = choose|u: int| 0 <= u < orig.len() && orig[u].id == id;
            assert(false);
        }
    }
}

} // verus!
