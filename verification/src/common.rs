//! The request/response data model crossing the native/script boundary.
//!
//! `RequestData` is the immutable snapshot of an inbound request handed to a
//! VM worker for one execution; `ResponseData` is what an engine builds from
//! the script's return value.  Response headers live in a `HeaderTable`, a
//! string map with unique keys; request headers are a multimap that may hold
//! the same name several times.

use vstd::prelude::*;
use crate::text::{eq_ignore_ascii_case, str_eq_ignore_case};

verus! {

/// One header: a name and a value.
pub struct Header {
    pub name: String,
    pub value: String,
}

/// Keys of `s` are pairwise distinct.
pub open spec fn table_wf(s: Seq<Header>) -> bool {
    forall|i: int, j: int| 0 <= i < j < s.len() ==> s[i].name@ != s[j].name@
}

/// Whether some entry of `s` has the name `k`.
pub open spec fn table_has(s: Seq<Header>, k: Seq<char>) -> bool {
    exists|i: int| 0 <= i < s.len() && s[i].name@ == k
}

/// The value stored in `s` under `k`, when `table_has(s, k)`.
pub open spec fn table_value(s: Seq<Header>, k: Seq<char>) -> Seq<char> {
    let i = choose|i: int| 0 <= i < s.len() && s[i].name@ == k;
    s[i].value@
}

/// The table as a sequence of name/value character pairs.
pub open spec fn table_model(s: Seq<Header>) -> Seq<(Seq<char>, Seq<char>)> {
    s.map_values(|h: Header| (h.name@, h.value@))
}

/// Whether the pair sequence `m` holds the key `k`.
pub open spec fn model_has(m: Seq<(Seq<char>, Seq<char>)>, k: Seq<char>) -> bool {
    exists|i: int| 0 <= i < m.len() && m[i].0 == k
}

/// The index of the pair with key `k`, when `model_has(m, k)`.
pub open spec fn model_index(m: Seq<(Seq<char>, Seq<char>)>, k: Seq<char>) -> int {
    choose|i: int| 0 <= i < m.len() && m[i].0 == k
}

/// Insertion into a pair sequence with replacement: the mathematical twin
/// of `HeaderTable::insert`.
pub open spec fn model_insert(
    m: Seq<(Seq<char>, Seq<char>)>,
    k: Seq<char>,
    v: Seq<char>,
) -> Seq<(Seq<char>, Seq<char>)> {
    if model_has(m, k) {
        m.update(model_index(m, k), (k, v))
    } else {
        m.push((k, v))
    }
}

/// In a well-formed table, any entry named `k` carries `table_value(s, k)`.
pub proof fn lemma_table_value_at(s: Seq<Header>, w: int, k: Seq<char>)
    requires
        table_wf(s),
        0 <= w < s.len(),
        s[w].name@ == k,
    ensures
        table_has(s, k),
        table_value(s, k) == s[w].value@,
{
    let i = choose|i: int| 0 <= i < s.len() && s[i].name@ == k;
    if i != w {
        assert(s[i].name@ == s[w].name@);
    }
}

/// A string map with unique keys, used for response headers and other
/// name/value state.  Insertion replaces the value of an existing key.
pub struct HeaderTable {
    pub entries: Vec<Header>,
}

impl HeaderTable {
    /// Keys are pairwise distinct.
    pub open spec fn wf(self) -> bool {
        table_wf(self.entries@)
    }

    /// Whether some entry has the name `k`.
    pub open spec fn has(self, k: Seq<char>) -> bool {
        table_has(self.entries@, k)
    }

    /// The value stored under `k`, when `has(k)`.
    pub open spec fn value_of(self, k: Seq<char>) -> Seq<char> {
        table_value(self.entries@, k)
    }

    /// An empty table.
    pub fn new() -> (r: HeaderTable)
        ensures
            r.wf(),
            r.entries@.len() == 0,
    {
        HeaderTable { entries: Vec::new() }
    }

    /// How many entries the table holds.
    pub fn len(&self) -> (r: usize)
        ensures
            r == self.entries@.len(),
    {
        self.entries.len()
    }

    /// Looks `name` up, exactly: header names in a response table are
    /// case-sensitive as the script provided them.
    pub fn get(&self, name: &String) -> (r: Option<&String>)
        requires
            self.wf(),
        ensures
            match r {
                Some(v) => self.has(name@) && v@ == self.value_of(name@),
                None => !self.has(name@),
            },
    {
        let n = self.entries.len();
        let mut i: usize = 0;
        while i < n
            invariant
                0 <= i <= n,
                n == self.entries@.len(),
                self.wf(),
                forall|j: int| 0 <= j < i ==> self.entries@[j].name@ != name@,
            decreases n - i,
        {
            if self.entries[i].name == *name {
                proof {
                    lemma_table_value_at(self.entries@, i as int, name@);
                }
                return Some(&self.entries[i].value);
            }
            i = i + 1;
        }
        None
    }

    /// Inserts `value` under `name`, replacing any value already stored
    /// under that exact name; all other entries are untouched.
    pub fn insert(&mut self, name: String, value: String)
        requires
            old(self).wf(),
        ensures
            final(self).wf(),
            final(self).has(name@),
            final(self).value_of(name@) == value@,
            forall|k: Seq<char>|
                k != name@ ==> (final(self).has(k) == old(self).has(k)),
            forall|k: Seq<char>|
                k != name@ && old(self).has(k)
                    ==> final(self).value_of(k) == old(self).value_of(k),
            final(self).entries@.len()
                == if old(self).has(name@) {
                    old(self).entries@.len()
                } else {
                    old(self).entries@.len() + 1
                },
            table_model(final(self).entries@)
                == model_insert(table_model(old(self).entries@), name@, value@),
    {
        let ghost orig = self.entries@;
        let n = self.entries.len();
        let mut i: usize = 0;
        while i < n
            invariant
                0 <= i <= n,
                self.entries@ == orig,
                old(self).entries@ == orig,
                n == orig.len(),
                table_wf(orig),
                forall|j: int| 0 <= j < i ==> orig[j].name@ != name@,
            decreases n - i,
        {
            if self.entries[i].name == name {
                let ghost iv = i as int;
                self.entries.set(i, Header { name, value });
                proof {
                    let now = self.entries@;
                    assert(orig[iv].name@ == name@);
                    assert forall|j: int| 0 <= j < now.len() implies now[j].name@
                        == orig[j].name@ by {}
                    assert(table_wf(now));
                    lemma_table_value_at(now, iv, name@);
                    assert forall|k: Seq<char>| k != name@ implies (table_has(now, k)
                        == table_has(orig, k)) by {
                        if table_has(orig, k) {
                            let w = choose|w: int| 0 <= w < orig.len() && orig[w].name@ == k;
                            assert(now[w].name@ == k);
                        }
                        if table_has(now, k) {
                            let w = choose|w: int| 0 <= w < now.len() && now[w].name@ == k;
                            assert(orig[w].name@ == k);
                        }
                    }
                    assert forall|k: Seq<char>| k != name@ && table_has(orig, k) implies
                        table_value(now, k) == table_value(orig, k) by {
                        let w = choose|w: int| 0 <= w < orig.len() && orig[w].name@ == k;
                        assert(w != iv);
                        assert(now[w] == orig[w]);
                        lemma_table_value_at(now, w, k);
                        lemma_table_value_at(orig, w, k);
                    }
                    lemma_table_value_at(orig, iv, name@);
                    let m = table_model(orig);
                    assert(m[iv].0 == name@);
                    assert(model_has(m, name@));
                    let u = model_index(m, name@);
                    assert(m[u].0 == orig[u].name@);
                    if u != iv {
                        assert(orig[u].name@ == orig[iv].name@);
                    }
                    assert(table_model(now) =~= model_insert(m, name@, value@));
                }
                return;
            }
            i = i + 1;
        }
        self.entries.push(Header { name, value });
        proof {
            let now = self.entries@;
            let last = orig.len() as int;
            assert(now[last].name@ == name@);
            assert(forall|j: int| 0 <= j < last ==> now[j] == orig[j]);
            assert(forall|j: int| 0 <= j < last ==> orig[j].name@ != name@);
            assert(table_wf(now));
            lemma_table_value_at(now, last, name@);
            assert(!table_has(orig, name@));
            assert forall|k: Seq<char>| k != name@ implies (table_has(now, k)
                == table_has(orig, k)) by {
                if table_has(orig, k) {
                    let w = choose|w: int| 0 <= w < orig.len() && orig[w].name@ == k;
                    assert(now[w].name@ == k);
                }
                if table_has(now, k) {
                    let w = choose|w: int| 0 <= w < now.len() && now[w].name@ == k;
                    assert(w != last);
                    assert(orig[w].name@ == k);
                }
            }
            assert forall|k: Seq<char>| k != name@ && table_has(orig, k) implies
                table_value(now, k) == table_value(orig, k) by {
                let w = choose|w: int| 0 <= w < orig.len() && orig[w].name@ == k;
                lemma_table_value_at(now, w, k);
                lemma_table_value_at(orig, w, k);
            }
            let m = table_model(orig);
            assert(!model_has(m, name@)) by {
                if model_has(m, name@) {
                    let u = model_index(m, name@);
                    assert(m[u].0 == orig[u].name@);
                }
            }
            assert(table_model(now) =~= m.push((name@, value@)));
        }
    }
}

/// Immutable snapshot of an inbound request: header multimap, body bytes,
/// URI and query string.  It is owned by one execution event, moved into the
/// VM worker for the duration of one script run, and never retained after.
pub struct RequestData {
    /// Header multimap; one name may appear several times, and lookup folds
    /// ASCII case, as the transport layer does.
    pub headers: Vec<Header>,
    /// Raw body bytes.
    pub body: Vec<u8>,
    /// The request URI.
    pub uri: String,
    /// The raw query string.
    pub query: String,
}

/// The values of all headers of `s` whose name equals `k` up to ASCII case,
/// in order.
pub open spec fn spec_values_for(s: Seq<Header>, k: Seq<char>) -> Seq<Seq<char>>
    decreases s.len(),
{
    if s.len() == 0 {
        Seq::empty()
    } else if eq_ignore_ascii_case(s[0].name@, k) {
        seq![s[0].value@] + spec_values_for(s.drop_first(), k)
    } else {
        spec_values_for(s.drop_first(), k)
    }
}

proof fn lemma_values_for_push(s: Seq<Header>, h: Header, k: Seq<char>)
    ensures
        spec_values_for(s.push(h), k)
            == if eq_ignore_ascii_case(h.name@, k) {
                spec_values_for(s, k).push(h.value@)
            } else {
                spec_values_for(s, k)
            },
    decreases s.len(),
{
    let e: Seq<Header> = Seq::empty();
    assert(spec_values_for(e, k) =~= Seq::<Seq<char>>::empty());
    if s.len() == 0 {
        assert(s.push(h)[0] == h);
        assert(s.push(h).drop_first() =~= e);
        if eq_ignore_ascii_case(h.name@, k) {
            assert(spec_values_for(s.push(h), k) =~= seq![h.value@]);
            assert(spec_values_for(s, k).push(h.value@) =~= seq![h.value@]);
        }
    } else {
        assert(s.push(h)[0] == s[0]);
        assert(s.push(h).drop_first() =~= s.drop_first().push(h));
        lemma_values_for_push(s.drop_first(), h, k);
        if eq_ignore_ascii_case(s[0].name@, k) && eq_ignore_ascii_case(h.name@, k) {
            assert(spec_values_for(s.push(h), k)
                =~= spec_values_for(s, k).push(h.value@));
        }
    }
}

impl RequestData {
    /// The request URI, as the script-visible `request.uri` accessor
    /// returns it.
    pub fn uri_value(&self) -> (r: &String)
        ensures
            r@ == self.uri@,
    {
        &self.uri
    }

    /// The raw query string, as the script-visible `request.query` accessor
    /// returns it.
    pub fn query_value(&self) -> (r: &String)
        ensures
            r@ == self.query@,
    {
        &self.query
    }

    /// All values carried under the header `name`, compared ignoring ASCII
    /// case, in the order they stand in the request; the script-visible
    /// `request.header(name)` accessor returns this array.
    pub fn header_values(&self, name: &str) -> (r: Vec<String>)
        ensures
            r.deep_view() == spec_values_for(self.headers@, name@),
    {
        let mut out: Vec<String> = Vec::new();
        let n = self.headers.len();
        let mut i: usize = 0;
        proof {
            assert(self.headers@.take(0) =~= Seq::<Header>::empty());
            assert(out.deep_view() =~= spec_values_for(self.headers@.take(0), name@));
        }
        while i < n
            invariant
                0 <= i <= n,
                n == self.headers@.len(),
                out.deep_view() == spec_values_for(self.headers@.take(i as int), name@),
            decreases n - i,
        {
            let ghost before = out.deep_view();
            if str_eq_ignore_case(self.headers[i].name.as_str(), name) {
                out.push(self.headers[i].value.clone());
                proof {
                    assert(out.deep_view() =~= before.push(self.headers@[i as int].value@));
                }
            }
            proof {
                lemma_values_for_push(self.headers@.take(i as int), self.headers@[i as int], name@);
                assert(self.headers@.take(i as int).push(self.headers@[i as int])
                    =~= self.headers@.take(i + 1));
            }
            i = i + 1;
        }
        proof {
            assert(self.headers@.take(n as int) =~= self.headers@);
        }
        out
    }
}

/// The response an engine hands back: status code, header map and body
/// bytes.
pub struct ResponseData {
    /// Response header map, keys case-sensitive as the script provided
    /// them.
    pub headers: HeaderTable,
    /// Response body bytes.
    pub body: Vec<u8>,
    /// HTTP status code.
    pub status: u16,
}

/// The reply a worker sends back on the per-request channel: the response,
/// or a flattened error message.
pub struct ScriptResultEvent {
    pub result: Result<ResponseData, String>,
}

/// Name/value state attached to the surrounding service.
pub struct ServiceState {
    state_map: HeaderTable,
}

impl ServiceState {
    /// How many name/value pairs the state holds.
    pub closed spec fn spec_len(self) -> int {
        self.state_map.entries@.len() as int
    }

    /// A fresh, empty state.
    pub fn new() -> (r: ServiceState)
        ensures
            r.spec_len() == 0,
    {
        ServiceState { state_map: HeaderTable::new() }
    }
}

} // verus!
