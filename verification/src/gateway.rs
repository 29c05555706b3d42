//! The dispatch gateway's decisions: the routing table, the
//! one-engine-per-script-type rule, and the assembly of a reply from what
//! arrives on a per-request result channel.
//!
//! The HTTP server loop, sockets and channels are external collaborators;
//! they consult this table and hand completed result events to
//! [`assemble_reply`].

use vstd::prelude::*;
use crate::common::{HeaderTable, ResponseData, ScriptResultEvent};
use crate::service::ScriptType;

verus! {

/// The HTTP method a route answers.
#[derive(Copy, Clone, PartialEq, Eq, Structural, Debug)]
pub enum HttpMethod {
    Get,
    Head,
    Post,
    Put,
    Delete,
    Options,
    Patch,
}

/// What a registered route serves.
pub enum RouteKind {
    /// A native handler function of the surrounding server.
    Native,
    /// A static file read from `path`.
    StaticFile { path: String },
    /// A script executed by the engine for `script_type`, loaded from
    /// `path`.
    Script { script_type: ScriptType, path: String },
}

/// One registered route.
pub struct Route {
    pub method: HttpMethod,
    pub route: String,
    pub kind: RouteKind,
}

/// A route as registered: one leading `/` is stripped.
pub open spec fn spec_route_norm(s: Seq<char>) -> Seq<char> {
    if s.len() > 0 && s[0] == '/' {
        s.drop_first()
    } else {
        s
    }
}

/// Strips one leading `/` from a route.
pub fn normalize_route(route: &str) -> (r: String)
    ensures
        r@ == spec_route_norm(route@),
{
    let len = route.unicode_len();
    if len > 0 && route.get_char(0) == '/' {
        let rest = route.substring_char(1, len);
        proof {
            assert(rest@ =~= spec_route_norm(route@));
        }
        rest.to_owned()
    } else {
        route.to_owned()
    }
}

/// The server model: the registered routes and the engines started so
/// far.  Each script type's engine is started at most once; later script
/// routes of the same type share it.
pub struct Server {
    pub routes: Vec<Route>,
    pub engines: Vec<ScriptType>,
}

/// Whether `engines` holds `t`.
pub open spec fn has_engine(engines: Seq<ScriptType>, t: ScriptType) -> bool {
    exists|i: int| 0 <= i < engines.len() && engines[i] == t
}

impl Server {
    /// Engines are pairwise distinct: one VM worker per script type.
    pub open spec fn wf(self) -> bool {
        forall|i: int, j: int|
            0 <= i < j < self.engines@.len() ==> self.engines@[i] != self.engines@[j]
    }

    /// A fresh server: no script engine yet, and the index page served at
    /// the root route.
    pub fn new() -> (r: Server)
        ensures
            r.wf(),
            r.engines@.len() == 0,
            r.routes@.len() == 1,
            r.routes@[0].route@.len() == 0,
            r.routes@[0].kind is Native,
            r.routes@[0].method == HttpMethod::Get,
    {
        let mut routes: Vec<Route> = Vec::new();
        routes.push(
            Route { method: HttpMethod::Get, route: String::new(), kind: RouteKind::Native },
        );
        Server { routes, engines: Vec::new() }
    }

    /// Registers a native handler route.
    pub fn route_fn(&mut self, method: HttpMethod, route: &str) -> (r: Result<(), String>)
        requires
            old(self).wf(),
        ensures
            final(self).wf(),
            r is Ok,
            final(self).engines@ == old(self).engines@,
            final(self).routes@.len() == old(self).routes@.len() + 1,
            final(self).routes@.last().method == method,
            final(self).routes@.last().route@ == spec_route_norm(route@),
            final(self).routes@.last().kind is Native,
            forall|i: int|
                0 <= i < old(self).routes@.len()
                    ==> final(self).routes@[i] == old(self).routes@[i],
    {
        let norm = normalize_route(route);
        self.routes.push(Route { method, route: norm, kind: RouteKind::Native });
        Ok(())
    }

    /// Registers a static-file route serving the file at `path`.
    pub fn route_static(&mut self, method: HttpMethod, route: &str, path: &str) -> (r: Result<
        (),
        String,
    >)
        requires
            old(self).wf(),
        ensures
            final(self).wf(),
            r is Ok,
            final(self).engines@ == old(self).engines@,
            final(self).routes@.len() == old(self).routes@.len() + 1,
            final(self).routes@.last().method == method,
            final(self).routes@.last().route@ == spec_route_norm(route@),
            match final(self).routes@.last().kind {
                RouteKind::StaticFile { path: p } => p@ == path@,
                _ => false,
            },
            forall|i: int|
                0 <= i < old(self).routes@.len()
                    ==> final(self).routes@[i] == old(self).routes@[i],
    {
        let norm = normalize_route(route);
        self.routes.push(
            Route { method, route: norm, kind: RouteKind::StaticFile { path: path.to_owned() } },
        );
        Ok(())
    }

    /// Registers a script route.  The engine for `script_type` is started
    /// only when no route started it before: afterwards the engine set
    /// holds the type exactly once either way.
    pub fn route_script(
        &mut self,
        script_type: ScriptType,
        method: HttpMethod,
        route: &str,
        path: &str,
    ) -> (r: Result<bool, String>)
        requires
            old(self).wf(),
        ensures
            final(self).wf(),
            match r {
                Ok(started) => {
                    &&& started == !has_engine(old(self).engines@, script_type)
                    &&& has_engine(final(self).engines@, script_type)
                    &&& final(self).engines@ == if has_engine(
                        old(self).engines@,
                        script_type,
                    ) {
                        old(self).engines@
                    } else {
                        old(self).engines@.push(script_type)
                    }
                },
                Err(_) => false,
            },
            final(self).routes@.len() == old(self).routes@.len() + 1,
            final(self).routes@.last().method == method,
            final(self).routes@.last().route@ == spec_route_norm(route@),
            match final(self).routes@.last().kind {
                RouteKind::Script { script_type: t, path: p } => t == script_type && p@ == path@,
                _ => false,
            },
            forall|i: int|
                0 <= i < old(self).routes@.len()
                    ==> final(self).routes@[i] == old(self).routes@[i],
    {
        let started = if !self.has_engine_for(script_type) {
            self.engines.push(script_type);
            proof {
                let now = self.engines@;
                let last = old(self).engines@.len() as int;
                assert(now[last] == script_type);
                assert forall|i: int, j: int| 0 <= i < j < now.len() implies now[i] != now[j] by {
                    if j == last {
                        if now[i] == script_type {
                            assert(has_engine(old(self).engines@, script_type));
                        }
                    }
                }
            }
            true
        } else {
            false
        };
        let norm = normalize_route(route);
        self.routes.push(
            Route {
                method,
                route: norm,
                kind: RouteKind::Script { script_type, path: path.to_owned() },
            },
        );
        Ok(started)
    }

    /// Whether the engine for `t` is already running.
    pub fn has_engine_for(&self, t: ScriptType) -> (r: bool)
        ensures
            r == has_engine(self.engines@, t),
    {
        let n = self.engines.len();
        let mut i: usize = 0;
        while i < n
            invariant
                0 <= i <= n,
                n == self.engines@.len(),
                forall|j: int| 0 <= j < i ==> self.engines@[j] != t,
            decreases n - i,
        {
            if self.engines[i] == t {
                return true;
            }
            i = i + 1;
        }
        false
    }
}

/// The flattened error of the first failed event, if any.
pub open spec fn spec_first_err(evs: Seq<ScriptResultEvent>) -> Option<Seq<char>>
    decreases evs.len(),
{
    if evs.len() == 0 {
        None
    } else {
        match evs[0].result {
            Err(e) => Some(e@),
            Ok(_) => spec_first_err(evs.drop_first()),
        }
    }
}

/// The concatenated bodies of the events, in order, for an all-`Ok` run.
pub open spec fn spec_bodies(evs: Seq<ScriptResultEvent>) -> Seq<u8>
    decreases evs.len(),
{
    if evs.len() == 0 {
        Seq::empty()
    } else {
        spec_bodies(evs.drop_last()) + (match evs.last().result {
            Ok(resp) => resp.body@,
            Err(_) => Seq::empty(),
        })
    }
}

proof fn lemma_first_err_at(evs: Seq<ScriptResultEvent>, i: int)
    requires
        0 <= i < evs.len(),
        forall|j: int| 0 <= j < i ==> evs[j].result is Ok,
        evs[i].result is Err,
    ensures
        spec_first_err(evs) == (match evs[i].result {
            Err(e) => Some(e@),
            Ok(_) => None,
        }),
    decreases i,
{
    if i > 0 {
        assert(evs[0].result is Ok);
        assert forall|j: int| 0 <= j < i - 1 implies evs.drop_first()[j].result is Ok by {
            assert(evs.drop_first()[j] == evs[j + 1]);
        }
        assert(evs.drop_first()[i - 1] == evs[i]);
        lemma_first_err_at(evs.drop_first(), i - 1);
    }
}

proof fn lemma_no_err(evs: Seq<ScriptResultEvent>)
    requires
        forall|j: int| 0 <= j < evs.len() ==> evs[j].result is Ok,
    ensures
        spec_first_err(evs) is None,
    decreases evs.len(),
{
    if evs.len() > 0 {
        assert forall|j: int| 0 <= j < evs.len() - 1 implies evs.drop_first()[j].result
            is Ok by {
            assert(evs.drop_first()[j] == evs[j + 1]);
        }
        lemma_no_err(evs.drop_first());
    }
}

/// Builds the HTTP reply for everything one execution sent back on its
/// result channel: a failed event yields a 500 carrying the error text and
/// discards any partial output; otherwise bodies are concatenated and the
/// status and headers of the last event stand, with 200 and no headers
/// when nothing arrived.
pub fn assemble_reply(events: Vec<ScriptResultEvent>) -> (r: ResponseData)
    ensures
        match spec_first_err(events@) {
            Some(e) => {
                &&& r.status == 500
                &&& r.headers.entries@.len() == 0
                &&& r.body@ == vstd::utf8::encode_utf8(e)
            },
            None => {
                &&& r.body@ == spec_bodies(events@)
                &&& if events@.len() == 0 {
                    r.status == 200 && r.headers.entries@.len() == 0
                } else {
                    match events@.last().result {
                        Ok(resp) => r.status == resp.status && r.headers == resp.headers,
                        Err(_) => false,
                    }
                }
            },
        },
{
    let ghost orig = events@;
    let mut rest = events;
    let mut status: u16 = 200;
    let mut headers: Option<HeaderTable> = None;
    let mut body: Vec<u8> = Vec::new();
    let mut i: usize = 0;
    let n = rest.len();
    proof {
        assert(orig.take(0) =~= Seq::<ScriptResultEvent>::empty());
        assert(body@ =~= spec_bodies(orig.take(0)));
    }
    while i < n
        invariant
            0 <= i <= n,
            orig == events@,
            n == orig.len(),
            rest@ == orig.subrange(i as int, n as int),
            forall|j: int| 0 <= j < i ==> orig[j].result is Ok,
            body@ == spec_bodies(orig.take(i as int)),
            i > 0 ==> (match orig[i - 1].result {
                Ok(resp) => status == resp.status && headers == Some(resp.headers),
                Err(_) => false,
            }),
            i == 0 ==> status == 200 && headers is None,
        decreases n - i,
    {
        proof {
            assert(rest@[0] == orig[i as int]);
        }
        let ev = rest.remove(0);
        match ev.result {
            Err(e) => {
                proof {
                    lemma_first_err_at(orig, i as int);
                }
                return ResponseData {
                    status: 500,
                    headers: HeaderTable::new(),
                    body: e.as_str().as_bytes_vec(),
                };
            },
            Ok(resp) => {
                let ghost before = body@;
                let rb = resp.body;
                let m = rb.len();
                let mut j: usize = 0;
                while j < m
                    invariant
                        0 <= j <= m,
                        m == rb@.len(),
                        body@ == before + rb@.take(j as int),
                    decreases m - j,
                {
                    body.push(rb[j]);
                    proof {
                        assert(rb@.take(j + 1) =~= rb@.take(j as int).push(rb@[j as int]));
                        assert(body@ =~= before + rb@.take(j + 1));
                    }
                    j = j + 1;
                }
                proof {
                    assert(rb@.take(m as int) =~= rb@);
                    assert(orig.take(i + 1).drop_last() =~= orig.take(i as int));
                    assert(orig.take(i + 1).last() == orig[i as int]);
                    assert(body@ =~= spec_bodies(orig.take(i + 1)));
                }
                status = resp.status;
                headers = Some(resp.headers);
            },
        }
        i = i + 1;
    }
    proof {
        lemma_no_err(orig);
        assert(orig.take(n as int) =~= orig);
    }
    let table = match headers {
        Some(t) => t,
        None => HeaderTable::new(),
    };
    ResponseData { status, headers: table, body }
}

} // verus!
