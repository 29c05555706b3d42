//! One JS isolate's native side: the module registry, the per-request
//! execution state machine, and the request binding slot.
//!
//! Executing a script works by wrapping its specifier in a synthetic root
//! module, then driving a load / instantiate / evaluate pipeline.  The VM
//! work — fetching and compiling sources, linking, running — happens
//! outside; this machine makes every decision in between.  The embedding
//! calls [`Isolate::module_execute_begin`], performs the returned action,
//! feeds the outcome to [`Isolate::step`], and repeats until the action is
//! [`DriverAction::Done`].
//!
//! The classic pipeline operations map onto this interface as follows:
//! loading a module by specifier is [`Isolate::begin_load`] (the cache
//! step) followed, on a miss, by the embedding's fetch and compile and
//! [`Isolate::finish_load`]; instantiating and evaluating the root are the
//! `Instantiate` and `Evaluate` actions of the machine; one whole request
//! is `module_execute_begin` and then `step` until done.
//!
//! Two properties are part of the contracts: a specifier already in the
//! registry is never the subject of a `Load` action (cached modules are not
//! re-fetched), and during one execution the registry only grows, so each
//! module is fetched at most once however tangled the import graph — a
//! self-import or an import cycle is simply found in the registry and
//! skipped, never followed.

use vstd::prelude::*;
use crate::common::{RequestData, ResponseData};
use crate::js::registry::{
    has_id, has_name, id_of, info_named, ModuleInfo, Modules,
};
use crate::js::rejections::PendingRejections;
use crate::js::error::JsError;
use crate::js::response::{make_response, spec_response_ok, JsValue};

verus! {

/// The reserved name of the synthetic root module.  It is always replaced,
/// never reused, across requests.
pub open spec fn root_module_name() -> Seq<char> {
    "___root_module__"@
}

/// The reserved root-module name as a string.
pub fn root_module_string() -> (r: String)
    ensures
        r@ == root_module_name(),
{
    String::from_str("___root_module__")
}

/// The source of the synthetic root module wrapping `specifier`: it
/// imports the target and yields its default export as the module's value.
pub open spec fn spec_root_source(specifier: Seq<char>) -> Seq<char> {
    "import m from \""@ + specifier + "\"\nm"@
}

/// Builds the root-module source for `specifier`.
pub fn root_source(specifier: &String) -> (r: String)
    ensures
        r@ == spec_root_source(specifier@),
{
    let mut out = String::from_str("import m from \"");
    out.append(specifier.as_str());
    out.append("\"\nm");
    assert(out@ =~= spec_root_source(specifier@));
    out
}

/// The flattened message for a module that would not compile.
pub open spec fn spec_compile_error(name: Seq<char>) -> Seq<char> {
    "Cannot compile module: "@ + name
}

/// Builds the compile-error message for `name`.
pub fn compile_error_message(name: &String) -> (r: String)
    ensures
        r@ == spec_compile_error(name@),
{
    let mut out = String::from_str("Cannot compile module: ");
    out.append(name.as_str());
    assert(out@ =~= spec_compile_error(name@));
    out
}

/// The flattened message for a root module that would not instantiate,
/// with the VM's own message chained as cause when it gave one.
pub open spec fn spec_instantiate_error(cause: Option<String>) -> Seq<char> {
    match cause {
        Some(m) => "Module "@ + root_module_name() + " cannot be instantiated"@ + ", cause: "@
            + m@,
        None => "Module "@ + root_module_name() + " cannot be instantiated"@,
    }
}

/// Builds the instantiation-error message.
pub fn instantiate_error_message(cause: Option<String>) -> (r: String)
    ensures
        r@ == spec_instantiate_error(cause),
{
    let ghost cause0 = cause;
    let mut head = String::from_str("Module ");
    head.append(root_module_string().as_str());
    head.append(" cannot be instantiated");
    match cause {
        Some(m) => {
            let ghost m0 = m@;
            let ghost head0 = head@;
            let inner = JsError::new(m);
            let ghost inner0 = inner;
            let err = JsError::with_cause(head, inner);
            let out = err.render();
            proof {
                assert(crate::js::error::spec_error_text(inner0) == m0);
            }
            assert(out@ =~= head0 + ", cause: "@ + m0);
            assert(out@ =~= spec_instantiate_error(cause0));
            out
        },
        None => {
            assert(head@ =~= spec_instantiate_error(cause0));
            head
        },
    }
}

/// Where one execution stands.
pub enum Phase {
    /// Waiting for the synthetic root module to compile.
    LoadingRoot,
    /// Waiting for the module named `current` to be fetched and compiled;
    /// `root_id` is the root module's identity.
    LoadingImports { root_id: i32, current: String },
    /// Waiting for the VM to link the root module.
    Instantiating { root_id: i32 },
    /// Waiting for the VM to run the root module's top-level code.
    Evaluating { root_id: i32 },
    /// The execution replied; no further event is expected.
    Done,
}

/// The state of one execution between two events.
pub struct ExecState {
    pub phase: Phase,
    /// Import specifiers discovered but not yet looked at, oldest first.
    pub pending: Vec<String>,
}

/// What the embedding must do next.
pub enum DriverAction {
    /// Compile `source` as a module named `name` (the synthetic root).
    CompileRoot { name: String, source: String },
    /// Resolve `specifier` to bytes (file or network), compile it under
    /// that name, and report the outcome.
    Load { specifier: String },
    /// Ask the VM to link the module with identity `id`.
    Instantiate { id: i32 },
    /// Ask the VM to run the module with identity `id`.
    Evaluate { id: i32 },
    /// Send exactly this result on the reply channel and close it.
    Done { result: Result<ResponseData, String> },
}

/// What the embedding reports back after performing an action.
pub enum ModuleEvent {
    /// The module compiled; the VM assigned it `id` and it declares
    /// `imports`.
    Loaded { id: i32, imports: Vec<String> },
    /// The fetch or the compilation failed; the embedding logged the
    /// details.
    LoadFailed,
    /// The VM linked the module.
    Instantiated,
    /// The VM refused to link; `message` is its diagnostic when it gave
    /// one.
    InstantiateFailed { message: Option<String> },
    /// Top-level code ran; `value` is the module's evaluated value.
    Evaluated { value: JsValue },
    /// Top-level code threw; `message` is the flattened exception text.
    Threw { message: String },
}

/// `l` with its longest prefix of already-registered specifiers removed:
/// what is left for the loader to fetch next.
pub open spec fn skip_loaded(m: Seq<ModuleInfo>, l: Seq<Seq<char>>) -> Seq<Seq<char>>
    decreases l.len(),
{
    if l.len() == 0 {
        l
    } else if has_name(m, l[0]) {
        skip_loaded(m, l.drop_first())
    } else {
        l
    }
}

/// One JS isolate's native side: module registry, pending promise
/// rejections, and the request bound for the execution under way.
pub struct Isolate {
    pub modules: Modules,
    pub pending_exceptions: PendingRejections,
    /// The request visible to the running script.  It is replaced — not
    /// merged — when an execution begins, and is not meaningful after the
    /// execution ends.
    pub request_slot: Option<RequestData>,
}

/// What an execution state means for the registry: the root name is free
/// while the root compiles, the module being fetched is not yet
/// registered, and the root entry exists from then on.
pub open spec fn phase_inv(iso: Isolate, st: ExecState) -> bool {
    match st.phase {
        Phase::LoadingRoot => !has_name(iso.modules.entries@, root_module_name())
            && st.pending@.len() == 0,
        Phase::LoadingImports { root_id, current } => has_id(iso.modules.entries@, root_id)
            && !has_name(iso.modules.entries@, current@),
        Phase::Instantiating { root_id } => has_id(iso.modules.entries@, root_id),
        Phase::Evaluating { root_id } => has_id(iso.modules.entries@, root_id),
        Phase::Done => true,
    }
}

/// The invariant carried from step to step of one execution.
pub open spec fn exec_inv(iso: Isolate, st: ExecState) -> bool {
    iso.wf() && phase_inv(iso, st)
}

/// Which events may answer which phase.
pub open spec fn event_fits(ph: Phase, ev: ModuleEvent) -> bool {
    match ph {
        Phase::LoadingRoot => match ev {
            ModuleEvent::Loaded { .. } => true,
            ModuleEvent::LoadFailed => true,
            _ => false,
        },
        Phase::LoadingImports { .. } => match ev {
            ModuleEvent::Loaded { .. } => true,
            ModuleEvent::LoadFailed => true,
            _ => false,
        },
        Phase::Instantiating { .. } => match ev {
            ModuleEvent::Instantiated => true,
            ModuleEvent::InstantiateFailed { .. } => true,
            _ => false,
        },
        Phase::Evaluating { .. } => match ev {
            ModuleEvent::Evaluated { .. } => true,
            ModuleEvent::Threw { .. } => true,
            _ => false,
        },
        Phase::Done => false,
    }
}

impl Isolate {
    /// Registry and rejection map are well-formed.
    pub open spec fn wf(self) -> bool {
        self.modules.wf() && self.pending_exceptions.wf()
    }

    /// A fresh isolate: empty registry, no pending rejection, no request
    /// bound.
    pub fn new() -> (r: Isolate)
        ensures
            r.wf(),
            r.modules.entries@.len() == 0,
            r.pending_exceptions.entries@.len() == 0,
            r.request_slot is None,
    {
        Isolate {
            modules: Modules::new(),
            pending_exceptions: PendingRejections::new(),
            request_slot: None,
        }
    }

    /// Starts one execution: binds `request` into the script-visible slot
    /// (replacing whatever an earlier execution left), evicts the target
    /// specifier and the previous root entry so both are compiled afresh,
    /// and asks the embedding to compile the synthetic root module.
    pub fn module_execute_begin(&mut self, specifier: &String, request: RequestData) -> (r: (
        ExecState,
        DriverAction,
    ))
        requires
            old(self).wf(),
        ensures
            exec_inv(*final(self), r.0),
            final(self).request_slot == Some(request),
            final(self).pending_exceptions == old(self).pending_exceptions,
            !has_name(final(self).modules.entries@, root_module_name()),
            !has_name(final(self).modules.entries@, specifier@),
            forall|k: Seq<char>|
                k != root_module_name() && k != specifier@
                    ==> (has_name(final(self).modules.entries@, k)
                        == has_name(old(self).modules.entries@, k)),
            forall|k: Seq<char>|
                k != root_module_name() && k != specifier@
                    && has_name(old(self).modules.entries@, k)
                    ==> info_named(final(self).modules.entries@, k)
                        == info_named(old(self).modules.entries@, k),
            r.0.phase is LoadingRoot,
            r.0.pending@.len() == 0,
            match r.1 {
                DriverAction::CompileRoot { name, source } => name@ == root_module_name()
                    && source@ == spec_root_source(specifier@),
                _ => false,
            },
    {
        self.request_slot = Some(request);
        self.modules.evict(specifier);
        let root = root_module_string();
        self.modules.evict(&root);
        let source = root_source(specifier);
        let state = ExecState { phase: Phase::LoadingRoot, pending: Vec::new() };
        (state, DriverAction::CompileRoot { name: root, source })
    }

    /// Advances one execution by one event.  See the module documentation
    /// for the protocol; the contract spells out, per phase, what is
    /// registered, what is asked next, and the exact reply on completion.
    ///
    /// Two clauses carry the caching laws: a `Load` action always names a
    /// specifier absent from the registry, and every registered module
    /// survives the step (so a module once loaded is never fetched again
    /// within the execution, and an import cycle terminates by running out
    /// of unregistered names).
    pub fn step(&mut self, st: ExecState, ev: ModuleEvent) -> (r: (ExecState, DriverAction))
        requires
            exec_inv(*old(self), st),
            event_fits(st.phase, ev),
        ensures
            exec_inv(*final(self), r.0),
            final(self).request_slot == old(self).request_slot,
            final(self).pending_exceptions == old(self).pending_exceptions,
            // a Load action never names a registered module
            match r.1 {
                DriverAction::Load { specifier } => !has_name(
                    final(self).modules.entries@,
                    specifier@,
                ),
                _ => true,
            },
            // the registry only grows, except that a freshly compiled
            // module claims its VM identity from a stale entry
            forall|k: Seq<char>|
                has_name(old(self).modules.entries@, k) && (match ev {
                    ModuleEvent::Loaded { id, .. } => info_named(
                        old(self).modules.entries@,
                        k,
                    ).id != id,
                    _ => true,
                }) ==> has_name(final(self).modules.entries@, k),
            match st.phase {
                Phase::LoadingRoot => match ev {
                    ModuleEvent::Loaded { id, imports } => {
                        &&& has_name(final(self).modules.entries@, root_module_name())
                        &&& {
                            let info = info_named(
                                final(self).modules.entries@,
                                root_module_name(),
                            );
                            info.id == id && info.main && !info.init && info.imports.deep_view()
                                == imports.deep_view()
                        }
                        &&& loading_advance_post(
                            *final(self),
                            id,
                            imports.deep_view(),
                            r.0,
                            r.1,
                        )
                    },
                    ModuleEvent::LoadFailed => done_with_error(
                        r.0,
                        r.1,
                        spec_compile_error(root_module_name()),
                    ) && final(self).modules == old(self).modules,
                    _ => true,
                },
                Phase::LoadingImports { root_id, current } => match ev {
                    ModuleEvent::Loaded { id, imports } => {
                        &&& (!has_id(old(self).modules.entries@, id) ==> {
                            &&& has_name(final(self).modules.entries@, current@)
                            &&& {
                                let info = info_named(final(self).modules.entries@, current@);
                                info.id == id && !info.main && !info.init
                                    && info.imports.deep_view() == imports.deep_view()
                            }
                            &&& loading_advance_post(
                                *final(self),
                                root_id,
                                st.pending.deep_view() + imports.deep_view(),
                                r.0,
                                r.1,
                            )
                        })
                        &&& (has_id(old(self).modules.entries@, id) ==> {
                            &&& final(self).modules == old(self).modules
                            &&& loading_advance_post(
                                *final(self),
                                root_id,
                                st.pending.deep_view(),
                                r.0,
                                r.1,
                            )
                        })
                    },
                    ModuleEvent::LoadFailed => final(self).modules == old(self).modules
                        && loading_advance_post(
                        *final(self),
                        root_id,
                        st.pending.deep_view(),
                        r.0,
                        r.1,
                    ),
                    _ => true,
                },
                Phase::Instantiating { root_id } => match ev {
                    ModuleEvent::Instantiated => {
                        &&& has_id(final(self).modules.entries@, root_id)
                        &&& crate::js::registry::info_of(
                            final(self).modules.entries@,
                            root_id,
                        ).init
                        &&& r.0.phase == (Phase::Evaluating { root_id })
                        &&& r.1 == (DriverAction::Evaluate { id: root_id })
                    },
                    ModuleEvent::InstantiateFailed { message } => done_with_error(
                        r.0,
                        r.1,
                        spec_instantiate_error(message),
                    ) && final(self).modules == old(self).modules,
                    _ => true,
                },
                Phase::Evaluating { .. } => match ev {
                    ModuleEvent::Evaluated { value } => {
                        &&& final(self).modules == old(self).modules
                        &&& r.0.phase is Done
                        &&& match r.1 {
                            DriverAction::Done { result } => match result {
                                Ok(resp) => spec_response_ok(value, resp),
                                Err(_) => false,
                            },
                            _ => false,
                        }
                    },
                    ModuleEvent::Threw { message } => done_with_error(r.0, r.1, message@)
                        && final(self).modules == old(self).modules,
                    _ => true,
                },
                Phase::Done => true,
            },
    {
        let ExecState { phase, pending } = st;
        match phase {
            Phase::LoadingRoot => match ev {
                ModuleEvent::Loaded { id, imports } => {
                    let worklist = clone_strings(&imports);
                    let root = root_module_string();
                    let info = ModuleInfo {
                        main: true,
                        init: false,
                        name: root,
                        id,
                        imports,
                    };
                    self.modules.register(info);
                    self.advance_loading(worklist, id)
                },
                _ => {
                    let root = root_module_string();
                    let message = compile_error_message(&root);
                    (
                        ExecState { phase: Phase::Done, pending: Vec::new() },
                        DriverAction::Done { result: Err(message) },
                    )
                },
            },
            Phase::LoadingImports { root_id, current } => match ev {
                ModuleEvent::Loaded { id, imports } => {
                    let mut worklist = pending;
                    if self.modules.get_by_id(id).is_none() {
                        let extra = clone_strings(&imports);
                        append_strings(&mut worklist, extra);
                        let info = ModuleInfo {
                            main: false,
                            init: false,
                            name: current,
                            id,
                            imports,
                        };
                        self.modules.register(info);
                        proof {
                            assert(worklist.deep_view() =~= st.pending.deep_view()
                                + imports.deep_view());
                        }
                    }
                    self.advance_loading(worklist, root_id)
                },
                _ => self.advance_loading(pending, root_id),
            },
            Phase::Instantiating { root_id } => match ev {
                ModuleEvent::Instantiated => {
                    self.modules.mark_instantiated(root_id);
                    (
                        ExecState { phase: Phase::Evaluating { root_id }, pending: Vec::new() },
                        DriverAction::Evaluate { id: root_id },
                    )
                },
                ModuleEvent::InstantiateFailed { message } => {
                    let text = instantiate_error_message(message);
                    (
                        ExecState { phase: Phase::Done, pending: Vec::new() },
                        DriverAction::Done { result: Err(text) },
                    )
                },
                _ => {
                    (
                        ExecState { phase: Phase::Instantiating { root_id }, pending: Vec::new() },
                        DriverAction::Instantiate { id: root_id },
                    )
                },
            },
            Phase::Evaluating { root_id } => match ev {
                ModuleEvent::Evaluated { value } => {
                    let resp = make_response(value);
                    (
                        ExecState { phase: Phase::Done, pending: Vec::new() },
                        DriverAction::Done { result: Ok(resp) },
                    )
                },
                ModuleEvent::Threw { message } => {
                    (
                        ExecState { phase: Phase::Done, pending: Vec::new() },
                        DriverAction::Done { result: Err(message) },
                    )
                },
                _ => {
                    (
                        ExecState { phase: Phase::Evaluating { root_id }, pending: Vec::new() },
                        DriverAction::Evaluate { id: root_id },
                    )
                },
            },
            Phase::Done => {
                (
                    ExecState { phase: Phase::Done, pending: Vec::new() },
                    DriverAction::Done {
                        result: Err(String::new()),
                    },
                )
            },
        }
    }

    /// Walks the worklist past specifiers the registry already holds and
    /// either asks for the first missing one or, when none is left, moves
    /// on to instantiation.
    fn advance_loading(&self, pending: Vec<String>, root_id: i32) -> (r: (ExecState, DriverAction))
        requires
            self.wf(),
            has_id(self.modules.entries@, root_id),
        ensures
            phase_inv(*self, r.0),
            loading_advance_post(*self, root_id, pending.deep_view(), r.0, r.1),
    {
        let mut work = pending;
        proof {
            assert(work.deep_view() =~= pending.deep_view());
        }
        loop
            invariant
                self.wf(),
                has_id(self.modules.entries@, root_id),
                skip_loaded(self.modules.entries@, work.deep_view()) == skip_loaded(
                    self.modules.entries@,
                    pending.deep_view(),
                ),
            decreases work.len(),
        {
            if work.len() == 0 {
                proof {
                    assert(skip_loaded(self.modules.entries@, work.deep_view()).len() == 0);
                }
                return (
                    ExecState { phase: Phase::Instantiating { root_id }, pending: Vec::new() },
                    DriverAction::Instantiate { id: root_id },
                );
            }
            let head_loaded = self.modules.lookup_name(&work[0]).is_some();
            proof {
                assert(work.deep_view()[0] == work@[0]@);
            }
            if !head_loaded {
                let ghost rest = skip_loaded(self.modules.entries@, pending.deep_view());
                proof {
                    assert(skip_loaded(self.modules.entries@, work.deep_view())
                        == work.deep_view());
                }
                let specifier = work.remove(0);
                proof {
                    assert(work.deep_view() =~= rest.drop_first());
                }
                let current = specifier.clone();
                return (
                    ExecState {
                        phase: Phase::LoadingImports { root_id, current },
                        pending: work,
                    },
                    DriverAction::Load { specifier },
                );
            }
            let ghost before = work.deep_view();
            work.remove(0);
            proof {
                assert(work.deep_view() =~= before.drop_first());
            }
        }
    }
}

/// `p` is a prefix of `s`.
pub open spec fn spec_is_prefix(p: Seq<char>, s: Seq<char>) -> bool {
    p.len() <= s.len() && s.take(p.len() as int) == p
}

/// Whether `s` starts with `p`.
pub fn has_prefix(s: &str, p: &str) -> (r: bool)
    ensures
        r == spec_is_prefix(p@, s@),
{
    let sl = s.unicode_len();
    let pl = p.unicode_len();
    if pl > sl {
        return false;
    }
    let head = s.substring_char(0, pl);
    proof {
        assert(head@ =~= s@.take(p@.len() as int));
    }
    head.to_owned() == p.to_owned()
}

/// How a module specifier is resolved to source bytes.
pub enum FetchPlan {
    /// Fetch the URL over the network.
    Network { url: String },
    /// Read the file at `path` from the local file system.
    File { path: String },
}

/// Decides how to resolve a specifier: `http://` and `https://` URLs are
/// fetched over the network; a `file:///` specifier is read from the path
/// after the scheme; anything else is a plain file path.
pub fn classify_specifier(specifier: &String) -> (r: FetchPlan)
    ensures
        match r {
            FetchPlan::Network { url } => {
                &&& url@ == specifier@
                &&& (spec_is_prefix("http://"@, specifier@) || spec_is_prefix(
                    "https://"@,
                    specifier@,
                ))
            },
            FetchPlan::File { path } => {
                &&& !spec_is_prefix("http://"@, specifier@)
                &&& !spec_is_prefix("https://"@, specifier@)
                &&& path@ == (if spec_is_prefix("file:///"@, specifier@) {
                    specifier@.subrange(7, specifier@.len() as int)
                } else {
                    specifier@
                })
            },
        },
{
    if has_prefix(specifier.as_str(), "http://") || has_prefix(specifier.as_str(), "https://") {
        FetchPlan::Network { url: specifier.clone() }
    } else if has_prefix(specifier.as_str(), "file:///") {
        proof {
            reveal_strlit("file:///");
        }
        let len = specifier.as_str().unicode_len();
        let path = specifier.as_str().substring_char(7, len);
        FetchPlan::File { path: path.to_owned() }
    } else {
        FetchPlan::File { path: specifier.clone() }
    }
}

/// What the cache step of a load decides.
pub enum LoadDecision {
    /// The name is registered: this is its identity, and nothing was
    /// fetched or changed.
    AlreadyLoaded(i32),
    /// The name must be fetched and compiled; it is not in the registry.
    NeedCompile,
}

impl Isolate {
    /// The cache step of loading a module by name — module dedup: a
    /// specifier already registered (other than the reserved root name)
    /// yields its cached identity and leaves the isolate untouched, so a
    /// second load of the same specifier without intervening eviction
    /// returns the same identity and performs no re-fetch.  The reserved
    /// root name is never reused: its old entry is evicted and it is
    /// compiled anew.
    pub fn begin_load(&mut self, name: &String) -> (r: LoadDecision)
        requires
            old(self).wf(),
        ensures
            final(self).wf(),
            final(self).request_slot == old(self).request_slot,
            final(self).pending_exceptions == old(self).pending_exceptions,
            match r {
                LoadDecision::AlreadyLoaded(id) => {
                    &&& name@ != root_module_name()
                    &&& has_name(old(self).modules.entries@, name@)
                    &&& id == id_of(old(self).modules.entries@, name@)
                    &&& *final(self) == *old(self)
                },
                LoadDecision::NeedCompile => {
                    &&& !has_name(final(self).modules.entries@, name@)
                    &&& (name@ == root_module_name() || !has_name(
                        old(self).modules.entries@,
                        name@,
                    ))
                    &&& forall|k: Seq<char>|
                        k != name@
                            ==> (has_name(final(self).modules.entries@, k) == has_name(
                                old(self).modules.entries@,
                                k,
                            ))
                    &&& forall|k: Seq<char>|
                        k != name@ && has_name(old(self).modules.entries@, k)
                            ==> info_named(final(self).modules.entries@, k) == info_named(
                                old(self).modules.entries@,
                                k,
                            )
                },
            },
    {
        let root = root_module_string();
        match self.modules.lookup_name(name) {
            Some(id) => {
                if *name == root {
                    self.modules.evict(name);
                    LoadDecision::NeedCompile
                } else {
                    LoadDecision::AlreadyLoaded(id)
                }
            },
            None => LoadDecision::NeedCompile,
        }
    }

    /// Registers a freshly compiled module, completing a load that
    /// `begin_load` sent to the compiler, and returns its identity.
    pub fn finish_load(&mut self, name: String, main: bool, id: i32, imports: Vec<String>) -> (r: i32)
        requires
            old(self).wf(),
            !has_name(old(self).modules.entries@, name@),
        ensures
            final(self).wf(),
            r == id,
            final(self).request_slot == old(self).request_slot,
            final(self).pending_exceptions == old(self).pending_exceptions,
            has_name(final(self).modules.entries@, name@),
            ({
                let info = info_named(final(self).modules.entries@, name@);
                info.id == id && info.main == main && !info.init && info.imports == imports
            }),
            forall|k: Seq<char>|
                k != name@ && has_name(old(self).modules.entries@, k)
                    && info_named(old(self).modules.entries@, k).id != id
                    ==> has_name(final(self).modules.entries@, k)
                        && info_named(final(self).modules.entries@, k) == info_named(
                            old(self).modules.entries@,
                            k,
                        ),
    {
        self.modules.register(ModuleInfo { main, init: false, name, id, imports });
        id
    }
}

/// Import resolution terminates on any graph: whatever worklist the
/// imports build, the loader strips registered specifiers, so what it
/// fetches next is never a module already in the registry.  With the
/// registry only growing during a load, each specifier is fetched at most
/// once per execution, and a self-import or a mutual import is found in
/// the registry and skipped rather than followed.
pub proof fn lemma_loader_skips_registered(m: Seq<ModuleInfo>, l: Seq<Seq<char>>)
    requires
        skip_loaded(m, l).len() > 0,
    ensures
        !has_name(m, skip_loaded(m, l)[0]),
    decreases l.len(),
{
    if l.len() > 0 && has_name(m, l[0]) {
        lemma_loader_skips_registered(m, l.drop_first());
    }
}

/// Root replacement: in a well-formed registry the reserved root name maps
/// to at most one live entry, so after an execution registers its fresh
/// root, no stale root entry remains beside it.
pub proof fn lemma_root_entry_unique(s: Seq<ModuleInfo>, i: int, j: int)
    requires
        crate::js::registry::mods_wf(s),
        0 <= i < s.len(),
        0 <= j < s.len(),
        s[i].name@ == root_module_name(),
        s[j].name@ == root_module_name(),
    ensures
        i == j,
{
    if i != j {
        assert(s[i].name@ == s[j].name@);
    }
}

/// Clones a list of specifiers.
fn clone_strings(v: &Vec<String>) -> (r: Vec<String>)
    ensures
        r.deep_view() == v.deep_view(),
{
    let mut out: Vec<String> = Vec::new();
    let n = v.len();
    let mut i: usize = 0;
    while i < n
        invariant
            0 <= i <= n,
            n == v@.len(),
            out.deep_view() =~= v.deep_view().take(i as int),
        decreases n - i,
    {
        let ghost before = out.deep_view();
        out.push(v[i].clone());
        proof {
            assert(out.deep_view() =~= before.push(v@[i as int]@));
            assert(v.deep_view().take(i + 1) =~= v.deep_view().take(i as int).push(
                v.deep_view()[i as int],
            ));
        }
        i = i + 1;
    }
    proof {
        assert(v.deep_view().take(n as int) =~= v.deep_view());
    }
    out
}

/// Appends `extra` to `list`.
fn append_strings(list: &mut Vec<String>, extra: Vec<String>)
    ensures
        final(list).deep_view() == old(list).deep_view() + extra.deep_view(),
{
    let ghost base = list.deep_view();
    let n = extra.len();
    let mut rest = extra;
    let mut i: usize = 0;
    while i < n
        invariant
            0 <= i <= n,
            n == extra.deep_view().len(),
            rest.deep_view() == extra.deep_view(),
            list.deep_view() =~= base + extra.deep_view().take(i as int),
            base == old(list).deep_view(),
        decreases n - i,
    {
        let ghost before = list.deep_view();
        let item = rest[i].clone();
        proof {
            assert(rest.deep_view()[i as int] == extra.deep_view()[i as int]);
        }
        list.push(item);
        proof {
            assert(list.deep_view() =~= before.push(extra.deep_view()[i as int]));
            assert(base + extra.deep_view().take(i + 1) =~= (base + extra.deep_view().take(
                i as int,
            )).push(extra.deep_view()[i as int]));
        }
        i = i + 1;
    }
    proof {
        assert(extra.deep_view().take(n as int) =~= extra.deep_view());
        assert(list.deep_view() =~= base + extra.deep_view());
    }
}

/// The state/action pair that ends an execution with the error `text`.
pub open spec fn done_with_error(st: ExecState, a: DriverAction, text: Seq<char>) -> bool {
    st.phase is Done && match a {
        DriverAction::Done { result } => match result {
            Ok(_) => false,
            Err(e) => e@ == text,
        },
        _ => false,
    }
}

/// What `advance_loading` promises, over the registry `iso` holds after
/// the step: with `rest` the worklist stripped of registered names, either
/// the first missing module is asked for, or instantiation of the root
/// begins.
pub open spec fn loading_advance_post(
    iso: Isolate,
    root_id: i32,
    worklist: Seq<Seq<char>>,
    st: ExecState,
    a: DriverAction,
) -> bool {
    let rest = skip_loaded(iso.modules.entries@, worklist);
    match a {
        DriverAction::Load { specifier } => {
            &&& rest.len() > 0
            &&& specifier@ == rest[0]
            &&& !has_name(iso.modules.entries@, specifier@)
            &&& match st.phase {
                Phase::LoadingImports { root_id: rid, current } => rid == root_id && current@
                    == rest[0],
                _ => false,
            }
            &&& st.pending.deep_view() == rest.drop_first()
        },
        DriverAction::Instantiate { id } => {
            &&& rest.len() == 0
            &&& id == root_id
            &&& st.phase == (Phase::Instantiating { root_id })
            &&& st.pending@.len() == 0
        },
        _ => false,
    }
}

} // verus!
