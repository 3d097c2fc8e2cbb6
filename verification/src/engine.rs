//! The per-request execution bridge: a fresh global environment is built
//! for each request, the script's top-level statements run in order, the
//! first effective `fetch` registration is dispatched immediately with a
//! fetch event, and the handler's value is resolved, marshaled, and
//! passed through the one-shot handoff.
//!
//! Registration policy: the first callable `fetch` listener wins; later
//! registrations of any kind change nothing.  Listeners for other event
//! types are accepted and never dispatched; a non-callable listener is
//! ignored silently.
#![allow(unused_imports)]
use vstd::prelude::*;
use crate::handoff::{conclude, Handoff};
use crate::headers::{
    clone_bytes, clone_pairs, spec_lookup, spec_name_ok, spec_pairs_view, spec_set_entry,
};
use crate::marshal::{marshal, spec_body_model, spec_headers_marshalable, NativeModel, NativeResponse};
use crate::outcome::{native_reply, spec_reply, ExecutionOutcome, FailureKind, OutcomeModel};
use crate::request::{is_fetch_type, make_fetch_event, spec_fetch_type, FetchEvent, RequestSnapshot};
use crate::resolver::{resolve, spec_settle, HandlerValue, SettledValue};
use crate::response::{GuestResponse, ResponseModel, ResponseOptions};

verus! {

/// The body a constructed response takes.
pub enum BodyExpr {
    /// No body argument: the response remembers a missing body.
    NoBody,
    /// A literal byte string.
    Lit(Vec<u8>),
    /// The dispatched event's request url.
    RequestUrl,
    /// A top-level variable of this script's own environment; an
    /// undeclared name reads as a missing body.
    Var(Vec<u8>),
}

/// The options a constructed response is given.
pub struct ResponseExpr {
    pub body: BodyExpr,
    pub status: Option<u16>,
    pub status_text: Option<Vec<u8>>,
    pub url: Option<Vec<u8>>,
    pub headers: Vec<(Vec<u8>, Vec<u8>)>,
}

/// What a handler returns when invoked.
pub enum ValueExpr {
    /// Nothing usable: undefined, or a thrown error.
    Undefined,
    /// A new guest response built from the given options.
    NewResponse(ResponseExpr),
    /// A thenable that settles to the inner expression's value on a
    /// later turn of the microtask queue.
    Defer(Box<ValueExpr>),
    /// A thenable that never settles.
    NeverSettle,
}

/// A registered listener: a callable handler, or something that is not
/// callable and is ignored silently.
pub enum Listener {
    NotCallable,
    Callable(ValueExpr),
}

/// One top-level statement of a guest script.
pub enum Stmt {
    /// Declare, or overwrite, a top-level variable.
    DeclareVar(Vec<u8>, Vec<u8>),
    /// Call `addEventListener(event_type, listener)`.
    AddEventListener(Vec<u8>, Listener),
}

/// A guest script: its top-level statements, run in order.
pub struct Script {
    pub stmts: Vec<Stmt>,
}

/// The per-request global environment: the script's top-level variables
/// and the handle of the registered fetch listener.  Every execution
/// builds a fresh one; no state of an earlier request reaches it.
pub struct Environment {
    pub vars: Vec<(Vec<u8>, Vec<u8>)>,
    pub fetch_listener: Option<usize>,
}

/// Whether a statement is an effective `fetch` registration: the event
/// type is `fetch` and the listener is callable.
pub open spec fn is_fetch_registration(s: Stmt) -> bool {
    s matches Stmt::AddEventListener(t, l) && t@ == spec_fetch_type() && l is Callable
}

/// The top-level variables after a prefix of statements: declarations
/// overwrite in place or append, registrations leave them unchanged.
pub open spec fn spec_vars_after(stmts: Seq<Stmt>) -> Seq<(Seq<u8>, Seq<u8>)>
    decreases stmts.len(),
{
    if stmts.len() == 0 {
        Seq::empty()
    } else {
        let prev = spec_vars_after(stmts.drop_last());
        match stmts.last() {
            Stmt::DeclareVar(n, v) => spec_set_entry(prev, n@, v@),
            Stmt::AddEventListener(_, _) => prev,
        }
    }
}

/// The handle (statement index) of the registered fetch listener: the
/// first effective registration wins, later ones change nothing.
pub open spec fn spec_listener_handle(stmts: Seq<Stmt>) -> Option<int>
    decreases stmts.len(),
{
    if stmts.len() == 0 {
        None
    } else {
        let prev = spec_listener_handle(stmts.drop_last());
        if prev is Some {
            prev
        } else if is_fetch_registration(stmts.last()) {
            Some(stmts.len() - 1)
        } else {
            None
        }
    }
}

/// The registered handle points at the first effective registration.
pub proof fn lemma_listener_handle(stmts: Seq<Stmt>)
    ensures
        spec_listener_handle(stmts) matches Some(k) ==> 0 <= k < stmts.len()
            && is_fetch_registration(stmts[k]) && (forall|j: int|
            0 <= j < k ==> !is_fetch_registration(#[trigger] stmts[j])),
        spec_listener_handle(stmts) is None ==> (forall|j: int|
            0 <= j < stmts.len() ==> !is_fetch_registration(#[trigger] stmts[j])),
    decreases stmts.len(),
{
    if stmts.len() == 0 {
    } else {
        lemma_listener_handle(stmts.drop_last());
        assert(forall|j: int|
            0 <= j < stmts.len() - 1 ==> #[trigger] stmts[j] == stmts.drop_last()[j]);
    }
}

/// What a chain of thenables settles to, at the model level.
pub enum SettleModel {
    /// Never settles: only the deadline ends the wait.
    NoSettle,
    /// No usable value.
    NoValue,
    /// A terminal guest response.
    Value(ResponseModel),
}

/// The model of what resolution yielded.
pub open spec fn spec_settle_model(s: Option<SettledValue>) -> SettleModel {
    match s {
        Option::None => SettleModel::NoSettle,
        Option::Some(SettledValue::NoValue) => SettleModel::NoValue,
        Option::Some(SettledValue::Value(r)) => SettleModel::Value(r@),
    }
}

/// A handler value carries a settle model soundly: it settles to that
/// model, and any terminal response in it is well-formed.
pub open spec fn hv_matches(hv: HandlerValue, m: SettleModel) -> bool {
    &&& spec_settle_model(spec_settle(hv)) == m
    &&& (spec_settle(hv) matches Some(SettledValue::Value(r)) ==> r.wf())
}

/// The body a body expression evaluates to, against the environment's
/// variables and the event's url.
pub open spec fn spec_eval_body(
    b: BodyExpr,
    vars: Seq<(Seq<u8>, Seq<u8>)>,
    url: Seq<u8>,
) -> Option<Seq<u8>> {
    match b {
        BodyExpr::NoBody => None,
        BodyExpr::Lit(v) => Some(v@),
        BodyExpr::RequestUrl => Some(url),
        BodyExpr::Var(n) => spec_lookup(vars, n@),
    }
}

/// Whether every header name of a response expression's init list is
/// token-safe, so that the guest constructor does not throw.
pub open spec fn spec_headers_ok(e: ResponseExpr) -> bool {
    forall|k: int| 0 <= k < e.headers@.len() ==> spec_name_ok((#[trigger] e.headers@[k]).0@)
}

/// The response a response expression constructs.
pub open spec fn spec_response_model(
    e: ResponseExpr,
    vars: Seq<(Seq<u8>, Seq<u8>)>,
    url: Seq<u8>,
) -> ResponseModel {
    ResponseModel {
        body: spec_eval_body(e.body, vars, url),
        status: if e.status is Some {
            e.status->0
        } else {
            200
        },
        status_text: if e.status_text is Some {
            e.status_text->0@
        } else {
            Seq::empty()
        },
        url: if e.url is Some {
            e.url->0@
        } else {
            Seq::empty()
        },
        headers: crate::headers::spec_headers_of(spec_pairs_view(e.headers@)),
    }
}

/// What a handler's value expression settles to: thenables settle as
/// their inner expression, a constructor throw leaves no usable value.
pub open spec fn spec_settle_expr(
    e: ValueExpr,
    vars: Seq<(Seq<u8>, Seq<u8>)>,
    url: Seq<u8>,
) -> SettleModel
    decreases e,
{
    match e {
        ValueExpr::Undefined => SettleModel::NoValue,
        ValueExpr::NeverSettle => SettleModel::NoSettle,
        ValueExpr::Defer(inner) => spec_settle_expr(*inner, vars, url),
        ValueExpr::NewResponse(re) => if spec_headers_ok(re) {
            SettleModel::Value(spec_response_model(re, vars, url))
        } else {
            SettleModel::NoValue
        },
    }
}

/// What dispatching a script against a request url yields: nothing when
/// no effective listener was registered, else the settle model of the
/// handler, invoked with the variables declared before its registration.
pub open spec fn spec_dispatch_model(stmts: Seq<Stmt>, url: Seq<u8>) -> Option<SettleModel> {
    match spec_listener_handle(stmts) {
        None => None,
        Some(k) => match stmts[k] {
            Stmt::AddEventListener(_, Listener::Callable(e)) => Some(
                spec_settle_expr(e, spec_vars_after(stmts.take(k)), url),
            ),
            _ => None,
        },
    }
}

/// The outcome one execution of a script against a request snapshot is
/// owed: no listener or no usable value fails with `NoResponse`, a chain
/// that never settles times out, and a terminal response marshals to a
/// completed native response or fails with `InvalidHeader`.
pub open spec fn spec_execute(script: Script, request: RequestSnapshot) -> OutcomeModel {
    match spec_dispatch_model(script.stmts@, request.path@) {
        None => OutcomeModel::Failed(FailureKind::NoResponse),
        Some(SettleModel::NoSettle) => OutcomeModel::TimedOut,
        Some(SettleModel::NoValue) => OutcomeModel::Failed(FailureKind::NoResponse),
        Some(SettleModel::Value(rm)) => if spec_headers_marshalable(rm.headers) {
            OutcomeModel::Completed(
                NativeModel {
                    status: rm.status,
                    headers: rm.headers,
                    body: spec_body_model(rm.body),
                },
            )
        } else {
            OutcomeModel::Failed(FailureKind::InvalidHeader)
        },
    }
}

impl Environment {
    /// A fresh environment: no variables, no listener.
    pub fn new() -> (env: Environment)
        ensures
            env.vars@.len() == 0,
            env.fetch_listener is None,
    {
        Environment { vars: Vec::new(), fetch_listener: None }
    }

    /// Declares a top-level variable, overwriting an earlier declaration
    /// of the same name in place.
    pub fn declare_var(&mut self, name: &Vec<u8>, value: &Vec<u8>)
        ensures
            spec_pairs_view(final(self).vars@) =~= spec_set_entry(
                spec_pairs_view(old(self).vars@),
                name@,
                value@,
            ),
            final(self).fetch_listener == old(self).fetch_listener,
    {
        let ghost vars0 = spec_pairs_view(self.vars@);
        let n = self.vars.len();
        let mut i: usize = 0;
        while i < n
            invariant
                n == self.vars@.len(),
                i <= n,
                *self == *old(self),
                vars0 == spec_pairs_view(self.vars@),
                forall|j: int| 0 <= j < i ==> (#[trigger] vars0[j]).0 != name@,
            decreases n - i,
        {
            if crate::headers::bytes_eq(&self.vars[i].0, name) {
                let name2 = clone_bytes(name);
                let value2 = clone_bytes(value);
                self.vars.set(i, (name2, value2));
                proof {
                    assert(vars0[i as int].0 == name@);
                    assert(crate::headers::spec_has_name(vars0, name@));
                    crate::headers::lemma_first_match(vars0, name@);
                    assert(crate::headers::spec_first_match(vars0, name@) == i as int) by {
                        let fm = crate::headers::spec_first_match(vars0, name@);
                        if fm < i as int {
                            assert(vars0[fm].0 != name@);
                        }
                        if fm > i as int {
                            assert(vars0[i as int].0 != name@);
                        }
                    }
                    assert(spec_pairs_view(self.vars@) =~= spec_set_entry(vars0, name@, value@));
                }
                return ;
            }
            i = i + 1;
        }
        let name2 = clone_bytes(name);
        let value2 = clone_bytes(value);
        self.vars.push((name2, value2));
        proof {
            assert(!crate::headers::spec_has_name(vars0, name@));
            assert(spec_pairs_view(self.vars@) =~= spec_set_entry(vars0, name@, value@));
        }
    }

    /// Reads a top-level variable.
    pub fn get_var(&self, name: &Vec<u8>) -> (r: Option<Vec<u8>>)
        ensures
            spec_settled_var(r) == spec_lookup(spec_pairs_view(self.vars@), name@),
    {
        let ghost vars0 = spec_pairs_view(self.vars@);
        let n = self.vars.len();
        let mut i: usize = 0;
        while i < n
            invariant
                n == self.vars@.len(),
                i <= n,
                vars0 == spec_pairs_view(self.vars@),
                forall|j: int| 0 <= j < i ==> (#[trigger] vars0[j]).0 != name@,
            decreases n - i,
        {
            if crate::headers::bytes_eq(&self.vars[i].0, name) {
                proof {
                    assert(vars0[i as int].0 == name@);
                    assert(crate::headers::spec_has_name(vars0, name@));
                    crate::headers::lemma_first_match(vars0, name@);
                    assert(crate::headers::spec_first_match(vars0, name@) == i as int) by {
                        let fm = crate::headers::spec_first_match(vars0, name@);
                        if fm < i as int {
                            assert(vars0[fm].0 != name@);
                        }
                        if fm > i as int {
                            assert(vars0[i as int].0 != name@);
                        }
                    }
                }
                return Some(clone_bytes(&self.vars[i].1));
            }
            i = i + 1;
        }
        None
    }

    /// The `addEventListener` callable: only a callable `fetch` listener
    /// registers, and only while none is registered yet; anything else is
    /// accepted and ignored.
    pub fn add_event_listener(&mut self, event_type: &Vec<u8>, callable: bool, handle: usize)
        ensures
            final(self).vars == old(self).vars,
            final(self).fetch_listener == (if old(self).fetch_listener is None && event_type@
                == spec_fetch_type() && callable {
                Some(handle)
            } else {
                old(self).fetch_listener
            }),
    {
        if self.fetch_listener.is_none() && is_fetch_type(event_type) && callable {
            self.fetch_listener = Some(handle);
        }
    }
}

/// The view of a variable read, for contracts.
pub open spec fn spec_settled_var(r: Option<Vec<u8>>) -> Option<Seq<u8>> {
    match r {
        Some(v) => Some(v@),
        None => None,
    }
}

/// Invokes a handler body: evaluates the value expression it returns
/// against the environment's variables and the event, building guest
/// responses through the guest constructor.
pub fn eval_value(expr: &ValueExpr, env: &Environment, ev: &FetchEvent) -> (hv: HandlerValue)
    ensures
        hv_matches(hv, spec_settle_expr(*expr, spec_pairs_view(env.vars@), ev.url@)),
    decreases *expr,
{
    match expr {
        ValueExpr::Undefined => HandlerValue::Missing,
        ValueExpr::NeverSettle => HandlerValue::NeverSettles,
        ValueExpr::Defer(inner) => {
            let hv_inner = eval_value(inner, env, ev);
            HandlerValue::Thenable(Box::new(hv_inner))
        },
        ValueExpr::NewResponse(re) => {
            let body: Option<Vec<u8>> = match &re.body {
                BodyExpr::NoBody => None,
                BodyExpr::Lit(v) => Some(clone_bytes(v)),
                BodyExpr::RequestUrl => Some(clone_bytes(&ev.url)),
                BodyExpr::Var(n) => env.get_var(n),
            };
            let options = ResponseOptions {
                status: re.status,
                status_text: match &re.status_text {
                    Some(t) => Some(clone_bytes(t)),
                    None => None,
                },
                url: match &re.url {
                    Some(u) => Some(clone_bytes(u)),
                    None => None,
                },
                headers: clone_pairs(&re.headers),
            };
            proof {
                assert(spec_pairs_view(options.headers@) == spec_pairs_view(re.headers@));
            }
            match GuestResponse::new(body, &options) {
                Ok(resp) => {
                    proof {
                        assert forall|k: int| 0 <= k < re.headers@.len() implies spec_name_ok(
                            (#[trigger] re.headers@[k]).0@,
                        ) by {
                            assert(spec_pairs_view(options.headers@)[k] == spec_pairs_view(
                                re.headers@,
                            )[k]);
                            assert(options.headers@[k].0@ == re.headers@[k].0@);
                            assert(spec_name_ok(options.headers@[k].0@));
                        }
                        assert(spec_headers_ok(*re));
                        assert(resp@ == spec_response_model(
                            *re,
                            spec_pairs_view(env.vars@),
                            ev.url@,
                        ));
                    }
                    HandlerValue::Terminal(resp)
                },
                Err(_) => {
                    proof {
                        let k = choose|k: int|
                            0 <= k < options.headers@.len() && !spec_name_ok(
                                options.headers@[k].0@,
                            );
                        assert(spec_pairs_view(options.headers@)[k] == spec_pairs_view(
                            re.headers@,
                        )[k]);
                        assert(!spec_name_ok(re.headers@[k].0@));
                        assert(!spec_headers_ok(*re));
                    }
                    HandlerValue::Missing
                },
            }
        },
    }
}

/// One full request execution.  A fresh environment is built, the
/// script's statements run in order, the first effective registration is
/// dispatched at once with the fetch event, and whatever outcome the
/// resolution produces crosses a one-shot handoff to the conclusion; a
/// chain that never settles leaves the handoff empty and concludes
/// `TimedOut`.
pub fn execute(request: &RequestSnapshot, script: &Script) -> (r: ExecutionOutcome)
    ensures
        r@ == spec_execute(*script, *request),
{
    let mut env = Environment::new();
    let mut dispatched: Option<HandlerValue> = None;
    let n = script.stmts.len();
    let mut i: usize = 0;
    proof {
        assert(spec_pairs_view(env.vars@) =~= spec_vars_after(script.stmts@.take(0)));
    }
    while i < n
        invariant
            n == script.stmts@.len(),
            i <= n,
            spec_pairs_view(env.vars@) == spec_vars_after(script.stmts@.take(i as int)),
            (env.fetch_listener is Some) == (spec_listener_handle(script.stmts@.take(i as int))
                is Some),
            env.fetch_listener matches Some(h) ==> spec_listener_handle(
                script.stmts@.take(i as int),
            ) == Some(h as int),
            (dispatched is Some) == (spec_dispatch_model(
                script.stmts@.take(i as int),
                request.path@,
            ) is Some),
            dispatched matches Some(hv) ==> hv_matches(
                hv,
                spec_dispatch_model(script.stmts@.take(i as int), request.path@)->0,
            ),
        decreases n - i,
    {
        let ghost pre = script.stmts@.take(i as int);
        let ghost post = script.stmts@.take(i as int + 1);
        proof {
            assert(post.drop_last() =~= pre);
            assert(post.last() == script.stmts@[i as int]);
        }
        match &script.stmts[i] {
            Stmt::DeclareVar(name, value) => {
                env.declare_var(name, value);
                proof {
                    lemma_prefix_dispatch_stable(script.stmts@, i as int, request.path@);
                }
            },
            Stmt::AddEventListener(t, l) => {
                let was_registered = env.fetch_listener.is_some();
                let callable = match l {
                    Listener::Callable(_) => true,
                    Listener::NotCallable => false,
                };
                env.add_event_listener(t, callable, i);
                if !was_registered && is_fetch_type(t) && callable {
                    match l {
                        Listener::Callable(expr) => {
                            let ev = make_fetch_event(request);
                            let hv = eval_value(expr, &env, &ev);
                            proof {
                                assert(is_fetch_registration(post.last()));
                                assert(spec_listener_handle(post) == Some(i as int));
                                assert(post.take(i as int) =~= pre);
                            }
                            dispatched = Some(hv);
                        },
                        Listener::NotCallable => {},
                    }
                } else {
                    proof {
                        lemma_prefix_dispatch_stable(script.stmts@, i as int, request.path@);
                        if spec_listener_handle(pre) is None && is_fetch_registration(post.last()) {
                            assert(was_registered || !(t@ == spec_fetch_type() && callable));
                            assert(false);
                        }
                    }
                }
            },
        }
        i = i + 1;
    }
    proof {
        assert(script.stmts@.take(n as int) =~= script.stmts@);
    }
    let produced: Option<ExecutionOutcome> = match dispatched {
        None => Some(ExecutionOutcome::Failed(FailureKind::NoResponse)),
        Some(hv) => match resolve(hv) {
            None => None,
            Some(SettledValue::NoValue) => Some(
                ExecutionOutcome::Failed(FailureKind::NoResponse),
            ),
            Some(SettledValue::Value(resp)) => match marshal(&resp) {
                Ok(nr) => Some(ExecutionOutcome::Completed(nr)),
                Err(k) => Some(ExecutionOutcome::Failed(k)),
            },
        },
    };
    let mut cell = Handoff::new();
    match produced {
        Some(o) => {
            cell.offer(o);
        },
        None => {},
    }
    let received = cell.take();
    conclude(received)
}

/// A statement that neither declares the dispatch nor registers first
/// leaves the dispatch model of the prefix unchanged.
proof fn lemma_prefix_dispatch_stable(stmts: Seq<Stmt>, i: int, url: Seq<u8>)
    requires
        0 <= i < stmts.len(),
        spec_listener_handle(stmts.take(i)) is Some || !is_fetch_registration(stmts[i]),
    ensures
        spec_listener_handle(stmts.take(i + 1)) == spec_listener_handle(stmts.take(i)),
        spec_dispatch_model(stmts.take(i + 1), url) == spec_dispatch_model(stmts.take(i), url),
{
    let pre = stmts.take(i);
    let post = stmts.take(i + 1);
    assert(post.drop_last() =~= pre);
    assert(post.last() == stmts[i]);
    match spec_listener_handle(pre) {
        None => {},
        Some(k) => {
            lemma_listener_handle(pre);
            assert(post[k] == pre[k]);
            assert(post.take(k) =~= pre.take(k));
        },
    }
}

/// The native handler around one request: runs the execution and always
/// replies at the HTTP layer, with the completed response or the fixed
/// fallback body.
pub fn handle_request(request: &RequestSnapshot, script: &Script) -> (r: NativeResponse)
    ensures
        r@ == spec_reply(spec_execute(*script, *request)),
{
    let outcome = execute(request, script);
    native_reply(outcome)
}

/// Promise unwrap at the handler level: a handler returning a deferred
/// value settles exactly as one returning the inner value directly, so
/// both executions end in the same outcome.
pub proof fn lemma_defer_transparent(
    d: ValueExpr,
    e: ValueExpr,
    vars: Seq<(Seq<u8>, Seq<u8>)>,
    url: Seq<u8>,
)
    requires
        d matches ValueExpr::Defer(inner) && *inner == e,
    ensures
        spec_settle_expr(d, vars, url) == spec_settle_expr(e, vars, url),
{
}

/// The non-deferred expression a chain of deferrals reaches.
pub open spec fn spec_strip_expr(e: ValueExpr) -> ValueExpr
    decreases e,
{
    match e {
        ValueExpr::Defer(inner) => spec_strip_expr(*inner),
        _ => e,
    }
}

/// Chained deferral: a handler returning a promise that resolves to
/// another promise, to any depth, settles exactly as the value the chain
/// finally reaches; no intermediate deferral is taken for the terminal
/// value.
pub proof fn lemma_chain_transparent(e: ValueExpr, vars: Seq<(Seq<u8>, Seq<u8>)>, url: Seq<u8>)
    ensures
        spec_settle_expr(e, vars, url) == spec_settle_expr(spec_strip_expr(e), vars, url),
        !(spec_strip_expr(e) is Defer),
    decreases e,
{
    match e {
        ValueExpr::Defer(inner) => {
            lemma_chain_transparent(*inner, vars, url);
        },
        _ => {},
    }
}

/// Deadline law: a script whose dispatched handler never settles
/// concludes `TimedOut` — nothing else ever crosses the handoff for it.
pub proof fn lemma_never_settling_times_out(script: Script, request: RequestSnapshot)
    requires
        spec_dispatch_model(script.stmts@, request.path@) == Some(SettleModel::NoSettle),
    ensures
        spec_execute(script, request) == OutcomeModel::TimedOut,
{
}

/// No-listener law: a script with no effective `fetch` registration
/// fails with `NoResponse`, never hangs.
pub proof fn lemma_no_listener_no_response(script: Script, request: RequestSnapshot)
    requires
        forall|j: int|
            0 <= j < script.stmts@.len() ==> !is_fetch_registration(#[trigger] script.stmts@[j]),
    ensures
        spec_execute(script, request) == OutcomeModel::Failed(FailureKind::NoResponse),
{
    lemma_handle_none(script.stmts@);
}

/// A statement list free of effective registrations registers nothing.
proof fn lemma_handle_none(stmts: Seq<Stmt>)
    requires
        forall|j: int| 0 <= j < stmts.len() ==> !is_fetch_registration(#[trigger] stmts[j]),
    ensures
        spec_listener_handle(stmts) is None,
    decreases stmts.len(),
{
    if stmts.len() == 0 {
    } else {
        assert(forall|j: int|
            0 <= j < stmts.len() - 1 ==> #[trigger] stmts.drop_last()[j] == stmts[j]);
        lemma_handle_none(stmts.drop_last());
    }
}

/// Two sequential requests, as the pair of their outcomes: each
/// execution starts from a fresh environment, so the pair is the pair of
/// independent runs.
pub open spec fn spec_serve_two(
    s1: Script,
    r1: RequestSnapshot,
    s2: Script,
    r2: RequestSnapshot,
) -> (OutcomeModel, OutcomeModel) {
    (spec_execute(s1, r1), spec_execute(s2, r2))
}

/// Isolation law: the outcome of the second of two sequential requests
/// does not depend on the first request at all — in particular, a
/// top-level variable declared by one script, of whatever name and
/// value, is invisible to the other execution.
pub proof fn lemma_isolation(
    s1: Script,
    r1: RequestSnapshot,
    s1_other: Script,
    r1_other: RequestSnapshot,
    s2: Script,
    r2: RequestSnapshot,
)
    ensures
        spec_serve_two(s1, r1, s2, r2).1 == spec_serve_two(s1_other, r1_other, s2, r2).1,
        spec_serve_two(s1, r1, s2, r2).1 == spec_execute(s2, r2),
{
}

} // verus!
