//! Behaviour of the full execution bridge: dispatch, promise unwrap,
//! marshaling, the deadline path, and isolation between requests.

use edge_worker::engine::{
    execute, handle_request, BodyExpr, Environment, Listener, ResponseExpr, Script, Stmt,
    ValueExpr,
};
use edge_worker::marshal::NativeResponse;
use edge_worker::outcome::{ExecutionOutcome, FailureKind};
use edge_worker::request::{make_fetch_event, HttpVersion, RequestSnapshot};

fn request(path: &[u8]) -> RequestSnapshot {
    RequestSnapshot {
        method: b"GET".to_vec(),
        path: path.to_vec(),
        version: HttpVersion::Http11,
        headers: Vec::new(),
        body: None,
    }
}

fn plain_response(body: &[u8]) -> ResponseExpr {
    ResponseExpr {
        body: BodyExpr::Lit(body.to_vec()),
        status: None,
        status_text: None,
        url: None,
        headers: Vec::new(),
    }
}

fn script_returning(value: ValueExpr) -> Script {
    Script { stmts: vec![Stmt::AddEventListener(b"fetch".to_vec(), Listener::Callable(value))] }
}

#[test]
fn round_trip_status_body_header() {
    let expr = ResponseExpr {
        body: BodyExpr::Lit(b"hello".to_vec()),
        status: Some(201),
        status_text: None,
        url: None,
        headers: vec![(b"x-a".to_vec(), b"1".to_vec())],
    };
    let outcome = execute(&request(b"/"), &script_returning(ValueExpr::NewResponse(expr)));
    match outcome {
        ExecutionOutcome::Completed(nr) => {
            assert_eq!(nr.status, 201);
            assert_eq!(nr.body, b"hello".to_vec());
            assert_eq!(nr.headers, vec![(b"x-a".to_vec(), b"1".to_vec())]);
        },
        other => panic!("expected a completed response, got {:?}", other),
    }
}

#[test]
fn promise_unwrap_matches_direct_return() {
    let direct = execute(
        &request(b"/"),
        &script_returning(ValueExpr::NewResponse(plain_response(b"x"))),
    );
    let deferred = execute(
        &request(b"/"),
        &script_returning(ValueExpr::Defer(Box::new(ValueExpr::NewResponse(plain_response(
            b"x",
        ))))),
    );
    assert_eq!(direct, deferred);
    assert!(matches!(direct, ExecutionOutcome::Completed(_)));
}

#[test]
fn chained_deferral_reaches_the_response() {
    let chained = execute(
        &request(b"/"),
        &script_returning(ValueExpr::Defer(Box::new(ValueExpr::Defer(Box::new(
            ValueExpr::Defer(Box::new(ValueExpr::NewResponse(plain_response(b"deep")))),
        ))))),
    );
    match chained {
        ExecutionOutcome::Completed(nr) => assert_eq!(nr.body, b"deep".to_vec()),
        other => panic!("expected a completed response, got {:?}", other),
    }
}

#[test]
fn never_settling_handler_times_out() {
    let outcome = execute(&request(b"/"), &script_returning(ValueExpr::NeverSettle));
    assert_eq!(outcome, ExecutionOutcome::TimedOut);
    let outcome2 = execute(
        &request(b"/"),
        &script_returning(ValueExpr::Defer(Box::new(ValueExpr::NeverSettle))),
    );
    assert_eq!(outcome2, ExecutionOutcome::TimedOut);
}

#[test]
fn no_listener_yields_no_response() {
    let script = Script { stmts: vec![Stmt::DeclareVar(b"x".to_vec(), b"1".to_vec())] };
    assert_eq!(
        execute(&request(b"/"), &script),
        ExecutionOutcome::Failed(FailureKind::NoResponse)
    );

    let other_type = Script {
        stmts: vec![Stmt::AddEventListener(
            b"click".to_vec(),
            Listener::Callable(ValueExpr::NewResponse(plain_response(b"x"))),
        )],
    };
    assert_eq!(
        execute(&request(b"/"), &other_type),
        ExecutionOutcome::Failed(FailureKind::NoResponse)
    );

    let not_callable = Script {
        stmts: vec![Stmt::AddEventListener(b"fetch".to_vec(), Listener::NotCallable)],
    };
    assert_eq!(
        execute(&request(b"/"), &not_callable),
        ExecutionOutcome::Failed(FailureKind::NoResponse)
    );
}

#[test]
fn handler_returning_nothing_yields_no_response() {
    assert_eq!(
        execute(&request(b"/"), &script_returning(ValueExpr::Undefined)),
        ExecutionOutcome::Failed(FailureKind::NoResponse)
    );
}

#[test]
fn isolation_between_sequential_requests() {
    let script_a = Script {
        stmts: vec![
            Stmt::DeclareVar(b"greeting".to_vec(), b"from a".to_vec()),
            Stmt::AddEventListener(
                b"fetch".to_vec(),
                Listener::Callable(ValueExpr::NewResponse(ResponseExpr {
                    body: BodyExpr::Var(b"greeting".to_vec()),
                    status: None,
                    status_text: None,
                    url: None,
                    headers: Vec::new(),
                })),
            ),
        ],
    };
    let script_b = Script {
        stmts: vec![
            Stmt::DeclareVar(b"greeting".to_vec(), b"from b".to_vec()),
            Stmt::AddEventListener(
                b"fetch".to_vec(),
                Listener::Callable(ValueExpr::NewResponse(ResponseExpr {
                    body: BodyExpr::Var(b"greeting".to_vec()),
                    status: None,
                    status_text: None,
                    url: None,
                    headers: Vec::new(),
                })),
            ),
        ],
    };
    let first = execute(&request(b"/"), &script_a);
    let second = execute(&request(b"/"), &script_b);
    match (first, second) {
        (ExecutionOutcome::Completed(a), ExecutionOutcome::Completed(b)) => {
            assert_eq!(a.body, b"from a".to_vec());
            assert_eq!(b.body, b"from b".to_vec());
        },
        other => panic!("expected two completed responses, got {:?}", other),
    }
    // the same script run again observes nothing of the earlier runs
    let again = execute(&request(b"/"), &script_b);
    match again {
        ExecutionOutcome::Completed(b) => assert_eq!(b.body, b"from b".to_vec()),
        other => panic!("expected a completed response, got {:?}", other),
    }
}

#[test]
fn first_fetch_listener_wins() {
    let script = Script {
        stmts: vec![
            Stmt::AddEventListener(
                b"fetch".to_vec(),
                Listener::Callable(ValueExpr::NewResponse(plain_response(b"first"))),
            ),
            Stmt::AddEventListener(
                b"fetch".to_vec(),
                Listener::Callable(ValueExpr::NewResponse(plain_response(b"second"))),
            ),
        ],
    };
    match execute(&request(b"/"), &script) {
        ExecutionOutcome::Completed(nr) => assert_eq!(nr.body, b"first".to_vec()),
        other => panic!("expected a completed response, got {:?}", other),
    }
}

#[test]
fn dispatch_sees_only_earlier_declarations() {
    // The listener is dispatched at registration time, so a variable
    // declared after it is not visible and the body falls back to the
    // placeholder.
    let script = Script {
        stmts: vec![
            Stmt::AddEventListener(
                b"fetch".to_vec(),
                Listener::Callable(ValueExpr::NewResponse(ResponseExpr {
                    body: BodyExpr::Var(b"late".to_vec()),
                    status: None,
                    status_text: None,
                    url: None,
                    headers: Vec::new(),
                })),
            ),
            Stmt::DeclareVar(b"late".to_vec(), b"too late".to_vec()),
        ],
    };
    match execute(&request(b"/"), &script) {
        ExecutionOutcome::Completed(nr) => assert_eq!(nr.body, b"No response given.".to_vec()),
        other => panic!("expected a completed response, got {:?}", other),
    }
}

#[test]
fn handler_reads_the_request_url() {
    let expr = ResponseExpr {
        body: BodyExpr::RequestUrl,
        status: None,
        status_text: None,
        url: None,
        headers: Vec::new(),
    };
    match execute(&request(b"/index.html"), &script_returning(ValueExpr::NewResponse(expr))) {
        ExecutionOutcome::Completed(nr) => assert_eq!(nr.body, b"/index.html".to_vec()),
        other => panic!("expected a completed response, got {:?}", other),
    }
}

#[test]
fn invalid_header_value_fails_marshaling() {
    let expr = ResponseExpr {
        body: BodyExpr::Lit(b"x".to_vec()),
        status: None,
        status_text: None,
        url: None,
        headers: vec![(b"x-a".to_vec(), b"bad\nvalue".to_vec())],
    };
    assert_eq!(
        execute(&request(b"/"), &script_returning(ValueExpr::NewResponse(expr))),
        ExecutionOutcome::Failed(FailureKind::InvalidHeader)
    );
}

#[test]
fn overlong_header_name_fails_marshaling() {
    // Token-safe for the guest, but past the native 65535-byte bound.
    let expr = ResponseExpr {
        body: BodyExpr::Lit(b"x".to_vec()),
        status: None,
        status_text: None,
        url: None,
        headers: vec![(vec![b'a'; 70000], b"v".to_vec())],
    };
    assert_eq!(
        execute(&request(b"/"), &script_returning(ValueExpr::NewResponse(expr))),
        ExecutionOutcome::Failed(FailureKind::InvalidHeader)
    );
}

#[test]
fn invalid_header_name_in_constructor_yields_no_response() {
    // The guest constructor throws, so the handler produces no value.
    let expr = ResponseExpr {
        body: BodyExpr::Lit(b"x".to_vec()),
        status: None,
        status_text: None,
        url: None,
        headers: vec![(b"bad name".to_vec(), b"v".to_vec())],
    };
    assert_eq!(
        execute(&request(b"/"), &script_returning(ValueExpr::NewResponse(expr))),
        ExecutionOutcome::Failed(FailureKind::NoResponse)
    );
}

#[test]
fn high_bytes_are_valid_header_values() {
    let expr = ResponseExpr {
        body: BodyExpr::Lit(b"x".to_vec()),
        status: None,
        status_text: None,
        url: None,
        headers: vec![(b"x-a".to_vec(), vec![200u8, 9u8, 32u8])],
    };
    match execute(&request(b"/"), &script_returning(ValueExpr::NewResponse(expr))) {
        ExecutionOutcome::Completed(nr) => {
            assert_eq!(nr.headers, vec![(b"x-a".to_vec(), vec![200u8, 9u8, 32u8])]);
        },
        other => panic!("expected a completed response, got {:?}", other),
    }
}

#[test]
fn missing_body_marshals_to_placeholder() {
    let expr = ResponseExpr {
        body: BodyExpr::NoBody,
        status: None,
        status_text: None,
        url: None,
        headers: Vec::new(),
    };
    match execute(&request(b"/"), &script_returning(ValueExpr::NewResponse(expr))) {
        ExecutionOutcome::Completed(nr) => assert_eq!(nr.body, b"No response given.".to_vec()),
        other => panic!("expected a completed response, got {:?}", other),
    }
}

#[test]
fn handle_request_replies_on_every_path() {
    let completed = handle_request(
        &request(b"/"),
        &script_returning(ValueExpr::NewResponse(plain_response(b"ok"))),
    );
    assert_eq!(completed.status, 200);
    assert_eq!(completed.body, b"ok".to_vec());

    let timed_out = handle_request(&request(b"/"), &script_returning(ValueExpr::NeverSettle));
    assert_eq!(timed_out.status, 200);
    assert_eq!(timed_out.body, b"Execution timeout reached".to_vec());

    let no_listener = handle_request(&request(b"/"), &Script { stmts: Vec::new() });
    assert_eq!(no_listener.status, 200);
    assert_eq!(no_listener.body, b"Code failed to execute.".to_vec());
}

#[test]
fn environment_variables_shadow_and_read_back() {
    let mut env = Environment::new();
    env.declare_var(&b"x".to_vec(), &b"1".to_vec());
    env.declare_var(&b"y".to_vec(), &b"2".to_vec());
    env.declare_var(&b"x".to_vec(), &b"3".to_vec());
    assert_eq!(env.get_var(&b"x".to_vec()), Some(b"3".to_vec()));
    assert_eq!(env.get_var(&b"y".to_vec()), Some(b"2".to_vec()));
    assert_eq!(env.get_var(&b"z".to_vec()), None);
}

#[test]
fn fetch_event_exposes_the_path() {
    let ev = make_fetch_event(&request(b"/p"));
    assert_eq!(ev.event_type, b"fetch".to_vec());
    assert_eq!(ev.url, b"/p".to_vec());
}

#[test]
fn native_response_equality_is_by_fields() {
    let a = NativeResponse { status: 200, headers: Vec::new(), body: b"x".to_vec() };
    let b = NativeResponse { status: 200, headers: Vec::new(), body: b"x".to_vec() };
    assert_eq!(a, b);
}
