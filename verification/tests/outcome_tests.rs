//! Behaviour of the response value, the marshaler, the one-shot
//! handoff, and the fixed fallback replies.

use edge_worker::handoff::{conclude, Handoff};
use edge_worker::marshal::{marshal, NativeResponse};
use edge_worker::outcome::{native_reply, ExecutionOutcome, FailureKind};
use edge_worker::response::{GuestResponse, ResponseOptions};

#[test]
fn response_constructor_defaults() {
    let resp = GuestResponse::new(None, &ResponseOptions::empty()).unwrap();
    assert_eq!(resp.status, 200);
    assert!(resp.ok());
    assert_eq!(resp.status_text, Vec::<u8>::new());
    assert_eq!(resp.url, Vec::<u8>::new());
    assert_eq!(resp.body, None);
    assert_eq!(resp.headers.keys().len(), 0);
}

#[test]
fn response_ok_tracks_the_status_range() {
    let mut options = ResponseOptions::empty();
    options.status = Some(299);
    assert!(GuestResponse::new(None, &options).unwrap().ok());
    options.status = Some(300);
    assert!(!GuestResponse::new(None, &options).unwrap().ok());
    options.status = Some(199);
    assert!(!GuestResponse::new(None, &options).unwrap().ok());
    options.status = Some(404);
    assert!(!GuestResponse::new(None, &options).unwrap().ok());
}

#[test]
fn response_constructor_builds_headers_from_init() {
    let options = ResponseOptions {
        status: Some(201),
        status_text: Some(b"Created".to_vec()),
        url: Some(b"/u".to_vec()),
        headers: vec![(b"X-A".to_vec(), b"1".to_vec()), (b"x-a".to_vec(), b"2".to_vec())],
    };
    let resp = GuestResponse::new(Some(b"hello".to_vec()), &options).unwrap();
    assert_eq!(resp.status, 201);
    assert_eq!(resp.status_text, b"Created".to_vec());
    assert_eq!(resp.url, b"/u".to_vec());
    assert_eq!(resp.headers.get(&b"x-a".to_vec()), Some(b"1, 2".to_vec()));

    let bad = ResponseOptions {
        status: None,
        status_text: None,
        url: None,
        headers: vec![(b"bad name".to_vec(), b"1".to_vec())],
    };
    assert!(GuestResponse::new(None, &bad).is_err());
}

#[test]
fn marshal_round_trip() {
    let options = ResponseOptions {
        status: Some(201),
        status_text: None,
        url: None,
        headers: vec![(b"x-a".to_vec(), b"1".to_vec())],
    };
    let resp = GuestResponse::new(Some(b"hello".to_vec()), &options).unwrap();
    let nr = marshal(&resp).unwrap();
    assert_eq!(nr.status, 201);
    assert_eq!(nr.body, b"hello".to_vec());
    assert_eq!(nr.headers, vec![(b"x-a".to_vec(), b"1".to_vec())]);
}

#[test]
fn marshal_substitutes_the_missing_body_placeholder() {
    let resp = GuestResponse::new(None, &ResponseOptions::empty()).unwrap();
    let nr = marshal(&resp).unwrap();
    assert_eq!(nr.body, b"No response given.".to_vec());

    let empty = GuestResponse::new(Some(Vec::new()), &ResponseOptions::empty()).unwrap();
    assert_eq!(marshal(&empty).unwrap().body, Vec::<u8>::new());
}

#[test]
fn marshal_rejects_control_bytes_in_values() {
    let options = ResponseOptions {
        status: None,
        status_text: None,
        url: None,
        headers: vec![(b"x-a".to_vec(), b"with\x00nul".to_vec())],
    };
    let resp = GuestResponse::new(None, &options).unwrap();
    assert_eq!(marshal(&resp), Err(FailureKind::InvalidHeader));
}

#[test]
fn handoff_delivers_exactly_once() {
    let mut cell = Handoff::new();
    assert!(cell.offer(ExecutionOutcome::TimedOut));
    assert!(!cell.offer(ExecutionOutcome::Failed(FailureKind::EngineFault)));
    assert_eq!(cell.take(), Some(ExecutionOutcome::TimedOut));
    assert!(!cell.offer(ExecutionOutcome::Failed(FailureKind::EngineFault)));
    assert_eq!(cell.take(), None);
}

#[test]
fn conclude_maps_an_empty_receive_to_timeout() {
    assert_eq!(conclude(None), ExecutionOutcome::TimedOut);
    assert_eq!(
        conclude(Some(ExecutionOutcome::Failed(FailureKind::NoResponse))),
        ExecutionOutcome::Failed(FailureKind::NoResponse)
    );
}

#[test]
fn native_reply_fallback_bodies() {
    let timed_out = native_reply(ExecutionOutcome::TimedOut);
    assert_eq!(timed_out.status, 200);
    assert_eq!(timed_out.body, b"Execution timeout reached".to_vec());
    assert!(timed_out.headers.is_empty());

    let syntax = native_reply(ExecutionOutcome::Failed(FailureKind::SyntaxError));
    assert_eq!(syntax.body, b"Script failed to compile.".to_vec());

    let none = native_reply(ExecutionOutcome::Failed(FailureKind::NoResponse));
    assert_eq!(none.body, b"Code failed to execute.".to_vec());

    let invalid = native_reply(ExecutionOutcome::Failed(FailureKind::InvalidHeader));
    assert_eq!(invalid.body, b"Invalid header in response.".to_vec());

    let fault = native_reply(ExecutionOutcome::Failed(FailureKind::EngineFault));
    assert_eq!(fault.body, b"Script engine fault.".to_vec());

    let done = native_reply(ExecutionOutcome::Completed(NativeResponse {
        status: 418,
        headers: vec![(b"x-a".to_vec(), b"1".to_vec())],
        body: b"tea".to_vec(),
    }));
    assert_eq!(done.status, 418);
    assert_eq!(done.body, b"tea".to_vec());
}
