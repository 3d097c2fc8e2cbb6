//! The immutable request snapshot captured once per inbound request, and
//! the ephemeral fetch event built from it for one dispatch.
#![allow(unused_imports)]
use vstd::prelude::*;
use crate::headers::clone_bytes;

verus! {

/// Protocol version of the inbound request.
#[derive(Clone, Copy, Debug, PartialEq, Eq, Structural)]
pub enum HttpVersion {
    Http09,
    Http10,
    Http11,
    Http2,
    Http3,
}

/// Immutable value captured before guest execution begins.  The guest
/// observes this snapshot, never the live native request, so its view of
/// the request stays consistent for the whole execution.
pub struct RequestSnapshot {
    pub method: Vec<u8>,
    pub path: Vec<u8>,
    pub version: HttpVersion,
    pub headers: Vec<(Vec<u8>, Vec<u8>)>,
    pub body: Option<Vec<u8>>,
}

/// The event handed to the registered listener: its type tag is always
/// `fetch`, and its request view exposes the snapshot's path as `url`.
/// It is built once per dispatch and not retained afterwards.
pub struct FetchEvent {
    pub event_type: Vec<u8>,
    pub url: Vec<u8>,
}

/// The one recognized event type: the bytes of `"fetch"`.
pub open spec fn spec_fetch_type() -> Seq<u8> {
    seq![102u8, 101, 116, 99, 104]
}

/// The `"fetch"` event-type bytes as a value.
pub fn fetch_type() -> (r: Vec<u8>)
    ensures
        r@ =~= spec_fetch_type(),
{
    let mut v: Vec<u8> = Vec::new();
    v.push(102);
    v.push(101);
    v.push(116);
    v.push(99);
    v.push(104);
    proof {
        assert(v@ =~= spec_fetch_type());
    }
    v
}

/// Whether a registration names the `fetch` event.
pub fn is_fetch_type(t: &Vec<u8>) -> (r: bool)
    ensures
        r == (t@ == spec_fetch_type()),
{
    let f = fetch_type();
    let r = crate::headers::bytes_eq(t, &f);
    proof {
        if t@ == f@ {
            assert(t@ == spec_fetch_type());
        }
    }
    r
}

/// Builds the event object for one dispatch of the snapshot.
pub fn make_fetch_event(request: &RequestSnapshot) -> (ev: FetchEvent)
    ensures
        ev.event_type@ =~= spec_fetch_type(),
        ev.url@ =~= request.path@,
{
    FetchEvent { event_type: fetch_type(), url: clone_bytes(&request.path) }
}

} // verus!
