//! Marshaling of a terminal guest response into a native response: the
//! body placeholder for a missing body, the pull of the `entries()`
//! iterator through to exhaustion, and native syntax validation of every
//! header name and value.
#![allow(unused_imports)]
use vstd::prelude::*;
use crate::headers::{spec_pairs_view, Headers};
use crate::outcome::FailureKind;
use crate::response::GuestResponse;

verus! {

/// The native response contract: a status code, an ordered list of
/// header pairs, and a body byte sequence.
#[derive(Debug, PartialEq, Eq)]
pub struct NativeResponse {
    pub status: u16,
    pub headers: Vec<(Vec<u8>, Vec<u8>)>,
    pub body: Vec<u8>,
}

/// The mathematical model of a native response.
pub struct NativeModel {
    pub status: u16,
    pub headers: Seq<(Seq<u8>, Seq<u8>)>,
    pub body: Seq<u8>,
}

impl View for NativeResponse {
    type V = NativeModel;

    open spec fn view(&self) -> NativeModel {
        NativeModel {
            status: self.status,
            headers: spec_pairs_view(self.headers@),
            body: self.body@,
        }
    }
}

/// A byte the native lower-case header-name table accepts: digits,
/// lower-case letters, and `! " # $ % & ' * + - . ^ _ ` | ~`.
pub open spec fn is_native_name_byte(b: u8) -> bool {
    ||| 97 <= b && b <= 122  // a-z
    ||| 48 <= b && b <= 57  // 0-9
    ||| 33 <= b && b <= 39  // ! " # $ % & '
    ||| b == 42  // *
    ||| b == 43  // +
    ||| b == 45  // -
    ||| b == 46  // .
    ||| 94 <= b && b <= 96  // ^ _ `
    ||| b == 124  // |
    ||| b == 126  // ~
}

/// Native header-name syntax: one to 65535 bytes, all from the table.
pub open spec fn spec_native_name_ok(s: Seq<u8>) -> bool {
    1 <= s.len() <= 65535 && (forall|i: int|
        0 <= i < s.len() ==> is_native_name_byte(#[trigger] s[i]))
}

/// A byte a native header value accepts: tab, or anything that is
/// neither an other control byte nor delete.
pub open spec fn is_native_value_byte(b: u8) -> bool {
    b == 9 || (b >= 32 && b != 127)
}

/// Native header-value syntax.
pub open spec fn spec_native_value_ok(s: Seq<u8>) -> bool {
    forall|i: int| 0 <= i < s.len() ==> is_native_value_byte(#[trigger] s[i])
}

/// Relies on http::header::HeaderName::from_lowercase: it returns Ok
/// exactly for a non-empty name of at most 65535 bytes whose bytes all
/// lie in the crate's lower-case header-name table.
#[verifier::external_body]
fn native_name_ok(name: &Vec<u8>) -> (r: bool)
    ensures
        r == spec_native_name_ok(name@),
{
    http::header::HeaderName::from_lowercase(name.as_slice()).is_ok()
}

/// Relies on http::header::HeaderValue::from_bytes: it returns Ok
/// exactly for a byte string free of control bytes other than tab.
#[verifier::external_body]
fn native_value_ok(value: &Vec<u8>) -> (r: bool)
    ensures
        r == spec_native_value_ok(value@),
{
    http::header::HeaderValue::from_bytes(value.as_slice()).is_ok()
}

/// The placeholder marshaled in place of a missing body: the bytes of
/// `"No response given."`.  A missing `body` field is deliberately not
/// treated as an empty body.
pub open spec fn spec_missing_body() -> Seq<u8> {
    seq![78u8, 111, 32, 114, 101, 115, 112, 111, 110, 115, 101, 32, 103, 105, 118, 101, 110, 46]
}

/// The placeholder body as a value.
pub fn missing_body_text() -> (r: Vec<u8>)
    ensures
        r@ =~= spec_missing_body(),
{
    let mut v: Vec<u8> = Vec::new();
    v.push(78);
    v.push(111);
    v.push(32);
    v.push(114);
    v.push(101);
    v.push(115);
    v.push(112);
    v.push(111);
    v.push(110);
    v.push(115);
    v.push(101);
    v.push(32);
    v.push(103);
    v.push(105);
    v.push(118);
    v.push(101);
    v.push(110);
    v.push(46);
    proof {
        assert(v@ =~= spec_missing_body());
    }
    v
}

/// The body bytes a body model marshals to.
pub open spec fn spec_body_model(body: Option<Seq<u8>>) -> Seq<u8> {
    match body {
        Some(b) => b,
        None => spec_missing_body(),
    }
}

/// The body bytes a guest response marshals to.
pub open spec fn spec_body_bytes(body: Option<Vec<u8>>) -> Seq<u8> {
    match body {
        Some(b) => b@,
        None => spec_missing_body(),
    }
}

/// Whether every header pair of a collection passes native validation.
pub open spec fn spec_headers_marshalable(es: Seq<(Seq<u8>, Seq<u8>)>) -> bool {
    forall|i: int|
        0 <= i < es.len() ==> spec_native_name_ok((#[trigger] es[i]).0) && spec_native_value_ok(
            es[i].1,
        )
}

/// Converts a terminal guest response into a native response.  The body
/// is the guest body, or the placeholder when none was set; the headers
/// are pulled through the `entries()` iterator until it reports done,
/// each name and value validated against native syntax.  The first pair
/// that fails validation fails the whole marshaling step.
pub fn marshal(resp: &GuestResponse) -> (r: Result<NativeResponse, FailureKind>)
    requires
        resp.wf(),
    ensures
        r is Ok <==> spec_headers_marshalable(resp.headers@),
        r matches Ok(nr) ==> ({
            &&& nr.status == resp.status
            &&& nr.body@ =~= spec_body_bytes(resp.body)
            &&& spec_pairs_view(nr.headers@) =~= resp.headers@
        }),
        r is Err ==> r == Result::<NativeResponse, FailureKind>::Err(FailureKind::InvalidHeader),
{
    let body: Vec<u8> = match &resp.body {
        Some(b) => crate::headers::clone_bytes(b),
        None => missing_body_text(),
    };
    let ghost total = resp.headers@;
    let mut it = resp.headers.entries();
    let mut out: Vec<(Vec<u8>, Vec<u8>)> = Vec::new();
    loop
        invariant
            total == resp.headers@,
            it.wf(),
            out@.len() <= total.len(),
            it.remaining() =~= total.skip(out@.len() as int),
            spec_pairs_view(out@) =~= total.take(out@.len() as int),
            forall|i: int|
                0 <= i < out@.len() ==> spec_native_name_ok((#[trigger] total[i]).0)
                    && spec_native_value_ok(total[i].1),
        ensures
            out@.len() == total.len(),
            spec_pairs_view(out@) =~= total,
            spec_headers_marshalable(total),
        decreases it.remaining().len(),
    {
        let step = it.next();
        match step {
            None => {
                proof {
                    assert(total.skip(out@.len() as int).len() == 0);
                    assert(out@.len() == total.len());
                    assert(total.take(out@.len() as int) =~= total);
                }
                break ;
            },
            Some(pair) => {
                proof {
                    let k = out@.len() as int;
                    assert(total.skip(k)[0] == total[k]);
                    assert((pair.0@, pair.1@) == total[k]);
                    assert(pair.0@ == total[k].0 && pair.1@ == total[k].1);
                }
                if !native_name_ok(&pair.0) || !native_value_ok(&pair.1) {
                    proof {
                        let k = out@.len() as int;
                        assert(!(spec_native_name_ok(total[k].0) && spec_native_value_ok(
                            total[k].1,
                        )));
                        assert(!spec_headers_marshalable(total));
                    }
                    return Err(FailureKind::InvalidHeader);
                }
                out.push(pair);
                proof {
                    assert(spec_pairs_view(out@) =~= total.take(out@.len() as int));
                    assert(it.remaining() =~= total.skip(out@.len() as int));
                }
            },
        }
    }
    Ok(NativeResponse { status: resp.status, headers: out, body })
}

} // verus!
