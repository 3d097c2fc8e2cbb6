//! The guest-visible response value and its constructor semantics: the
//! defaults, the derived `ok` flag, and the header collection built from
//! the constructor's init list.
#![allow(unused_imports)]
use vstd::prelude::*;
use crate::headers::{
    clone_bytes, spec_headers_of, spec_name_ok, spec_pairs_view, HeaderError, Headers,
};

verus! {

/// Options accepted by the guest `Response` constructor.  An absent
/// field takes its documented default.
pub struct ResponseOptions {
    pub status: Option<u16>,
    pub status_text: Option<Vec<u8>>,
    pub url: Option<Vec<u8>>,
    pub headers: Vec<(Vec<u8>, Vec<u8>)>,
}

impl ResponseOptions {
    /// Options with every field left to its default.
    pub fn empty() -> (r: ResponseOptions)
        ensures
            r.status is None,
            r.status_text is None,
            r.url is None,
            r.headers@.len() == 0,
    {
        ResponseOptions { status: None, status_text: None, url: None, headers: Vec::new() }
    }
}

/// The guest response value.  `body` keeps the constructor argument as
/// given: a missing body is remembered as missing, and only the
/// marshaling step substitutes the placeholder text.
pub struct GuestResponse {
    pub body: Option<Vec<u8>>,
    pub status: u16,
    pub status_text: Vec<u8>,
    pub url: Vec<u8>,
    pub headers: Headers,
}

/// The mathematical model of a guest response: its fields as byte
/// sequences, with a missing body kept distinct from an empty one.
pub struct ResponseModel {
    pub body: Option<Seq<u8>>,
    pub status: u16,
    pub status_text: Seq<u8>,
    pub url: Seq<u8>,
    pub headers: Seq<(Seq<u8>, Seq<u8>)>,
}

impl View for GuestResponse {
    type V = ResponseModel;

    open spec fn view(&self) -> ResponseModel {
        ResponseModel {
            body: match self.body {
                Some(b) => Some(b@),
                None => None,
            },
            status: self.status,
            status_text: self.status_text@,
            url: self.url@,
            headers: self.headers@,
        }
    }
}

/// The default status of a constructed response.
pub open spec fn spec_default_status() -> u16 {
    200
}

impl GuestResponse {
    /// The response is sound once its header collection is.
    pub open spec fn wf(&self) -> bool {
        self.headers.wf()
    }

    /// The derived `ok` flag: a status in the successful range.
    pub open spec fn spec_ok(&self) -> bool {
        200 <= self.status < 300
    }

    /// Reads the derived `ok` flag.
    pub fn ok(&self) -> (r: bool)
        ensures
            r == self.spec_ok(),
    {
        200 <= self.status && self.status < 300
    }

    /// The guest `Response` constructor: the status defaults to 200, the
    /// status text and url to empty, and the header collection is built
    /// from the init list pair by pair.  A malformed header name refuses
    /// the construction, as the guest constructor throws.
    pub fn new(body: Option<Vec<u8>>, options: &ResponseOptions) -> (r: Result<
        GuestResponse,
        HeaderError,
    >)
        ensures
            r is Ok <==> (forall|k: int|
                0 <= k < options.headers@.len() ==> spec_name_ok(
                    (#[trigger] options.headers@[k]).0@,
                )),
            r matches Ok(resp) ==> ({
                &&& resp.wf()
                &&& resp.body == body
                &&& resp.status == (if options.status is Some {
                    options.status->0
                } else {
                    spec_default_status()
                })
                &&& resp.status_text@ =~= (if options.status_text is Some {
                    options.status_text->0@
                } else {
                    Seq::<u8>::empty()
                })
                &&& resp.url@ =~= (if options.url is Some {
                    options.url->0@
                } else {
                    Seq::<u8>::empty()
                })
                &&& resp.headers@ =~= spec_headers_of(spec_pairs_view(options.headers@))
            }),
            r is Err ==> r == Result::<GuestResponse, HeaderError>::Err(HeaderError::InvalidName),
    {
        let headers = match Headers::from_init(&options.headers) {
            Ok(h) => h,
            Err(e) => {
                return Err(e);
            },
        };
        let status: u16 = match &options.status {
            Some(s) => *s,
            None => 200,
        };
        let status_text: Vec<u8> = match &options.status_text {
            Some(t) => clone_bytes(t),
            None => Vec::new(),
        };
        let url: Vec<u8> = match &options.url {
            Some(u) => clone_bytes(u),
            None => Vec::new(),
        };
        Ok(GuestResponse { body, status, status_text, url, headers })
    }
}

} // verus!
