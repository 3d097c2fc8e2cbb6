//! The tri-state outcome of one request's execution, the failure
//! taxonomy, and the fixed fallback replies of the native layer.
#![allow(unused_imports)]
use vstd::prelude::*;
use crate::marshal::NativeResponse;

verus! {

/// Why an execution produced no completed response.
#[derive(Clone, Copy, Debug, PartialEq, Eq, Structural)]
pub enum FailureKind {
    /// The script failed to parse or compile.
    SyntaxError,
    /// The handler produced no usable value, or no listener was
    /// registered at all.
    NoResponse,
    /// A header name or value failed native syntax validation while the
    /// response was marshaled.
    InvalidHeader,
    /// A lower-level fault of the embedded script engine.
    EngineFault,
}

/// Exactly one of these crosses the handoff per request.
#[derive(Debug, PartialEq, Eq)]
pub enum ExecutionOutcome {
    Completed(NativeResponse),
    TimedOut,
    Failed(FailureKind),
}

/// The mathematical model of an execution outcome.
pub enum OutcomeModel {
    Completed(crate::marshal::NativeModel),
    TimedOut,
    Failed(FailureKind),
}

impl View for ExecutionOutcome {
    type V = OutcomeModel;

    open spec fn view(&self) -> OutcomeModel {
        match self {
            ExecutionOutcome::Completed(nr) => OutcomeModel::Completed(nr@),
            ExecutionOutcome::TimedOut => OutcomeModel::TimedOut,
            ExecutionOutcome::Failed(k) => OutcomeModel::Failed(*k),
        }
    }
}

/// The fixed fallback body sent when the deadline passes: the bytes of
/// `"Execution timeout reached"`.
pub open spec fn spec_timeout_body() -> Seq<u8> {
    seq![69u8, 120, 101, 99, 117, 116, 105, 111, 110, 32, 116, 105, 109, 101, 111, 117, 116, 32, 114, 101, 97, 99, 104, 101, 100]
}

/// The diagnostic body of a failed execution, by kind.
pub open spec fn spec_failure_body(kind: FailureKind) -> Seq<u8> {
    match kind {
        FailureKind::SyntaxError => seq![83u8, 99, 114, 105, 112, 116, 32, 102, 97, 105, 108, 101, 100, 32, 116, 111, 32, 99, 111, 109, 112, 105, 108, 101, 46],
        FailureKind::NoResponse => seq![67u8, 111, 100, 101, 32, 102, 97, 105, 108, 101, 100, 32, 116, 111, 32, 101, 120, 101, 99, 117, 116, 101, 46],
        FailureKind::InvalidHeader => seq![73u8, 110, 118, 97, 108, 105, 100, 32, 104, 101, 97, 100, 101, 114, 32, 105, 110, 32, 114, 101, 115, 112, 111, 110, 115, 101, 46],
        FailureKind::EngineFault => seq![83u8, 99, 114, 105, 112, 116, 32, 101, 110, 103, 105, 110, 101, 32, 102, 97, 117, 108, 116, 46],
    }
}

/// The timeout fallback body as a value.
pub fn timeout_body() -> (r: Vec<u8>)
    ensures
        r@ =~= spec_timeout_body(),
{
    let mut v: Vec<u8> = Vec::new();
    v.push(69);
    v.push(120);
    v.push(101);
    v.push(99);
    v.push(117);
    v.push(116);
    v.push(105);
    v.push(111);
    v.push(110);
    v.push(32);
    v.push(116);
    v.push(105);
    v.push(109);
    v.push(101);
    v.push(111);
    v.push(117);
    v.push(116);
    v.push(32);
    v.push(114);
    v.push(101);
    v.push(97);
    v.push(99);
    v.push(104);
    v.push(101);
    v.push(100);
    proof {
        assert(v@ =~= spec_timeout_body());
    }
    v
}

/// The diagnostic body of a failure kind as a value.
pub fn failure_body(kind: FailureKind) -> (r: Vec<u8>)
    ensures
        r@ =~= spec_failure_body(kind),
{
    let mut v: Vec<u8> = Vec::new();
    match kind {
        FailureKind::SyntaxError => {
            v.push(83);
            v.push(99);
            v.push(114);
            v.push(105);
            v.push(112);
            v.push(116);
            v.push(32);
            v.push(102);
            v.push(97);
            v.push(105);
            v.push(108);
            v.push(101);
            v.push(100);
            v.push(32);
            v.push(116);
            v.push(111);
            v.push(32);
            v.push(99);
            v.push(111);
            v.push(109);
            v.push(112);
            v.push(105);
            v.push(108);
            v.push(101);
            v.push(46);
        },
        FailureKind::NoResponse => {
            v.push(67);
            v.push(111);
            v.push(100);
            v.push(101);
            v.push(32);
            v.push(102);
            v.push(97);
            v.push(105);
            v.push(108);
            v.push(101);
            v.push(100);
            v.push(32);
            v.push(116);
            v.push(111);
            v.push(32);
            v.push(101);
            v.push(120);
            v.push(101);
            v.push(99);
            v.push(117);
            v.push(116);
            v.push(101);
            v.push(46);
        },
        FailureKind::InvalidHeader => {
            v.push(73);
            v.push(110);
            v.push(118);
            v.push(97);
            v.push(108);
            v.push(105);
            v.push(100);
            v.push(32);
            v.push(104);
            v.push(101);
            v.push(97);
            v.push(100);
            v.push(101);
            v.push(114);
            v.push(32);
            v.push(105);
            v.push(110);
            v.push(32);
            v.push(114);
            v.push(101);
            v.push(115);
            v.push(112);
            v.push(111);
            v.push(110);
            v.push(115);
            v.push(101);
            v.push(46);
        },
        FailureKind::EngineFault => {
            v.push(83);
            v.push(99);
            v.push(114);
            v.push(105);
            v.push(112);
            v.push(116);
            v.push(32);
            v.push(101);
            v.push(110);
            v.push(103);
            v.push(105);
            v.push(110);
            v.push(101);
            v.push(32);
            v.push(102);
            v.push(97);
            v.push(117);
            v.push(108);
            v.push(116);
            v.push(46);
        },
    }
    proof {
        assert(v@ =~= spec_failure_body(kind));
    }
    v
}

/// The native reply owed to an outcome: a completed response stands as
/// it is; a timeout or failure degrades to a fixed diagnostic body under
/// a success status, never to a hung or reset connection.
pub open spec fn spec_reply(o: OutcomeModel) -> crate::marshal::NativeModel {
    match o {
        OutcomeModel::Completed(nm) => nm,
        OutcomeModel::TimedOut => (crate::marshal::NativeModel {
            status: 200,
            headers: Seq::empty(),
            body: spec_timeout_body(),
        }),
        OutcomeModel::Failed(k) => (crate::marshal::NativeModel {
            status: 200,
            headers: Seq::empty(),
            body: spec_failure_body(k),
        }),
    }
}

/// Builds the native layer's reply for an outcome.
pub fn native_reply(outcome: ExecutionOutcome) -> (r: NativeResponse)
    ensures
        r@ == spec_reply(outcome@),
{
    match outcome {
        ExecutionOutcome::Completed(nr) => nr,
        ExecutionOutcome::TimedOut => {
            let r = NativeResponse { status: 200, headers: Vec::new(), body: timeout_body() };
            proof {
                assert(crate::headers::spec_pairs_view(r.headers@) =~= Seq::<(
                    Seq<u8>,
                    Seq<u8>,
                )>::empty());
            }
            r
        },
        ExecutionOutcome::Failed(k) => {
            let r = NativeResponse { status: 200, headers: Vec::new(), body: failure_body(k) };
            proof {
                assert(crate::headers::spec_pairs_view(r.headers@) =~= Seq::<(
                    Seq<u8>,
                    Seq<u8>,
                )>::empty());
            }
            r
        },
    }
}

} // verus!
