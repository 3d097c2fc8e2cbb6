//! The one-shot handoff cell that carries the execution outcome from the
//! script-execution call stack to the waiting native handler, and the
//! deadline governor around the handler's single timed receive.
#![allow(unused_imports)]
use vstd::prelude::*;
use crate::outcome::ExecutionOutcome;

verus! {

/// One-shot cell: `Pending` accepts exactly one outcome; every later
/// write is a safe no-op; consuming the cell is final.
pub struct Handoff {
    pub slot: Option<ExecutionOutcome>,
    pub consumed: bool,
}

impl Handoff {
    /// Still waiting for its one outcome.
    pub open spec fn is_pending(&self) -> bool {
        self.slot is None && !self.consumed
    }

    /// What one write does to the cell: it deposits the outcome when the
    /// cell still waits, and changes nothing otherwise.
    pub open spec fn spec_offer(self, outcome: ExecutionOutcome) -> Handoff {
        if self.is_pending() {
            (Handoff { slot: Some(outcome), consumed: self.consumed })
        } else {
            self
        }
    }

    /// A fresh, pending cell.
    pub fn new() -> (h: Handoff)
        ensures
            h.is_pending(),
    {
        Handoff { slot: None, consumed: false }
    }

    /// One write from the execution side.  A write to a cell that was
    /// already settled or consumed is a safe no-op, never a fault, as a
    /// late continuation firing after the deadline requires.
    pub fn offer(&mut self, outcome: ExecutionOutcome) -> (accepted: bool)
        ensures
            accepted == old(self).is_pending(),
            *final(self) == old(self).spec_offer(outcome),
    {
        if self.slot.is_none() && !self.consumed {
            self.slot = Some(outcome);
            true
        } else {
            false
        }
    }

    /// The native handler's single receive: it consumes the cell and
    /// yields the deposited outcome, or nothing when the cell is still
    /// empty at the deadline.
    pub fn take(&mut self) -> (r: Option<ExecutionOutcome>)
        ensures
            r == old(self).slot,
            final(self).slot is None,
            final(self).consumed,
    {
        self.consumed = true;
        self.slot.take()
    }
}

/// The timeout governor's verdict on what the timed receive yielded: the
/// outcome that crossed the handoff, or `TimedOut` when the deadline
/// passed with none.
pub fn conclude(received: Option<ExecutionOutcome>) -> (r: ExecutionOutcome)
    ensures
        received matches Some(o) ==> r == o,
        received is None ==> r is TimedOut,
{
    match received {
        Some(o) => o,
        None => ExecutionOutcome::TimedOut,
    }
}

/// Exactly-once delivery: once a first outcome is deposited, a second
/// write changes nothing, and the single receive yields the first
/// outcome; after the receive, any further write meets a consumed cell
/// and is refused.
pub proof fn lemma_handoff_exactly_once(
    h: Handoff,
    first: ExecutionOutcome,
    second: ExecutionOutcome,
)
    requires
        h.is_pending(),
    ensures
        h.spec_offer(first).spec_offer(second) == h.spec_offer(first),
        h.spec_offer(first).slot == Some(first),
        !(Handoff { slot: None, consumed: true }).spec_offer(second).is_pending(),
{
}

} // verus!
