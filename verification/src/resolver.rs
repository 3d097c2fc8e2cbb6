//! The promise continuation resolver: a handler's return value is
//! unwrapped transitively — a thenable settling to another thenable
//! continues the same resolution — until a terminal value, a missing
//! value, or no settlement before the deadline.
#![allow(unused_imports)]
use vstd::prelude::*;
use crate::response::GuestResponse;

verus! {

/// A handler's return value as the resolver sees it.
pub enum HandlerValue {
    /// Nothing usable: the handler returned undefined or threw.
    Missing,
    /// A terminal plain object, taken as the guest response.
    Terminal(GuestResponse),
    /// A thenable whose continuation hands over the inner value on a
    /// later turn of the guest microtask queue.
    Thenable(Box<HandlerValue>),
    /// A thenable that never settles.
    NeverSettles,
}

/// What a chain settles to once every thenable layer is unwrapped.
pub enum SettledValue {
    /// The handler produced no usable value.
    NoValue,
    /// The terminal guest response.
    Value(GuestResponse),
}

/// What resolution yields before the deadline: `None` when the chain
/// never settles, so only the deadline can end the wait.
pub open spec fn spec_settle(v: HandlerValue) -> Option<SettledValue>
    decreases v,
{
    match v {
        HandlerValue::Missing => Some(SettledValue::NoValue),
        HandlerValue::Terminal(r) => Some(SettledValue::Value(r)),
        HandlerValue::Thenable(inner) => spec_settle(*inner),
        HandlerValue::NeverSettles => None,
    }
}

/// The non-thenable value a chain reaches, thenable layers stripped.
pub open spec fn spec_strip(v: HandlerValue) -> HandlerValue
    decreases v,
{
    match v {
        HandlerValue::Thenable(inner) => spec_strip(*inner),
        _ => v,
    }
}

/// Executable resolver: re-enters the same resolution on each thenable's
/// continuation value until a non-thenable value or no settlement.
pub fn resolve(v: HandlerValue) -> (r: Option<SettledValue>)
    ensures
        r == spec_settle(v),
    decreases v,
{
    match v {
        HandlerValue::Missing => Some(SettledValue::NoValue),
        HandlerValue::Terminal(resp) => Some(SettledValue::Value(resp)),
        HandlerValue::Thenable(inner) => resolve(*inner),
        HandlerValue::NeverSettles => None,
    }
}

/// Promise unwrap: one thenable layer around a value settles exactly as
/// the value itself, so a handler returning a resolved promise of a
/// response ends as if it had returned the response directly.
pub proof fn lemma_promise_unwrap(w: HandlerValue, v: HandlerValue)
    requires
        w matches HandlerValue::Thenable(inner) && *inner == v,
    ensures
        spec_settle(w) == spec_settle(v),
{
}

/// Chained deferral: any chain of thenables settles exactly as the
/// non-thenable value it finally reaches; no intermediate thenable is
/// ever taken for the terminal value.
pub proof fn lemma_chain_unwrap(v: HandlerValue)
    ensures
        spec_settle(v) == spec_settle(spec_strip(v)),
        !(spec_strip(v) is Thenable),
    decreases v,
{
    match v {
        HandlerValue::Thenable(inner) => {
            lemma_chain_unwrap(*inner);
        },
        _ => {},
    }
}

} // verus!
