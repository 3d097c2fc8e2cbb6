//! A minimal edge-worker runtime bridge: an inbound request snapshot
//! triggers one isolated guest execution whose registered `fetch` handler
//! eventually yields a response, which is marshaled back into a native
//! response under a one-shot, deadline-bounded handoff.
#![allow(unused_imports)]

pub mod headers;
pub mod request;
pub mod response;
pub mod marshal;
pub mod outcome;
pub mod handoff;
pub mod resolver;
pub mod engine;
