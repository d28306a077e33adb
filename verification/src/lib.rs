//! Core logic of a sidecar proxy that governs AI traffic.
//!
//! Every request is classified against a policy set and routed down one of
//! three paths: forwarded directly, suspended until a human approval verdict
//! arrives, or rejected. The modules here hold the decision logic of that
//! lifecycle: the policy data model and evaluator, the token-bucket rate
//! limiter fronting the approval channel, the deadline tracking for streamed
//! response bodies, the bounded byte-level peeking used on the forward path,
//! the approval-ticket state machine, and the error taxonomy surfaced to
//! clients.
//!
//! All time-dependent operations take the current time as an argument, in
//! milliseconds; the surrounding runtime reads the clock, performs the I/O
//! and drives these state machines.

pub mod approval;
pub mod engine;
pub mod errors;
pub mod peek;
pub mod policy;
pub mod policy_data;
pub mod rate_limiter;
pub mod service;
pub mod timeout;
