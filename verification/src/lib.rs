//! A bounded pool of expensive, stateful compute resources, shared by many
//! concurrent callers.
//!
//! The pool lends out exclusively owned handles, constructs resources lazily
//! up to a fixed capacity, and queues callers first-in-first-out when the pool
//! is exhausted. A per-request coordinator state machine enforces the release
//! discipline: every handle lent to a computation is returned to the pool,
//! whether the computation succeeds or fails.

pub mod coordinator;
pub mod pool;
pub mod response;

use vstd::prelude::*;

verus! {

/// The error categories a request can surface to its caller.
#[derive(Clone, Copy, PartialEq, Eq, Structural, Debug)]
pub enum ServiceError {
    /// The resource factory could not produce a resource instance.
    ConstructionFailed,
    /// The computation over an acquired resource returned an error or faulted.
    ComputationFailed,
    /// Encoding the response failed after a successful computation.
    SerializationFailed,
}

} // verus!
