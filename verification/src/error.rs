//! The error taxonomy of the storage core.
//!
//! Every repository operation surfaces three error classes: a backend
//! (transport or service-side) failure, a serialization failure (a stored
//! item does not match the expected record shape), and a conditional-check
//! failure (the exists / not-exists precondition of a conditional write did
//! not hold). Only the last one carries operation-specific semantics and is
//! matched on by callers; the other two are propagated for logging and retry
//! at a higher layer. A profile that is absent on a plain read is not an
//! error: reads return an explicit absent value instead.

use vstd::prelude::*;

verus! {

/// A typed failure from the storage core.
#[derive(Debug, PartialEq, Eq)]
pub enum UserError {
    /// Transport, throttling, or service-side failure from the backend
    /// store; the cause is kept as text for logging only.
    Backend(String),
    /// A stored item did not decode into the expected record shape, or a
    /// record could not be encoded; the offending field is named.
    Serialization(String),
    /// The precondition of a conditional write (exists / not-exists) did
    /// not hold at execution time.
    ConditionalCheckFailed,
    /// A caller-level "this user has no profile" failure, carrying the
    /// user id; produced by layers above the repository.
    ProfileNotFound(String),
}

impl UserError {
    /// Whether this is the benign precondition-failure class that idempotent
    /// callers treat as a duplicate rather than a hard error.
    pub fn is_conditional_check(&self) -> (r: bool)
        ensures
            r == (*self is ConditionalCheckFailed),
    {
        matches!(self, UserError::ConditionalCheckFailed)
    }
}

} // verus!
