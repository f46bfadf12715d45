//! The error and outcome taxonomy of the layer, and the uniform
//! classification of backend store replies into request outcomes.
//!
//! A store-reported type mismatch is deliberately classified as `NotFound`
//! rather than as a fault: the layer treats a value that cannot be read the
//! way the operation asked (including the backend's nil for an absent key,
//! which its client reports the same way under a string read) as absence,
//! not as corruption. Every other store-reported failure is a `StoreError`
//! carrying the backend's detail text; a connection that could not be
//! acquired at all is `BackendUnavailable`.

use vstd::prelude::*;

verus! {

/// A failure reported by the backend store for one GET or SET.
#[derive(Debug, PartialEq, Eq)]
pub enum StoreFailure {
    /// The key's current value cannot be read the way the operation asked.
    /// The backend reports an absent value read as a string the same way.
    WrongType,
    /// Any other store-reported failure, with the backend's detail text.
    Other(String),
}

/// The classified result of one store operation, handed to the caller.
#[derive(Debug, PartialEq, Eq)]
pub enum Outcome {
    /// The operation succeeded; the value is the stored value (GET) or the
    /// store's own acknowledgment (SET).
    Success(String),
    /// The key is absent, or its value could not be read as asked.
    NotFound,
    /// No usable connection to the routed instance could be acquired.
    BackendUnavailable,
    /// An unexpected store-reported fault, with its detail text.
    StoreError(String),
}

/// A fatal startup-time error: the process must not begin serving.
#[derive(Debug, Clone, Copy, PartialEq, Eq)]
pub enum StartupError {
    /// The backend configuration is missing or malformed.
    ConfigurationError,
    /// Health probing left no usable instance (or, in cluster mode, failed).
    ProbeFailure,
}

/// How a store reply must be classified: success keeps the value, a type
/// mismatch becomes `NotFound`, anything else becomes `StoreError` with the
/// backend's detail text.
pub open spec fn classified(reply: Result<String, StoreFailure>, outcome: Outcome) -> bool {
    match reply {
        Ok(value) => outcome matches Outcome::Success(v) && v@ == value@,
        Err(StoreFailure::WrongType) => outcome is NotFound,
        Err(StoreFailure::Other(detail)) => outcome matches Outcome::StoreError(d) && d@
            == detail@,
    }
}

/// Holds exactly when `outcome` is `Success` carrying the value `value`.
pub open spec fn outcome_is_success_with(outcome: Outcome, value: Seq<char>) -> bool {
    outcome matches Outcome::Success(v) && v@ == value
}

/// Classifies one store reply into the outcome handed to the caller.
pub fn classify_store_reply(reply: Result<String, StoreFailure>) -> (outcome: Outcome)
    ensures
        classified(reply, outcome),
{
    match reply {
        Ok(value) => Outcome::Success(value),
        Err(StoreFailure::WrongType) => Outcome::NotFound,
        Err(StoreFailure::Other(detail)) => Outcome::StoreError(detail),
    }
}

} // verus!
