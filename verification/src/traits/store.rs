use std::time::Duration;
use vstd::prelude::*;
use vstd::string::*;

use crate::text::concat2;
use crate::traits::error::{duration_debug, duration_debug_text, CapabilityError, ErrorCategory};

verus! {

/// Context store error type.
#[derive(Debug, Clone)]
pub enum StoreError {
    /// The store is unavailable.
    Unavailable { message: String },
    /// Serialization failed.
    SerializationFailed { message: String },
    /// The item already exists.
    Conflict { event_id: String },
    /// The query was invalid.
    InvalidQuery { message: String },
    /// Authentication failed.
    AuthFailed { message: String },
    /// Rate limited; retry after the given delay.
    RateLimited { retry_after: Duration },
    /// The operation timed out.
    Timeout { elapsed: Duration, deadline: Duration },
    /// The item was not found.
    NotFound { message: String },
    /// A store invariant was violated.
    InvariantViolation { message: String },
    /// An internal store error.
    Internal { message: String },
}

/// The message a store error displays.
pub open spec fn store_error_text(e: StoreError) -> Seq<char> {
    match e {
        StoreError::Unavailable { message } => "store unavailable: "@ + message@,
        StoreError::SerializationFailed { message } => "serialization failed: "@ + message@,
        StoreError::Conflict { event_id } => "already exists: "@ + event_id@,
        StoreError::InvalidQuery { message } => "invalid query: "@ + message@,
        StoreError::AuthFailed { message } => "store auth failed: "@ + message@,
        StoreError::RateLimited { retry_after } => "rate limited, retry after "@
            + duration_debug_text(retry_after),
        StoreError::Timeout { elapsed, deadline } => "timed out after "@ + duration_debug_text(
            elapsed,
        ) + " (deadline: "@ + duration_debug_text(deadline) + ")"@,
        StoreError::NotFound { message } => "not found: "@ + message@,
        StoreError::InvariantViolation { message } => "invariant violation: "@ + message@,
        StoreError::Internal { message } => "internal store error: "@ + message@,
    }
}

impl StoreError {
    /// The message its display form shows.
    pub fn to_text(&self) -> (r: String)
        ensures
            r@ == store_error_text(*self),
    {
        match self {
            StoreError::Unavailable { message } => concat2("store unavailable: ", message.as_str()),
            StoreError::SerializationFailed { message } => concat2(
                "serialization failed: ",
                message.as_str(),
            ),
            StoreError::Conflict { event_id } => concat2("already exists: ", event_id.as_str()),
            StoreError::InvalidQuery { message } => concat2("invalid query: ", message.as_str()),
            StoreError::AuthFailed { message } => concat2("store auth failed: ", message.as_str()),
            StoreError::RateLimited { retry_after } => {
                let d = duration_debug(retry_after);
                concat2("rate limited, retry after ", d.as_str())
            },
            StoreError::Timeout { elapsed, deadline } => {
                let e = duration_debug(elapsed);
                let d = duration_debug(deadline);
                let mut s = concat2("timed out after ", e.as_str());
                s.append(" (deadline: ");
                s.append(d.as_str());
                s.append(")");
                s
            },
            StoreError::NotFound { message } => concat2("not found: ", message.as_str()),
            StoreError::InvariantViolation { message } => concat2(
                "invariant violation: ",
                message.as_str(),
            ),
            StoreError::Internal { message } => concat2("internal store error: ", message.as_str()),
        }
    }
}

impl CapabilityError for StoreError {
    fn category(&self) -> (r: ErrorCategory)
        ensures
            r == (match *self {
                StoreError::Unavailable { .. } => ErrorCategory::Unavailable,
                StoreError::SerializationFailed { .. } => ErrorCategory::InvalidInput,
                StoreError::InvalidQuery { .. } => ErrorCategory::InvalidInput,
                StoreError::Conflict { .. } => ErrorCategory::Conflict,
                StoreError::AuthFailed { .. } => ErrorCategory::Auth,
                StoreError::RateLimited { .. } => ErrorCategory::RateLimit,
                StoreError::Timeout { .. } => ErrorCategory::Timeout,
                StoreError::NotFound { .. } => ErrorCategory::NotFound,
                StoreError::InvariantViolation { .. } => ErrorCategory::InvariantViolation,
                StoreError::Internal { .. } => ErrorCategory::Internal,
            }),
    {
        match self {
            StoreError::Unavailable { .. } => ErrorCategory::Unavailable,
            StoreError::SerializationFailed { .. } | StoreError::InvalidQuery { .. } => {
                ErrorCategory::InvalidInput
            },
            StoreError::Conflict { .. } => ErrorCategory::Conflict,
            StoreError::AuthFailed { .. } => ErrorCategory::Auth,
            StoreError::RateLimited { .. } => ErrorCategory::RateLimit,
            StoreError::Timeout { .. } => ErrorCategory::Timeout,
            StoreError::NotFound { .. } => ErrorCategory::NotFound,
            StoreError::InvariantViolation { .. } => ErrorCategory::InvariantViolation,
            StoreError::Internal { .. } => ErrorCategory::Internal,
        }
    }

    fn is_transient(&self) -> (r: bool)
        ensures
            r == (self is Unavailable || self is RateLimited || self is Timeout),
    {
        match self {
            StoreError::Unavailable { .. } | StoreError::RateLimited { .. } | StoreError::Timeout {
                ..
            } => true,
            _ => false,
        }
    }

    fn is_retryable(&self) -> (r: bool)
        ensures
            r == (self is Unavailable || self is RateLimited || self is Timeout || self is Conflict),
    {
        match self {
            StoreError::Unavailable { .. }
            | StoreError::RateLimited { .. }
            | StoreError::Timeout { .. }
            | StoreError::Conflict { .. } => true,
            _ => false,
        }
    }

    fn retry_after(&self) -> (r: Option<Duration>)
        ensures
            r == (match *self {
                StoreError::RateLimited { retry_after } => Some(retry_after),
                _ => None,
            }),
    {
        match self {
            StoreError::RateLimited { retry_after } => Some(*retry_after),
            _ => None,
        }
    }
}

} // verus!
