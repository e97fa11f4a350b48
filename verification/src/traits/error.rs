use std::time::Duration;
use vstd::prelude::*;

verus! {

/// Classification of error conditions for generic handling.
#[derive(Debug, Clone, Copy, PartialEq, Eq, Hash, Structural)]
pub enum ErrorCategory {
    /// Operation exceeded time limit.
    Timeout,
    /// Too many requests, backoff required.
    RateLimit,
    /// Authentication or authorization failure.
    Auth,
    /// Bad request parameters.
    InvalidInput,
    /// Requested resource doesn't exist.
    NotFound,
    /// Resource state conflict.
    Conflict,
    /// Service temporarily unavailable.
    Unavailable,
    /// System invariant broken.
    InvariantViolation,
    /// Unexpected internal error.
    Internal,
}

/// The snake-case name of a category, as its display form shows it.
pub open spec fn category_text(c: ErrorCategory) -> Seq<char> {
    match c {
        ErrorCategory::Timeout => "timeout"@,
        ErrorCategory::RateLimit => "rate_limit"@,
        ErrorCategory::Auth => "auth"@,
        ErrorCategory::InvalidInput => "invalid_input"@,
        ErrorCategory::NotFound => "not_found"@,
        ErrorCategory::Conflict => "conflict"@,
        ErrorCategory::Unavailable => "unavailable"@,
        ErrorCategory::InvariantViolation => "invariant_violation"@,
        ErrorCategory::Internal => "internal"@,
    }
}

impl ErrorCategory {
    /// The snake-case name of the category.
    pub fn to_text(self) -> (r: &'static str)
        ensures
            r@ == category_text(self),
    {
        match self {
            ErrorCategory::Timeout => "timeout",
            ErrorCategory::RateLimit => "rate_limit",
            ErrorCategory::Auth => "auth",
            ErrorCategory::InvalidInput => "invalid_input",
            ErrorCategory::NotFound => "not_found",
            ErrorCategory::Conflict => "conflict",
            ErrorCategory::Unavailable => "unavailable",
            ErrorCategory::InvariantViolation => "invariant_violation",
            ErrorCategory::Internal => "internal",
        }
    }
}

/// Shared classification interface for capability errors.
pub trait CapabilityError {
    /// Returns the category of this error for generic handling.
    fn category(&self) -> ErrorCategory;

    /// Whether the underlying condition may clear without changing the request.
    fn is_transient(&self) -> bool;

    /// Whether retrying the operation makes sense given typical idempotency.
    fn is_retryable(&self) -> bool;

    /// The suggested delay before retrying, if known.
    fn retry_after(&self) -> Option<Duration>;
}

/// Trusted: `Clone` of `std::time::Duration`, a `Copy` type, gives back the same duration.
pub assume_specification[ <Duration as Clone>::clone ](d: &Duration) -> (r: Duration)
    ensures
        r == *d,
;

/// The debug rendering of a duration, as `std` formats it.
pub uninterp spec fn duration_debug_text(d: Duration) -> Seq<char>;

/// Trusted: the `Debug` formatting of `std::time::Duration` (such as `500ms` or `5s`).
/// Claims only that the text is a function of the duration alone.
#[verifier::external_body]
pub(crate) fn duration_debug(d: &Duration) -> (r: String)
    ensures
        r@ == duration_debug_text(*d),
{
    format!("{:?}", d)
}

} // verus!
