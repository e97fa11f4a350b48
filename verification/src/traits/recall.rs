use std::time::Duration;
use vstd::prelude::*;
use vstd::string::*;

use crate::text::{concat2, decimal, push_decimal};
use crate::traits::error::{duration_debug, duration_debug_text, CapabilityError, ErrorCategory};

verus! {

/// Recall capability error type.
#[derive(Debug, Clone)]
pub enum RecallError {
    /// The recall index is unavailable.
    IndexUnavailable { message: String },
    /// The query embedding has the wrong dimension.
    DimensionMismatch { expected: usize, got: usize },
    /// Computing an embedding failed.
    EmbeddingFailed { message: String, transient: bool },
    /// The query was invalid.
    InvalidQuery { message: String },
    /// Authentication failed.
    AuthFailed { message: String },
    /// Rate limited; retry after the given delay.
    RateLimited { retry_after: Duration },
    /// The operation timed out.
    Timeout { elapsed: Duration, deadline: Duration },
    /// The record was not found.
    NotFound { id: String },
    /// An internal recall error.
    Internal { message: String },
}

/// The message a recall error displays.
pub open spec fn recall_error_text(e: RecallError) -> Seq<char> {
    match e {
        RecallError::IndexUnavailable { message } => "recall index unavailable: "@ + message@,
        RecallError::DimensionMismatch { expected, got } => "dimension mismatch: expected "@
            + decimal(expected as nat) + " dimensions, got "@ + decimal(got as nat),
        RecallError::EmbeddingFailed { message, .. } => "embedding failed: "@ + message@,
        RecallError::InvalidQuery { message } => "invalid recall query: "@ + message@,
        RecallError::AuthFailed { message } => "recall auth failed: "@ + message@,
        RecallError::RateLimited { retry_after } => "rate limited, retry after "@
            + duration_debug_text(retry_after),
        RecallError::Timeout { elapsed, deadline } => "recall operation timed out after "@
            + duration_debug_text(elapsed) + " (deadline: "@ + duration_debug_text(deadline) + ")"@,
        RecallError::NotFound { id } => "recall record not found: "@ + id@,
        RecallError::Internal { message } => "internal recall error: "@ + message@,
    }
}

impl RecallError {
    /// The message its display form shows.
    pub fn to_text(&self) -> (r: String)
        ensures
            r@ == recall_error_text(*self),
    {
        match self {
            RecallError::IndexUnavailable { message } => concat2(
                "recall index unavailable: ",
                message.as_str(),
            ),
            RecallError::DimensionMismatch { expected, got } => {
                let mut s = String::new();
                s.append("dimension mismatch: expected ");
                push_decimal(&mut s, *expected as u64);
                s.append(" dimensions, got ");
                push_decimal(&mut s, *got as u64);
                s
            },
            RecallError::EmbeddingFailed { message, .. } => concat2(
                "embedding failed: ",
                message.as_str(),
            ),
            RecallError::InvalidQuery { message } => concat2(
                "invalid recall query: ",
                message.as_str(),
            ),
            RecallError::AuthFailed { message } => concat2("recall auth failed: ", message.as_str()),
            RecallError::RateLimited { retry_after } => {
                let d = duration_debug(retry_after);
                concat2("rate limited, retry after ", d.as_str())
            },
            RecallError::Timeout { elapsed, deadline } => {
                let e = duration_debug(elapsed);
                let d = duration_debug(deadline);
                let mut s = concat2("recall operation timed out after ", e.as_str());
                s.append(" (deadline: ");
                s.append(d.as_str());
                s.append(")");
                s
            },
            RecallError::NotFound { id } => concat2("recall record not found: ", id.as_str()),
            RecallError::Internal { message } => concat2(
                "internal recall error: ",
                message.as_str(),
            ),
        }
    }
}

impl CapabilityError for RecallError {
    fn category(&self) -> (r: ErrorCategory)
        ensures
            r == (match *self {
                RecallError::IndexUnavailable { .. } => ErrorCategory::Unavailable,
                RecallError::DimensionMismatch { .. } => ErrorCategory::InvalidInput,
                RecallError::EmbeddingFailed { .. } => ErrorCategory::Internal,
                RecallError::InvalidQuery { .. } => ErrorCategory::InvalidInput,
                RecallError::AuthFailed { .. } => ErrorCategory::Auth,
                RecallError::RateLimited { .. } => ErrorCategory::RateLimit,
                RecallError::Timeout { .. } => ErrorCategory::Timeout,
                RecallError::NotFound { .. } => ErrorCategory::NotFound,
                RecallError::Internal { .. } => ErrorCategory::Internal,
            }),
    {
        match self {
            RecallError::IndexUnavailable { .. } => ErrorCategory::Unavailable,
            RecallError::DimensionMismatch { .. } => ErrorCategory::InvalidInput,
            RecallError::EmbeddingFailed { .. } => ErrorCategory::Internal,
            RecallError::InvalidQuery { .. } => ErrorCategory::InvalidInput,
            RecallError::AuthFailed { .. } => ErrorCategory::Auth,
            RecallError::RateLimited { .. } => ErrorCategory::RateLimit,
            RecallError::Timeout { .. } => ErrorCategory::Timeout,
            RecallError::NotFound { .. } => ErrorCategory::NotFound,
            RecallError::Internal { .. } => ErrorCategory::Internal,
        }
    }

    fn is_transient(&self) -> (r: bool)
        ensures
            r == (match *self {
                RecallError::IndexUnavailable { .. } => true,
                RecallError::EmbeddingFailed { transient, .. } => transient,
                RecallError::RateLimited { .. } => true,
                RecallError::Timeout { .. } => true,
                _ => false,
            }),
    {
        match self {
            RecallError::IndexUnavailable { .. } => true,
            RecallError::DimensionMismatch { .. } => false,
            RecallError::EmbeddingFailed { transient, .. } => *transient,
            RecallError::InvalidQuery { .. } => false,
            RecallError::AuthFailed { .. } => false,
            RecallError::RateLimited { .. } => true,
            RecallError::Timeout { .. } => true,
            RecallError::NotFound { .. } => false,
            RecallError::Internal { .. } => false,
        }
    }

    fn is_retryable(&self) -> (r: bool)
        ensures
            r == (match *self {
                RecallError::IndexUnavailable { .. } => true,
                RecallError::EmbeddingFailed { transient, .. } => transient,
                RecallError::RateLimited { .. } => true,
                RecallError::Timeout { .. } => true,
                _ => false,
            }),
    {
        self.is_transient()
    }

    fn retry_after(&self) -> (r: Option<Duration>)
        ensures
            r == (match *self {
                RecallError::RateLimited { retry_after } => Some(retry_after),
                _ => None,
            }),
    {
        match self {
            RecallError::RateLimited { retry_after } => Some(*retry_after),
            _ => None,
        }
    }
}

/// Metadata of a recall record.
#[derive(Debug, Clone, Default)]
pub struct RecallRecordMetadata {
    pub source_type: Option<String>,
    pub source_chain_id: Option<String>,
    pub tenant_id: Option<String>,
    pub created_at: Option<String>,
}

} // verus!
