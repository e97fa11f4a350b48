use std::time::Duration;
use vstd::prelude::*;

use crate::traits::error::{CapabilityError, ErrorCategory};

verus! {

/// A request for embeddings of some texts.
#[derive(Debug, Clone)]
pub struct EmbedRequest {
    /// The texts to embed.
    pub inputs: Vec<String>,
    /// The model to use, if not the default.
    pub model: Option<String>,
    /// The number of dimensions wanted, if not the default.
    pub dimensions: Option<u32>,
}

/// An error of a language-model backend, with what its classification reads: the kind
/// of failure, and the suggested delay of a rate limit.
#[derive(Debug, Clone)]
pub enum LlmError {
    /// Too many requests; retry after the given delay.
    RateLimited { retry_after: Duration },
    /// The request timed out.
    Timeout { message: String },
    /// Credentials were refused.
    AuthDenied { message: String },
    /// The request was malformed.
    InvalidRequest { message: String },
    /// The model does not exist.
    ModelNotFound { message: String },
    /// The prompt does not fit the model's context.
    ContextLengthExceeded { message: String },
    /// The provider filtered the content.
    ContentFiltered { message: String },
    /// The answer did not have the requested format.
    ResponseFormatMismatch { message: String },
    /// The provider failed.
    ProviderError { message: String },
    /// The network failed.
    NetworkError { message: String },
}

impl CapabilityError for LlmError {
    fn category(&self) -> (r: ErrorCategory)
        ensures
            r == (match *self {
                LlmError::RateLimited { .. } => ErrorCategory::RateLimit,
                LlmError::Timeout { .. } => ErrorCategory::Timeout,
                LlmError::AuthDenied { .. } => ErrorCategory::Auth,
                LlmError::InvalidRequest { .. } => ErrorCategory::InvalidInput,
                LlmError::ModelNotFound { .. } => ErrorCategory::NotFound,
                LlmError::ContextLengthExceeded { .. } => ErrorCategory::InvalidInput,
                LlmError::ContentFiltered { .. } => ErrorCategory::InvalidInput,
                LlmError::ResponseFormatMismatch { .. } => ErrorCategory::Internal,
                LlmError::ProviderError { .. } => ErrorCategory::Internal,
                LlmError::NetworkError { .. } => ErrorCategory::Unavailable,
            }),
    {
        match self {
            LlmError::RateLimited { .. } => ErrorCategory::RateLimit,
            LlmError::Timeout { .. } => ErrorCategory::Timeout,
            LlmError::AuthDenied { .. } => ErrorCategory::Auth,
            LlmError::InvalidRequest { .. } => ErrorCategory::InvalidInput,
            LlmError::ModelNotFound { .. } => ErrorCategory::NotFound,
            LlmError::ContextLengthExceeded { .. } => ErrorCategory::InvalidInput,
            LlmError::ContentFiltered { .. } => ErrorCategory::InvalidInput,
            LlmError::ResponseFormatMismatch { .. } => ErrorCategory::Internal,
            LlmError::ProviderError { .. } => ErrorCategory::Internal,
            LlmError::NetworkError { .. } => ErrorCategory::Unavailable,
        }
    }

    fn is_transient(&self) -> (r: bool)
        ensures
            r == (*self is RateLimited || *self is Timeout || *self is NetworkError),
    {
        match self {
            LlmError::RateLimited { .. } | LlmError::Timeout { .. } | LlmError::NetworkError { .. } => true,
            _ => false,
        }
    }

    fn is_retryable(&self) -> (r: bool)
        ensures
            r == (*self is RateLimited || *self is Timeout || *self is NetworkError || *self is ProviderError),
    {
        self.is_transient() || match self {
            LlmError::ProviderError { .. } => true,
            _ => false,
        }
    }

    fn retry_after(&self) -> (r: Option<Duration>)
        ensures
            r == (match *self {
                LlmError::RateLimited { retry_after } => Some(retry_after),
                _ => None,
            }),
    {
        match self {
            LlmError::RateLimited { retry_after } => Some(*retry_after),
            _ => None,
        }
    }
}

} // verus!
