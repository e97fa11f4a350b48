use std::time::Duration;
use vstd::prelude::*;
use vstd::string::*;

use crate::text::{concat2, concat3};
use crate::traits::error::{duration_debug, duration_debug_text, CapabilityError, ErrorCategory};
use crate::types::{Draft, Proposal};
use crate::validation::{ValidationPolicy, ValidationReport};

verus! {

/// Validator error type.
#[derive(Debug, Clone)]
pub enum ValidatorError {
    /// A validation check failed.
    CheckFailed { check_name: String, reason: String },
    /// A policy was violated.
    PolicyViolation { policy: String, message: String },
    /// Required evidence is missing.
    MissingEvidence { expected: String },
    /// The validator is unavailable.
    Unavailable { message: String },
    /// The validation timed out.
    Timeout { elapsed: Duration, deadline: Duration },
    /// An internal validator error.
    Internal { message: String },
}

/// The message a validator error displays.
pub open spec fn validator_error_text(e: ValidatorError) -> Seq<char> {
    match e {
        ValidatorError::CheckFailed { check_name, reason } => "validation check '"@ + check_name@
            + "' failed: "@ + reason@,
        ValidatorError::PolicyViolation { policy, message } => "policy '"@ + policy@
            + "' violated: "@ + message@,
        ValidatorError::MissingEvidence { expected } => "missing required evidence: "@ + expected@,
        ValidatorError::Unavailable { message } => "validator unavailable: "@ + message@,
        ValidatorError::Timeout { elapsed, deadline } => "validation timeout after "@
            + duration_debug_text(elapsed) + " (deadline: "@ + duration_debug_text(deadline) + ")"@,
        ValidatorError::Internal { message } => "internal validator error: "@ + message@,
    }
}

impl ValidatorError {
    /// The message its display form shows.
    pub fn to_text(&self) -> (r: String)
        ensures
            r@ == validator_error_text(*self),
    {
        match self {
            ValidatorError::CheckFailed { check_name, reason } => {
                let mut s = concat3("validation check '", check_name.as_str(), "' failed: ");
                s.append(reason.as_str());
                s
            },
            ValidatorError::PolicyViolation { policy, message } => {
                let mut s = concat3("policy '", policy.as_str(), "' violated: ");
                s.append(message.as_str());
                s
            },
            ValidatorError::MissingEvidence { expected } => concat2(
                "missing required evidence: ",
                expected.as_str(),
            ),
            ValidatorError::Unavailable { message } => concat2(
                "validator unavailable: ",
                message.as_str(),
            ),
            ValidatorError::Timeout { elapsed, deadline } => {
                let e = duration_debug(elapsed);
                let d = duration_debug(deadline);
                let mut s = concat3("validation timeout after ", e.as_str(), " (deadline: ");
                s.append(d.as_str());
                s.append(")");
                s
            },
            ValidatorError::Internal { message } => concat2(
                "internal validator error: ",
                message.as_str(),
            ),
        }
    }
}

impl CapabilityError for ValidatorError {
    fn category(&self) -> (r: ErrorCategory)
        ensures
            r == (match *self {
                ValidatorError::CheckFailed { .. } => ErrorCategory::InvalidInput,
                ValidatorError::PolicyViolation { .. } => ErrorCategory::InvalidInput,
                ValidatorError::MissingEvidence { .. } => ErrorCategory::InvalidInput,
                ValidatorError::Unavailable { .. } => ErrorCategory::Unavailable,
                ValidatorError::Timeout { .. } => ErrorCategory::Timeout,
                ValidatorError::Internal { .. } => ErrorCategory::Internal,
            }),
    {
        match self {
            ValidatorError::CheckFailed { .. } => ErrorCategory::InvalidInput,
            ValidatorError::PolicyViolation { .. } => ErrorCategory::InvalidInput,
            ValidatorError::MissingEvidence { .. } => ErrorCategory::InvalidInput,
            ValidatorError::Unavailable { .. } => ErrorCategory::Unavailable,
            ValidatorError::Timeout { .. } => ErrorCategory::Timeout,
            ValidatorError::Internal { .. } => ErrorCategory::Internal,
        }
    }

    fn is_transient(&self) -> (r: bool)
        ensures
            r == (self is Unavailable || self is Timeout),
    {
        match self {
            ValidatorError::Unavailable { .. } | ValidatorError::Timeout { .. } => true,
            _ => false,
        }
    }

    fn is_retryable(&self) -> (r: bool)
        ensures
            r == (self is Unavailable || self is Timeout || self is Internal),
    {
        self.is_transient() || (match self {
            ValidatorError::Internal { .. } => true,
            _ => false,
        })
    }

    fn retry_after(&self) -> (r: Option<Duration>)
        ensures
            r is None,
    {
        None
    }
}


/// Validates draft proposals against a policy; implemented by validation backends.
pub trait Validator {
    /// Validates a draft proposal, producing the report that proves it was checked.
    fn validate(&self, proposal: &Proposal<Draft>, policy: &ValidationPolicy) -> Result<ValidationReport, ValidatorError>;
}

/// The object-safe form of [`Validator`], for collections of validators.
pub trait DynValidator {
    /// Validates a draft proposal, producing the report that proves it was checked.
    fn validate(&self, proposal: &Proposal<Draft>, policy: &ValidationPolicy) -> Result<ValidationReport, ValidatorError>;
}

impl<T: Validator> DynValidator for T {
    fn validate(&self, proposal: &Proposal<Draft>, policy: &ValidationPolicy) -> Result<ValidationReport, ValidatorError> {
        Validator::validate(self, proposal, policy)
    }
}

} // verus!
