use std::time::Duration;
use vstd::prelude::*;
use vstd::string::*;

use crate::text::{concat2, concat3};
use crate::traits::error::{duration_debug, duration_debug_text, CapabilityError, ErrorCategory};
use crate::types::{Actor, EvidenceRef, Fact, Proposal, TraceLink, Validated};
use crate::validation::ValidationReport;

verus! {

/// Who promotes, with which evidence and trace.
#[derive(Debug, Clone)]
pub struct PromotionContext {
    /// The approving actor.
    pub approver: Actor,
    /// Evidence supporting the promotion.
    pub evidence: Vec<EvidenceRef>,
    /// Trace link for audit.
    pub trace: TraceLink,
}

impl PromotionContext {
    /// A promotion context without evidence.
    pub fn new(approver: Actor, trace: TraceLink) -> (r: Self)
        ensures
            r.approver == approver,
            r.evidence@.len() == 0,
            r.trace == trace,
    {
        PromotionContext { approver, evidence: Vec::new(), trace }
    }

    /// Replaces the evidence.
    pub fn with_evidence(self, evidence: Vec<EvidenceRef>) -> (r: Self)
        ensures
            r == (PromotionContext { evidence, ..self }),
    {
        PromotionContext { evidence, ..self }
    }

    /// Adds one evidence reference at the end.
    pub fn with_evidence_ref(self, evidence: EvidenceRef) -> (r: Self)
        ensures
            r.evidence@ == self.evidence@.push(evidence),
            r.approver == self.approver,
            r.trace == self.trace,
    {
        let mut all = self.evidence;
        all.push(evidence);
        PromotionContext { evidence: all, approver: self.approver, trace: self.trace }
    }
}

/// Error type for promotion operations.
#[derive(Debug, Clone)]
pub enum PromoterError {
    /// The validation report belongs to another proposal.
    ReportMismatch { expected: String, actual: String },
    /// The actor may not promote.
    Unauthorized { actor: String, reason: String },
    /// The proposal was promoted already.
    AlreadyPromoted { proposal_id: String, fact_id: String },
    /// The promoter is unavailable.
    Unavailable { message: String },
    /// The promotion timed out.
    Timeout { elapsed: Duration, deadline: Duration },
    /// Storing the fact failed.
    StorageError { message: String },
    /// An internal promoter error.
    Internal { message: String },
}

/// The message a promoter error displays.
pub open spec fn promoter_error_text(e: PromoterError) -> Seq<char> {
    match e {
        PromoterError::ReportMismatch { expected, actual } => "validation report mismatch: expected proposal '"@
            + expected@ + "', got '"@ + actual@ + "'"@,
        PromoterError::Unauthorized { actor, reason } => "actor '"@ + actor@ + "' not authorized: "@
            + reason@,
        PromoterError::AlreadyPromoted { proposal_id, fact_id } => "proposal '"@ + proposal_id@
            + "' already promoted to fact '"@ + fact_id@ + "'"@,
        PromoterError::Unavailable { message } => "promoter unavailable: "@ + message@,
        PromoterError::Timeout { elapsed, deadline } => "promotion timeout after "@
            + duration_debug_text(elapsed) + " (deadline: "@ + duration_debug_text(deadline) + ")"@,
        PromoterError::StorageError { message } => "storage error: "@ + message@,
        PromoterError::Internal { message } => "internal promoter error: "@ + message@,
    }
}

impl PromoterError {
    /// The message its display form shows.
    pub fn to_text(&self) -> (r: String)
        ensures
            r@ == promoter_error_text(*self),
    {
        match self {
            PromoterError::ReportMismatch { expected, actual } => {
                let mut s = concat3(
                    "validation report mismatch: expected proposal '",
                    expected.as_str(),
                    "', got '",
                );
                s.append(actual.as_str());
                s.append("'");
                s
            },
            PromoterError::Unauthorized { actor, reason } => {
                let mut s = concat3("actor '", actor.as_str(), "' not authorized: ");
                s.append(reason.as_str());
                s
            },
            PromoterError::AlreadyPromoted { proposal_id, fact_id } => {
                let mut s = concat3("proposal '", proposal_id.as_str(), "' already promoted to fact '");
                s.append(fact_id.as_str());
                s.append("'");
                s
            },
            PromoterError::Unavailable { message } => concat2("promoter unavailable: ", message.as_str()),
            PromoterError::Timeout { elapsed, deadline } => {
                let e = duration_debug(elapsed);
                let d = duration_debug(deadline);
                let mut s = concat3("promotion timeout after ", e.as_str(), " (deadline: ");
                s.append(d.as_str());
                s.append(")");
                s
            },
            PromoterError::StorageError { message } => concat2("storage error: ", message.as_str()),
            PromoterError::Internal { message } => concat2("internal promoter error: ", message.as_str()),
        }
    }
}

impl CapabilityError for PromoterError {
    fn category(&self) -> (r: ErrorCategory)
        ensures
            r == (match *self {
                PromoterError::ReportMismatch { .. } => ErrorCategory::InvalidInput,
                PromoterError::Unauthorized { .. } => ErrorCategory::Auth,
                PromoterError::AlreadyPromoted { .. } => ErrorCategory::Conflict,
                PromoterError::Unavailable { .. } => ErrorCategory::Unavailable,
                PromoterError::Timeout { .. } => ErrorCategory::Timeout,
                PromoterError::StorageError { .. } => ErrorCategory::Internal,
                PromoterError::Internal { .. } => ErrorCategory::Internal,
            }),
    {
        match self {
            PromoterError::ReportMismatch { .. } => ErrorCategory::InvalidInput,
            PromoterError::Unauthorized { .. } => ErrorCategory::Auth,
            PromoterError::AlreadyPromoted { .. } => ErrorCategory::Conflict,
            PromoterError::Unavailable { .. } => ErrorCategory::Unavailable,
            PromoterError::Timeout { .. } => ErrorCategory::Timeout,
            PromoterError::StorageError { .. } => ErrorCategory::Internal,
            PromoterError::Internal { .. } => ErrorCategory::Internal,
        }
    }

    fn is_transient(&self) -> (r: bool)
        ensures
            r == (self is Unavailable || self is Timeout || self is StorageError),
    {
        match self {
            PromoterError::Unavailable { .. } | PromoterError::Timeout { .. } | PromoterError::StorageError {
                ..
            } => true,
            _ => false,
        }
    }

    fn is_retryable(&self) -> (r: bool)
        ensures
            r == (self is Unavailable || self is Timeout || self is StorageError || self is Internal),
    {
        self.is_transient() || (match self {
            PromoterError::Internal { .. } => true,
            _ => false,
        })
    }

    fn retry_after(&self) -> (r: Option<Duration>)
        ensures
            r is None,
    {
        None
    }
}

/// Promotes validated proposals into facts; implemented by promotion backends.
pub trait Promoter {
    /// Promotes a validated proposal, given its validation report and the promotion context.
    fn promote(
        &self,
        proposal: Proposal<Validated>,
        report: &ValidationReport,
        context: &PromotionContext,
    ) -> Result<Fact, PromoterError>;
}

/// The object-safe form of [`Promoter`], for collections of promoters.
pub trait DynPromoter {
    /// Promotes a validated proposal, given its validation report and the promotion context.
    fn promote(
        &self,
        proposal: Proposal<Validated>,
        report: &ValidationReport,
        context: &PromotionContext,
    ) -> Result<Fact, PromoterError>;
}

impl<T: Promoter> DynPromoter for T {
    fn promote(
        &self,
        proposal: Proposal<Validated>,
        report: &ValidationReport,
        context: &PromotionContext,
    ) -> Result<Fact, PromoterError> {
        Promoter::promote(self, proposal, report, context)
    }
}

} // verus!
