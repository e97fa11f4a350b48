use converge_core::ids::ObservationId;
use converge_core::traits::error::{CapabilityError, ErrorCategory};
use converge_core::traits::llm::LlmError;
use converge_core::traits::promoter::{PromoterError, PromotionContext};
use converge_core::traits::recall::{RecallError, RecallRecordMetadata};
use converge_core::traits::store::StoreError;
use converge_core::traits::validator::ValidatorError;
use converge_core::types::{Actor, EvidenceRef, LocalTrace, TraceLink};
use std::time::Duration;

struct TestError {
    cat: ErrorCategory,
    transient: bool,
}

impl CapabilityError for TestError {
    fn category(&self) -> ErrorCategory {
        self.cat
    }
    fn is_transient(&self) -> bool {
        self.transient
    }
    fn is_retryable(&self) -> bool {
        self.transient
    }
    fn retry_after(&self) -> Option<Duration> {
        if self.cat == ErrorCategory::RateLimit {
            Some(Duration::from_secs(5))
        } else {
            None
        }
    }
}

#[test]
fn error_category_display() {
    assert_eq!(ErrorCategory::Timeout.to_text(), "timeout");
    assert_eq!(ErrorCategory::RateLimit.to_text(), "rate_limit");
    assert_eq!(ErrorCategory::Auth.to_text(), "auth");
    assert_eq!(ErrorCategory::InvalidInput.to_text(), "invalid_input");
    assert_eq!(ErrorCategory::NotFound.to_text(), "not_found");
    assert_eq!(ErrorCategory::Conflict.to_text(), "conflict");
    assert_eq!(ErrorCategory::Unavailable.to_text(), "unavailable");
    assert_eq!(
        ErrorCategory::InvariantViolation.to_text(),
        "invariant_violation"
    );
    assert_eq!(ErrorCategory::Internal.to_text(), "internal");
}

#[test]
fn error_category_equality() {
    assert_eq!(ErrorCategory::Timeout, ErrorCategory::Timeout);
    assert_ne!(ErrorCategory::Timeout, ErrorCategory::RateLimit);
}

#[test]
fn capability_error_trait_implementation() {
    let err = TestError {
        cat: ErrorCategory::RateLimit,
        transient: true,
    };
    assert_eq!(err.category(), ErrorCategory::RateLimit);
    assert!(err.is_transient());
    assert!(err.is_retryable());
    assert_eq!(err.retry_after(), Some(Duration::from_secs(5)));
}

#[test]
fn non_transient_error_not_retryable() {
    let err = TestError {
        cat: ErrorCategory::InvalidInput,
        transient: false,
    };
    assert!(!err.is_transient());
    assert!(!err.is_retryable());
    assert!(err.retry_after().is_none());
}

// ---------------------------------------------------------------- recall

#[test]
fn recall_error_display() {
    let err = RecallError::DimensionMismatch {
        expected: 1536,
        got: 768,
    };
    assert!(err.to_text().contains("1536"));
    assert!(err.to_text().contains("768"));
}

#[test]
fn recall_error_category_classification() {
    assert_eq!(
        RecallError::IndexUnavailable {
            message: "test".to_string()
        }
        .category(),
        ErrorCategory::Unavailable
    );
    assert_eq!(
        RecallError::DimensionMismatch {
            expected: 1536,
            got: 768
        }
        .category(),
        ErrorCategory::InvalidInput
    );
    assert_eq!(
        RecallError::AuthFailed {
            message: "test".to_string()
        }
        .category(),
        ErrorCategory::Auth
    );
    assert_eq!(
        RecallError::RateLimited {
            retry_after: Duration::from_secs(60)
        }
        .category(),
        ErrorCategory::RateLimit
    );
}

#[test]
fn recall_error_transient_classification() {
    assert!(RecallError::IndexUnavailable {
        message: "test".to_string()
    }
    .is_transient());
    assert!(RecallError::RateLimited {
        retry_after: Duration::from_secs(60)
    }
    .is_transient());
    assert!(RecallError::Timeout {
        elapsed: Duration::from_secs(30),
        deadline: Duration::from_secs(30),
    }
    .is_transient());

    assert!(!RecallError::DimensionMismatch {
        expected: 1536,
        got: 768
    }
    .is_transient());
    assert!(!RecallError::AuthFailed {
        message: "test".to_string()
    }
    .is_transient());
    assert!(!RecallError::NotFound {
        id: "test".to_string()
    }
    .is_transient());
}

#[test]
fn recall_error_retry_after() {
    let err = RecallError::RateLimited {
        retry_after: Duration::from_secs(60),
    };
    assert_eq!(err.retry_after(), Some(Duration::from_secs(60)));

    let err2 = RecallError::IndexUnavailable {
        message: "test".to_string(),
    };
    assert_eq!(err2.retry_after(), None);
}

#[test]
fn recall_record_metadata_default() {
    let meta = RecallRecordMetadata::default();
    assert!(meta.source_type.is_none());
    assert!(meta.tenant_id.is_none());
}

// ---------------------------------------------------------------- store

#[test]
fn store_error_display() {
    let err = StoreError::Conflict {
        event_id: "evt-123".to_string(),
    };
    assert!(err.to_text().contains("evt-123"));
}

#[test]
fn store_error_category_classification() {
    assert_eq!(
        StoreError::Unavailable {
            message: "test".to_string()
        }
        .category(),
        ErrorCategory::Unavailable
    );
    assert_eq!(
        StoreError::Conflict {
            event_id: "test".to_string()
        }
        .category(),
        ErrorCategory::Conflict
    );
}

#[test]
fn store_error_transient_classification() {
    assert!(StoreError::Unavailable {
        message: "test".to_string()
    }
    .is_transient());
    assert!(!StoreError::Conflict {
        event_id: "test".to_string()
    }
    .is_transient());
}

#[test]
fn store_error_retryable_classification() {
    assert!(StoreError::Unavailable {
        message: "test".to_string()
    }
    .is_retryable());
    assert!(!StoreError::AuthFailed {
        message: "test".to_string()
    }
    .is_retryable());
}

#[test]
fn store_error_retry_after() {
    let err = StoreError::RateLimited {
        retry_after: Duration::from_secs(60),
    };
    assert_eq!(err.retry_after(), Some(Duration::from_secs(60)));
}

// ---------------------------------------------------------------- promoter

fn sample_actor() -> Actor {
    Actor::human("karl")
}

fn sample_trace() -> TraceLink {
    TraceLink::local(LocalTrace::new("trace-1", "span-1"))
}

#[test]
fn display_report_mismatch() {
    let e = PromoterError::ReportMismatch {
        expected: "p-1".into(),
        actual: "p-2".into(),
    };
    let s = e.to_text();
    assert!(s.contains("p-1"));
    assert!(s.contains("p-2"));
}

#[test]
fn display_unauthorized() {
    let e = PromoterError::Unauthorized {
        actor: "bot-7".into(),
        reason: "no promote scope".into(),
    };
    let s = e.to_text();
    assert!(s.contains("bot-7"));
    assert!(s.contains("no promote scope"));
}

#[test]
fn display_already_promoted() {
    let e = PromoterError::AlreadyPromoted {
        proposal_id: "p-1".into(),
        fact_id: "f-1".into(),
    };
    let s = e.to_text();
    assert!(s.contains("p-1"));
    assert!(s.contains("f-1"));
}

#[test]
fn promoter_display_unavailable() {
    let e = PromoterError::Unavailable {
        message: "service down".into(),
    };
    assert!(e.to_text().contains("service down"));
}

#[test]
fn promoter_display_timeout() {
    let e = PromoterError::Timeout {
        elapsed: Duration::from_millis(500),
        deadline: Duration::from_millis(200),
    };
    let s = e.to_text();
    assert!(s.contains("500ms"));
    assert!(s.contains("200ms"));
}

#[test]
fn display_storage_error() {
    let e = PromoterError::StorageError {
        message: "write failed".into(),
    };
    assert!(e.to_text().contains("write failed"));
}

#[test]
fn promoter_display_internal() {
    let e = PromoterError::Internal {
        message: "bug".into(),
    };
    assert!(e.to_text().contains("bug"));
}

#[test]
fn category_report_mismatch_is_invalid_input() {
    let e = PromoterError::ReportMismatch {
        expected: "x".into(),
        actual: "y".into(),
    };
    assert_eq!(e.category(), ErrorCategory::InvalidInput);
    assert!(!e.is_transient());
    assert!(!e.is_retryable());
}

#[test]
fn category_unauthorized_is_auth() {
    let e = PromoterError::Unauthorized {
        actor: "x".into(),
        reason: "y".into(),
    };
    assert_eq!(e.category(), ErrorCategory::Auth);
    assert!(!e.is_transient());
    assert!(!e.is_retryable());
}

#[test]
fn category_already_promoted_is_conflict() {
    let e = PromoterError::AlreadyPromoted {
        proposal_id: "p".into(),
        fact_id: "f".into(),
    };
    assert_eq!(e.category(), ErrorCategory::Conflict);
    assert!(!e.is_transient());
    assert!(!e.is_retryable());
}

#[test]
fn promoter_category_unavailable_is_transient_and_retryable() {
    let e = PromoterError::Unavailable {
        message: "x".into(),
    };
    assert_eq!(e.category(), ErrorCategory::Unavailable);
    assert!(e.is_transient());
    assert!(e.is_retryable());
}

#[test]
fn promoter_category_timeout_is_transient_and_retryable() {
    let e = PromoterError::Timeout {
        elapsed: Duration::from_secs(1),
        deadline: Duration::from_secs(1),
    };
    assert_eq!(e.category(), ErrorCategory::Timeout);
    assert!(e.is_transient());
    assert!(e.is_retryable());
}

#[test]
fn category_storage_error_is_internal_transient_retryable() {
    let e = PromoterError::StorageError {
        message: "x".into(),
    };
    assert_eq!(e.category(), ErrorCategory::Internal);
    assert!(e.is_transient());
    assert!(e.is_retryable());
}

#[test]
fn category_internal_is_retryable_not_transient() {
    let e = PromoterError::Internal {
        message: "x".into(),
    };
    assert_eq!(e.category(), ErrorCategory::Internal);
    assert!(!e.is_transient());
    assert!(e.is_retryable());
}

#[test]
fn promoter_retry_after_always_none() {
    let errors: Vec<PromoterError> = vec![
        PromoterError::Unavailable {
            message: "x".into(),
        },
        PromoterError::Timeout {
            elapsed: Duration::from_secs(1),
            deadline: Duration::from_secs(1),
        },
        PromoterError::Internal {
            message: "x".into(),
        },
    ];
    for e in &errors {
        assert!(e.retry_after().is_none());
    }
}

#[test]
fn promotion_context_new_has_no_evidence() {
    let ctx = PromotionContext::new(sample_actor(), sample_trace());
    assert!(ctx.evidence.is_empty());
}

#[test]
fn promotion_context_with_evidence() {
    let evidence = vec![
        EvidenceRef::observation(ObservationId::new("obs-1")),
        EvidenceRef::human_approval("approval-1".into()),
    ];
    let ctx = PromotionContext::new(sample_actor(), sample_trace()).with_evidence(evidence);
    assert_eq!(ctx.evidence.len(), 2);
}

#[test]
fn promotion_context_with_evidence_ref() {
    let ctx = PromotionContext::new(sample_actor(), sample_trace())
        .with_evidence_ref(EvidenceRef::observation(ObservationId::new("obs-1")))
        .with_evidence_ref(EvidenceRef::derived("art-1".into()));
    assert_eq!(ctx.evidence.len(), 2);
}

#[test]
fn promoter_error_is_std_error() {
    let e = PromoterError::Internal {
        message: "test".into(),
    };
    assert!(e.to_text().contains("test"));
}

// ---------------------------------------------------------------- validator

#[test]
fn display_check_failed() {
    let e = ValidatorError::CheckFailed {
        check_name: "schema".into(),
        reason: "missing required field".into(),
    };
    let s = e.to_text();
    assert!(s.contains("schema"));
    assert!(s.contains("missing required field"));
}

#[test]
fn display_policy_violation() {
    let e = ValidatorError::PolicyViolation {
        policy: "no-pii".into(),
        message: "SSN detected".into(),
    };
    let s = e.to_text();
    assert!(s.contains("no-pii"));
    assert!(s.contains("SSN detected"));
}

#[test]
fn display_missing_evidence() {
    let e = ValidatorError::MissingEvidence {
        expected: "receipt attachment".into(),
    };
    assert!(e.to_text().contains("receipt attachment"));
}

#[test]
fn validator_display_unavailable() {
    let e = ValidatorError::Unavailable {
        message: "connection refused".into(),
    };
    assert!(e.to_text().contains("connection refused"));
}

#[test]
fn validator_display_timeout() {
    let e = ValidatorError::Timeout {
        elapsed: Duration::from_secs(5),
        deadline: Duration::from_secs(3),
    };
    let s = e.to_text();
    assert!(s.contains("5s"));
    assert!(s.contains("3s"));
}

#[test]
fn validator_display_internal() {
    let e = ValidatorError::Internal {
        message: "null pointer".into(),
    };
    assert!(e.to_text().contains("null pointer"));
}

#[test]
fn category_check_failed_is_invalid_input() {
    let e = ValidatorError::CheckFailed {
        check_name: "x".into(),
        reason: "y".into(),
    };
    assert_eq!(e.category(), ErrorCategory::InvalidInput);
    assert!(!e.is_transient());
    assert!(!e.is_retryable());
}

#[test]
fn category_policy_violation_is_invalid_input() {
    let e = ValidatorError::PolicyViolation {
        policy: "x".into(),
        message: "y".into(),
    };
    assert_eq!(e.category(), ErrorCategory::InvalidInput);
    assert!(!e.is_transient());
}

#[test]
fn category_missing_evidence_is_invalid_input() {
    let e = ValidatorError::MissingEvidence {
        expected: "x".into(),
    };
    assert_eq!(e.category(), ErrorCategory::InvalidInput);
}

#[test]
fn validator_category_unavailable_is_transient_and_retryable() {
    let e = ValidatorError::Unavailable {
        message: "down".into(),
    };
    assert_eq!(e.category(), ErrorCategory::Unavailable);
    assert!(e.is_transient());
    assert!(e.is_retryable());
}

#[test]
fn validator_category_timeout_is_transient_and_retryable() {
    let e = ValidatorError::Timeout {
        elapsed: Duration::from_secs(1),
        deadline: Duration::from_secs(1),
    };
    assert_eq!(e.category(), ErrorCategory::Timeout);
    assert!(e.is_transient());
    assert!(e.is_retryable());
}

#[test]
fn category_internal_is_retryable_but_not_transient() {
    let e = ValidatorError::Internal {
        message: "oom".into(),
    };
    assert_eq!(e.category(), ErrorCategory::Internal);
    assert!(!e.is_transient());
    assert!(e.is_retryable());
}

#[test]
fn validator_retry_after_always_none() {
    let errors: Vec<ValidatorError> = vec![
        ValidatorError::CheckFailed {
            check_name: "x".into(),
            reason: "y".into(),
        },
        ValidatorError::Unavailable {
            message: "x".into(),
        },
        ValidatorError::Timeout {
            elapsed: Duration::from_secs(1),
            deadline: Duration::from_secs(1),
        },
    ];
    for e in &errors {
        assert!(e.retry_after().is_none());
    }
}

#[test]
fn validator_error_is_std_error() {
    let e = ValidatorError::Internal {
        message: "test".into(),
    };
    assert!(e.to_text().contains("test"));
}

#[test]
fn test_exact_error_texts() {
    let e = ValidatorError::Timeout {
        elapsed: Duration::from_secs(5),
        deadline: Duration::from_secs(3),
    };
    assert_eq!(e.to_text(), "validation timeout after 5s (deadline: 3s)");
    let s = StoreError::Conflict {
        event_id: "evt-1".into(),
    };
    assert_eq!(s.to_text(), "already exists: evt-1");
}

#[test]
fn test_llm_error_classification() {
    let rl = LlmError::RateLimited {
        retry_after: Duration::from_secs(7),
    };
    assert_eq!(rl.category(), ErrorCategory::RateLimit);
    assert!(rl.is_transient() && rl.is_retryable());
    assert_eq!(rl.retry_after(), Some(Duration::from_secs(7)));
    let provider = LlmError::ProviderError {
        message: "500".into(),
    };
    assert_eq!(provider.category(), ErrorCategory::Internal);
    assert!(!provider.is_transient());
    assert!(provider.is_retryable());
    assert!(provider.retry_after().is_none());
    let net = LlmError::NetworkError {
        message: "reset".into(),
    };
    assert_eq!(net.category(), ErrorCategory::Unavailable);
    assert!(net.is_transient());
    let filtered = LlmError::ContentFiltered {
        message: "x".into(),
    };
    assert_eq!(filtered.category(), ErrorCategory::InvalidInput);
    assert!(!filtered.is_retryable());
}
