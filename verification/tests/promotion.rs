use converge_core::ids::{GateId, ObservationId, ProposalId};
use converge_core::integrity::ContentHash;
use converge_core::promotion::{PromotionGate, ProposalLifecycle, SimpleIntent};
use converge_core::types::{
    Actor, CaptureContext, Draft, EvidenceRef, FactContentKind, LocalTrace,
    ObservationProvenance, Proposal, ProposedContent, ProposedContentKind, TraceLink,
};
use converge_core::validation::{ValidationContext, ValidationError, ValidationPolicy};

fn make_draft_proposal(id: &str, content: &str) -> Proposal<Draft> {
    Proposal::new(
        ProposalId::new(id),
        ProposedContent::new(ProposedContentKind::Claim, content),
        ObservationProvenance::new(
            ObservationId::new("obs-001"),
            ContentHash::zero(),
            CaptureContext::default(),
        ),
    )
}

#[test]
fn gate_creation() {
    let gate = PromotionGate::new(
        GateId::new("test-gate"),
        ValidationPolicy::new().with_required_check("schema_valid"),
    );

    assert_eq!(gate.gate_id().as_str(), "test-gate");
}

#[test]
fn successful_validation() {
    let gate = PromotionGate::new(GateId::new("test-gate"), ValidationPolicy::new());
    let proposal = make_draft_proposal("prop-001", "This is a valid claim");
    let context = ValidationContext::new();

    let validated = gate.validate_proposal(proposal, &context).unwrap();

    assert_eq!(validated.id().as_str(), "prop-001");
    assert!(validated.report().all_passed());
}

#[test]
fn failed_validation_empty_content() {
    let gate = PromotionGate::new(GateId::new("test-gate"), ValidationPolicy::new());
    let proposal = make_draft_proposal("prop-002", "");
    let context = ValidationContext::new();

    let result = gate.validate_proposal(proposal, &context);

    assert!(result.is_err());
    match result {
        Err(ValidationError::CheckFailed { name, .. }) => {
            assert!(name.contains("content_not_empty"));
        }
        _ => panic!("expected CheckFailed error"),
    }
}

#[test]
fn successful_promotion() {
    let gate = PromotionGate::new(GateId::new("test-gate"), ValidationPolicy::new());
    let proposal = make_draft_proposal("prop-003", "Valid claim");
    let context = ValidationContext::new();

    let validated = gate.validate_proposal(proposal, &context).unwrap();

    let fact = gate
        .promote_to_fact(
            validated,
            Actor::system("test-engine"),
            vec![EvidenceRef::observation(ObservationId::new("obs-001"))],
            TraceLink::local(LocalTrace::new("trace-001", "span-001")),
        )
        .unwrap();

    assert_eq!(fact.id(), "fact:prop-003");
    assert_eq!(fact.content().content, "Valid claim");
    assert_eq!(fact.promotion_record().gate_id.as_str(), "test-gate");
    assert!(fact.is_replay_eligible());
}

#[test]
fn proposal_lifecycle_trait() {
    let gate = PromotionGate::new(GateId::new("lifecycle-gate"), ValidationPolicy::new());
    let intent = SimpleIntent::new("test intent");
    let proposal = make_draft_proposal("prop-004", "Lifecycle test");

    let validated = gate.validate(&intent, proposal).unwrap();
    let fact = gate.promote(validated).unwrap();

    assert_eq!(fact.id(), "fact:prop-004");
    assert_eq!(fact.content().content, "Lifecycle test");
}

#[test]
fn policy_required_checks_run() {
    let gate = PromotionGate::new(
        GateId::new("policy-gate"),
        ValidationPolicy::new()
            .with_required_check("schema_valid")
            .with_required_check("confidence_threshold"),
    );
    let proposal = make_draft_proposal("prop-005", "Policy test");
    let context = ValidationContext::new();

    let validated = gate.validate_proposal(proposal, &context).unwrap();

    let check_names: Vec<_> = validated
        .report()
        .checks()
        .iter()
        .map(|c| c.name.as_str())
        .collect();
    assert!(check_names.contains(&"schema_valid"));
    assert!(check_names.contains(&"confidence_threshold"));
    assert!(check_names.contains(&"content_not_empty"));
}

#[test]
fn validated_proposal_debug() {
    let gate = PromotionGate::new(GateId::new("debug-gate"), ValidationPolicy::new());
    let proposal = make_draft_proposal("prop-006", "Debug test");
    let context = ValidationContext::new();

    let validated = gate.validate_proposal(proposal, &context).unwrap();
    let debug = format!("{:?}", validated);

    assert!(debug.contains("ValidatedProposal"));
    assert!(debug.contains("prop-006"));
}

#[test]
fn fact_content_kind_conversion() {
    assert_eq!(
        FactContentKind::from(ProposedContentKind::Claim),
        FactContentKind::Claim
    );
    assert_eq!(
        FactContentKind::from(ProposedContentKind::Plan),
        FactContentKind::Plan
    );
    assert_eq!(
        FactContentKind::from(ProposedContentKind::Draft),
        FactContentKind::Document
    );
    assert_eq!(
        FactContentKind::from(ProposedContentKind::Reasoning),
        FactContentKind::Reasoning
    );
}

#[test]
fn test_promotion_keeps_kind_and_records_checks() {
    let gate = PromotionGate::new(
        GateId::new("g"),
        ValidationPolicy::new().with_required_check("schema_valid"),
    );
    let proposal = Proposal::new(
        ProposalId::new("p-draft"),
        ProposedContent::new(ProposedContentKind::Draft, "body"),
        ObservationProvenance::new(
            ObservationId::new("obs-9"),
            ContentHash::zero(),
            CaptureContext::default(),
        ),
    );
    let validated = gate
        .validate_proposal(proposal, &ValidationContext::new())
        .unwrap();
    assert_eq!(validated.report().checks().len(), 2);
    let fact = gate
        .promote_to_fact(
            validated,
            Actor::human("analyst-7"),
            vec![],
            TraceLink::local(LocalTrace::new("t", "s")),
        )
        .unwrap();
    assert_eq!(fact.content().kind, FactContentKind::Document);
    assert_eq!(fact.promotion_record().approver.id, "analyst-7");
    assert_eq!(
        fact.promotion_record().validation_summary.checks_passed,
        vec!["content_not_empty".to_string(), "schema_valid".to_string()]
    );
}
