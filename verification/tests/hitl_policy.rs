use converge_core::hitl::{HitlPolicy, TimeoutAction, TimeoutPolicy};
use converge_core::ids::{ObservationId, ProposalId};
use converge_core::integrity::ContentHash;
use converge_core::recall::UnitInterval;
use converge_core::types::{
    CaptureContext, Draft, ObservationProvenance, Proposal, ProposedContent, ProposedContentKind,
};

fn score(x: f32) -> UnitInterval {
    UnitInterval::clamped_basis_points((x * 10000.0).round() as u32)
}

fn make_provenance() -> ObservationProvenance {
    ObservationProvenance::new(
        ObservationId::new("obs-test"),
        ContentHash::zero(),
        CaptureContext::default(),
    )
}

fn make_draft(kind: ProposedContentKind, confidence: Option<f32>) -> Proposal<Draft> {
    let mut content = ProposedContent::new(kind, "Test proposal content");
    if let Some(c) = confidence {
        content = content.with_confidence(score(c));
    }
    Proposal::new(ProposalId::new("test-proposal"), content, make_provenance())
}

#[test]
fn policy_gates_by_kind() {
    let policy = HitlPolicy::for_kinds(vec![ProposedContentKind::Plan]);
    let plan = make_draft(ProposedContentKind::Plan, Some(0.95));
    let claim = make_draft(ProposedContentKind::Claim, Some(0.95));

    assert!(policy.requires_approval(&plan, "agent-1"));
    assert!(!policy.requires_approval(&claim, "agent-1"));
}

#[test]
fn policy_gates_by_confidence() {
    let policy = HitlPolicy {
        gated_kinds: Vec::new(),
        confidence_threshold: Some(score(0.8)),
        gated_agent_ids: Vec::new(),
        timeout: TimeoutPolicy::default(),
    };
    let low = make_draft(ProposedContentKind::Claim, Some(0.5));
    let high = make_draft(ProposedContentKind::Claim, Some(0.9));
    let none = make_draft(ProposedContentKind::Claim, None);

    assert!(policy.requires_approval(&low, "agent-1"));
    assert!(!policy.requires_approval(&high, "agent-1"));
    assert!(policy.requires_approval(&none, "agent-1"));
}

#[test]
fn policy_gates_by_agent() {
    let policy = HitlPolicy {
        gated_kinds: Vec::new(),
        confidence_threshold: None,
        gated_agent_ids: vec!["risky-agent".to_string()],
        timeout: TimeoutPolicy::default(),
    };
    let proposal = make_draft(ProposedContentKind::Claim, Some(0.99));

    assert!(policy.requires_approval(&proposal, "risky-agent"));
    assert!(!policy.requires_approval(&proposal, "safe-agent"));
}

#[test]
fn gate_all_catches_everything() {
    let policy = HitlPolicy::gate_all();
    let proposal = make_draft(ProposedContentKind::Claim, Some(0.99));
    assert!(policy.requires_approval(&proposal, "any-agent"));
}

#[test]
fn gate_all_lets_certain_proposals_pass() {
    let policy = HitlPolicy::gate_all();
    let proposal = make_draft(ProposedContentKind::Claim, Some(1.0));
    assert!(!policy.requires_approval(&proposal, "any-agent"));
}

#[test]
fn no_conditions_means_no_gating() {
    let policy = HitlPolicy {
        gated_kinds: Vec::new(),
        confidence_threshold: None,
        gated_agent_ids: Vec::new(),
        timeout: TimeoutPolicy::default(),
    };
    let proposal = make_draft(ProposedContentKind::Claim, Some(0.5));
    assert!(!policy.requires_approval(&proposal, "agent-1"));
}

#[test]
fn policy_timeout_can_be_replaced() {
    let policy = HitlPolicy::for_kinds(vec![ProposedContentKind::Plan]).with_timeout(TimeoutPolicy {
        timeout_secs: 60,
        action: TimeoutAction::Approve,
    });
    assert_eq!(policy.timeout.timeout_secs, 60);
    assert_eq!(policy.timeout.action, TimeoutAction::Approve);
    assert_eq!(policy.gated_kinds, vec![ProposedContentKind::Plan]);
}
