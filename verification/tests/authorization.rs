use converge_core::authorization::{
    AllowAllFlowGateAuthorizer, AuthorityLevel, FlowAction, FlowGateAuthorizer, FlowGateContext,
    FlowGateDecision, FlowGateError, FlowGateInput, FlowGateOutcome, FlowGatePrincipal,
    FlowGateResource, FlowPhase, RejectAllFlowGateAuthorizer,
};

#[test]
fn flow_action_as_str_all_variants() {
    assert_eq!(FlowAction::Propose.as_str(), "propose");
    assert_eq!(FlowAction::Validate.as_str(), "validate");
    assert_eq!(FlowAction::Promote.as_str(), "promote");
    assert_eq!(FlowAction::Commit.as_str(), "commit");
    assert_eq!(FlowAction::AdvancePhase.as_str(), "advance_phase");
}

#[test]
fn authority_level_as_str_all_variants() {
    assert_eq!(AuthorityLevel::Advisory.as_str(), "advisory");
    assert_eq!(AuthorityLevel::Supervisory.as_str(), "supervisory");
    assert_eq!(AuthorityLevel::Participatory.as_str(), "participatory");
    assert_eq!(AuthorityLevel::Sovereign.as_str(), "sovereign");
}

#[test]
fn flow_phase_as_str_all_variants() {
    assert_eq!(FlowPhase::Intent.as_str(), "intent");
    assert_eq!(FlowPhase::Framing.as_str(), "framing");
    assert_eq!(FlowPhase::Exploration.as_str(), "exploration");
    assert_eq!(FlowPhase::Tension.as_str(), "tension");
    assert_eq!(FlowPhase::Convergence.as_str(), "convergence");
    assert_eq!(FlowPhase::Commitment.as_str(), "commitment");
}

#[test]
fn outcome_is_allowed() {
    assert!(FlowGateOutcome::Promote.is_allowed());
    assert!(!FlowGateOutcome::Reject.is_allowed());
    assert!(!FlowGateOutcome::Escalate.is_allowed());
}

#[test]
fn decision_promote_factory() {
    let d = FlowGateDecision::promote(Some("approved".into()), Some("policy:1".into()));
    assert_eq!(d.outcome, FlowGateOutcome::Promote);
    assert_eq!(d.reason.as_deref(), Some("approved"));
    assert_eq!(d.source.as_deref(), Some("policy:1"));
}

#[test]
fn decision_reject_factory() {
    let d = FlowGateDecision::reject(None, None);
    assert_eq!(d.outcome, FlowGateOutcome::Reject);
    assert!(d.reason.is_none());
    assert!(d.source.is_none());
}

#[test]
fn decision_escalate_factory() {
    let d = FlowGateDecision::escalate(Some("needs human".into()), Some("hitl".into()));
    assert_eq!(d.outcome, FlowGateOutcome::Escalate);
    assert_eq!(d.reason.as_deref(), Some("needs human"));
}

#[test]
fn flow_gate_error_display() {
    let e = FlowGateError::Authorizer("connection reset".into());
    assert!(e.to_text().contains("connection reset"));

    let e = FlowGateError::InvalidInput("missing principal".into());
    assert!(e.to_text().contains("missing principal"));
}

#[test]
fn flow_gate_error_is_std_error() {
    let e = FlowGateError::Authorizer("test".into());
    assert!(e.to_text().contains("test"));
}

fn sample_input() -> FlowGateInput {
    FlowGateInput {
        principal: FlowGatePrincipal {
            id: "agent:test".into(),
            authority: AuthorityLevel::Supervisory,
            domains: vec!["finance".into()],
            policy_version: Some("v1".into()),
        },
        resource: FlowGateResource {
            id: "expense:1".into(),
            kind: "expense".into(),
            phase: FlowPhase::Commitment,
            gates_passed: vec!["receipt".into()],
        },
        action: FlowAction::Validate,
        context: FlowGateContext {
            commitment_type: Some("expense".into()),
            amount: Some(100),
            human_approval_present: Some(false),
            required_gates_met: Some(true),
        },
    }
}

#[test]
fn allow_all_authorizer_promotes() {
    let decision = AllowAllFlowGateAuthorizer
        .decide(&sample_input())
        .expect("allow_all should succeed");
    assert_eq!(decision.outcome, FlowGateOutcome::Promote);
}

#[test]
fn reject_all_authorizer_rejects() {
    let decision = RejectAllFlowGateAuthorizer::with_reason("blocked")
        .decide(&sample_input())
        .expect("reject_all should succeed");
    assert_eq!(decision.outcome, FlowGateOutcome::Reject);
    assert_eq!(decision.reason.as_deref(), Some("blocked"));
}

#[test]
fn reject_all_default_reason() {
    let authorizer = RejectAllFlowGateAuthorizer::default();
    let decision = authorizer.decide(&sample_input()).unwrap();
    assert_eq!(decision.outcome, FlowGateOutcome::Reject);
    assert!(decision.reason.as_deref().unwrap().contains("reject_all"));
}

#[test]
fn test_authorizers_decide_fixed_outcomes() {
    let input = sample_input();
    let allow = AllowAllFlowGateAuthorizer.decide(&input).unwrap();
    assert_eq!(allow.outcome, FlowGateOutcome::Promote);
    assert_eq!(allow.source.as_deref(), Some("allow_all"));

    let reject = RejectAllFlowGateAuthorizer::default().decide(&input).unwrap();
    assert_eq!(reject.outcome, FlowGateOutcome::Reject);
    assert_eq!(reject.reason.as_deref(), Some("reject_all test authorizer"));

    let custom = RejectAllFlowGateAuthorizer::with_reason("over budget")
        .decide(&input)
        .unwrap();
    assert_eq!(custom.reason.as_deref(), Some("over budget"));
    assert_eq!(
        FlowGateError::InvalidInput("x".into()).to_text(),
        "invalid flow gate input: x"
    );
}
