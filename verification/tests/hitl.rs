use converge_core::hitl::{
    ContextItem, GateDecision, GateEvent, GateEventKind, GateVerdict, TimeoutAction,
    TimeoutPolicy,
};
use converge_core::ids::{GateId, ProposalId};
use std::time::Duration;

#[test]
fn gate_decision_approve() {
    let decision = GateDecision::approve(GateId::new("hitl-123"), "user@example.com");
    assert!(decision.is_approved());
}

#[test]
fn gate_decision_reject_with_reason() {
    let decision = GateDecision::reject(
        GateId::new("hitl-123"),
        "user@example.com",
        Some("Proposal is too aggressive".to_string()),
    );
    assert!(!decision.is_approved());
    if let GateVerdict::Reject { reason } = &decision.verdict {
        assert_eq!(reason.as_deref(), Some("Proposal is too aggressive"));
    } else {
        panic!("Expected Reject verdict");
    }
}

#[test]
fn gate_event_from_approval() {
    let decision = GateDecision::approve(GateId::new("hitl-123"), "admin");
    let event = GateEvent::from_decision(&decision);
    assert!(matches!(event.kind, GateEventKind::Approved { .. }));
}

#[test]
fn gate_event_from_rejection() {
    let decision = GateDecision::reject(GateId::new("hitl-123"), "admin", None);
    let event = GateEvent::from_decision(&decision);
    assert!(matches!(event.kind, GateEventKind::Rejected { .. }));
}

#[test]
fn gate_event_timed_out() {
    let event = GateEvent::timed_out(GateId::new("hitl-123"), TimeoutAction::Reject);
    assert!(matches!(
        event.kind,
        GateEventKind::TimedOut {
            action_taken: TimeoutAction::Reject
        }
    ));
}

#[test]
fn timeout_policy_default() {
    let policy = TimeoutPolicy::default();
    assert_eq!(policy.timeout_secs, 30 * 60);
    assert_eq!(policy.duration(), Duration::from_secs(1800));
    assert_eq!(policy.action, TimeoutAction::Reject);
}

#[test]
fn context_item_creation() {
    let item = ContextItem::new("Revenue Impact", "$50,000 pipeline value");
    assert_eq!(item.label, "Revenue Impact");
    assert_eq!(item.value, "$50,000 pipeline value");
}

#[test]
fn test_gate_event_requested_keeps_ids() {
    let event = GateEvent::requested(
        GateId::new("g-9"),
        ProposalId::new("p-9"),
        "agent-9".to_string(),
    );
    assert_eq!(event.gate_id.as_str(), "g-9");
    match &event.kind {
        GateEventKind::Requested { proposal_id, agent_id } => {
            assert_eq!(proposal_id.as_str(), "p-9");
            assert_eq!(agent_id, "agent-9");
        }
        _ => panic!("expected Requested"),
    }
    let custom = TimeoutPolicy {
        timeout_secs: 5,
        action: TimeoutAction::Approve,
    };
    assert_eq!(custom.duration(), Duration::from_secs(5));
}
