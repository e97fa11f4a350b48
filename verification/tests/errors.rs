use converge_core::context::{ContextState, ConvergeError};
use converge_core::invariants::InvariantClass;
use converge_core::stop::StopReason;

fn empty_context() -> ContextState {
    ContextState::new()
}

#[test]
fn budget_exhausted_display() {
    let err = ConvergeError::BudgetExhausted {
        kind: "cycles".into(),
    };
    assert_eq!(err.to_text(), "budget exhausted: cycles");
}

#[test]
fn budget_exhausted_has_no_context() {
    let err = ConvergeError::BudgetExhausted {
        kind: "tokens".into(),
    };
    assert!(err.context().is_none());
}

#[test]
fn agent_failed_display() {
    let err = ConvergeError::AgentFailed {
        agent_id: "agent-x".into(),
    };
    assert_eq!(err.to_text(), "agent failed: agent-x");
}

#[test]
fn agent_failed_has_no_context() {
    let err = ConvergeError::AgentFailed {
        agent_id: "a".into(),
    };
    assert!(err.context().is_none());
}

#[test]
fn invariant_violation_has_context() {
    let err = ConvergeError::InvariantViolation {
        name: "no_empty".into(),
        class: InvariantClass::Structure,
        reason: "empty found".into(),
        context: Box::new(empty_context()),
    };
    assert!(err.context().is_some());
}

#[test]
fn invariant_violation_display() {
    let err = ConvergeError::InvariantViolation {
        name: "no_empty".into(),
        class: InvariantClass::Semantic,
        reason: "bad".into(),
        context: Box::new(empty_context()),
    };
    assert_eq!(err.to_text(), "Semantic invariant 'no_empty' violated: bad");
}

#[test]
fn conflict_has_context() {
    let err = ConvergeError::Conflict {
        id: "fact-1".into(),
        existing: "old".into(),
        new: "new".into(),
        context: Box::new(empty_context()),
    };
    assert!(err.context().is_some());
}

#[test]
fn conflict_display() {
    let err = ConvergeError::Conflict {
        id: "f".into(),
        existing: "a".into(),
        new: "b".into(),
        context: Box::new(empty_context()),
    };
    assert!(err.to_text().contains("conflict detected for fact 'f'"));
}

#[test]
fn stop_reason_budget_exhausted() {
    let err = ConvergeError::BudgetExhausted {
        kind: "time".into(),
    };
    assert!(matches!(err.stop_reason(), StopReason::Error { .. }));
}

#[test]
fn stop_reason_invariant_violated() {
    let err = ConvergeError::InvariantViolation {
        name: "inv".into(),
        class: InvariantClass::Acceptance,
        reason: "fail".into(),
        context: Box::new(empty_context()),
    };
    assert!(matches!(
        err.stop_reason(),
        StopReason::InvariantViolated { .. }
    ));
}

#[test]
fn stop_reason_agent_refused() {
    let err = ConvergeError::AgentFailed {
        agent_id: "bot".into(),
    };
    assert!(matches!(err.stop_reason(), StopReason::AgentRefused { .. }));
}

#[test]
fn invalid_resume_display() {
    let err = ConvergeError::InvalidResume {
        reason: "gate_id mismatch".into(),
    };
    assert_eq!(err.to_text(), "invalid gate resume: gate_id mismatch");
}

#[test]
fn invalid_resume_has_no_context() {
    let err = ConvergeError::InvalidResume {
        reason: "test".into(),
    };
    assert!(err.context().is_none());
}

#[test]
fn stop_reason_invalid_resume() {
    let err = ConvergeError::InvalidResume {
        reason: "wrong gate".into(),
    };
    assert!(matches!(err.stop_reason(), StopReason::Error { .. }));
}

#[test]
fn stop_reason_conflict() {
    let err = ConvergeError::Conflict {
        id: "x".into(),
        existing: "old".into(),
        new: "new".into(),
        context: Box::new(empty_context()),
    };
    assert!(matches!(err.stop_reason(), StopReason::Error { .. }));
}
