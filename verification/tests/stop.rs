use converge_core::invariants::InvariantClass;
use converge_core::stop::{ErrorCategory, StopReason};

#[test]
fn test_converged_constructor() {
    let reason = StopReason::converged();
    assert!(matches!(reason, StopReason::Converged));
    assert!(reason.is_success());
    assert!(!reason.is_budget_exhausted());
    assert!(!reason.is_validation_failure());
    assert!(!reason.is_error());
}

#[test]
fn test_criteria_met_constructor() {
    let reason = StopReason::criteria_met(vec!["goal1".into(), "goal2".into()]);
    if let StopReason::CriteriaMet { criteria } = &reason {
        assert_eq!(criteria.len(), 2);
        assert_eq!(criteria[0], "goal1");
        assert_eq!(criteria[1], "goal2");
    } else {
        panic!("Expected CriteriaMet");
    }
    assert!(reason.is_success());
}

#[test]
fn test_user_cancelled_constructor() {
    let reason = StopReason::user_cancelled();
    assert!(matches!(reason, StopReason::UserCancelled));
    assert!(reason.is_success());
}

#[test]
fn test_human_intervention_required_constructor() {
    let reason = StopReason::human_intervention_required(
        vec!["payment.confirmed".into()],
        vec!["approval:top-up".into()],
    );
    if let StopReason::HumanInterventionRequired {
        criteria,
        approval_refs,
    } = &reason
    {
        assert_eq!(criteria, &vec!["payment.confirmed".to_string()]);
        assert_eq!(approval_refs, &vec!["approval:top-up".to_string()]);
    } else {
        panic!("Expected HumanInterventionRequired");
    }
    assert!(!reason.is_success());
    assert!(reason.is_human_intervention_required());
}

#[test]
fn test_cycle_budget_exhausted_constructor() {
    let reason = StopReason::cycle_budget_exhausted(100, 100);
    if let StopReason::CycleBudgetExhausted {
        cycles_executed,
        limit,
    } = &reason
    {
        assert_eq!(*cycles_executed, 100);
        assert_eq!(*limit, 100);
    } else {
        panic!("Expected CycleBudgetExhausted");
    }
    assert!(!reason.is_success());
    assert!(reason.is_budget_exhausted());
}

#[test]
fn test_fact_budget_exhausted_constructor() {
    let reason = StopReason::fact_budget_exhausted(10000, 10000);
    assert!(reason.is_budget_exhausted());
}

#[test]
fn test_token_budget_exhausted_constructor() {
    let reason = StopReason::token_budget_exhausted(1_000_000, 1_000_000);
    assert!(reason.is_budget_exhausted());
}

#[test]
fn test_time_budget_exhausted_constructor() {
    let reason = StopReason::time_budget_exhausted(60000, 60000);
    assert!(reason.is_budget_exhausted());
}

#[test]
fn test_invariant_violated_constructor() {
    let reason = StopReason::invariant_violated(
        InvariantClass::Structure,
        "no_empty_facts",
        "Found empty fact content",
    );
    if let StopReason::InvariantViolated {
        class,
        name,
        reason: r,
    } = &reason
    {
        assert_eq!(*class, InvariantClass::Structure);
        assert_eq!(name, "no_empty_facts");
        assert_eq!(r, "Found empty fact content");
    } else {
        panic!("Expected InvariantViolated");
    }
    assert!(reason.is_validation_failure());
}

#[test]
fn test_promotion_rejected_constructor() {
    let reason = StopReason::promotion_rejected("proposal-123", "schema validation failed");
    assert!(reason.is_validation_failure());
}

#[test]
fn test_error_constructor() {
    let reason = StopReason::error("connection refused", ErrorCategory::External);
    if let StopReason::Error { message, category } = &reason {
        assert_eq!(message, "connection refused");
        assert_eq!(*category, ErrorCategory::External);
    } else {
        panic!("Expected Error");
    }
    assert!(reason.is_error());
}

#[test]
fn test_agent_refused_constructor() {
    let reason = StopReason::agent_refused("agent-1", "cannot process unsafe content");
    assert!(reason.is_error());
}

#[test]
fn test_display_converged() {
    let reason = StopReason::converged();
    assert_eq!(reason.to_text(), "Converged");
}

#[test]
fn test_display_criteria_met() {
    let reason = StopReason::criteria_met(vec!["g1".into(), "g2".into()]);
    assert_eq!(reason.to_text(), "Criteria met: g1, g2");
}

#[test]
fn test_display_human_intervention_required() {
    let reason = StopReason::human_intervention_required(
        vec!["payment.confirmed".into()],
        vec!["approval:top-up".into()],
    );
    assert_eq!(
        reason.to_text(),
        "Human intervention required for: payment.confirmed (refs: approval:top-up)"
    );
}

#[test]
fn test_display_cycle_budget_exhausted() {
    let reason = StopReason::cycle_budget_exhausted(50, 100);
    assert_eq!(reason.to_text(), "Cycle budget exhausted: 50/100");
}

#[test]
fn test_display_invariant_violated() {
    let reason =
        StopReason::invariant_violated(InvariantClass::Semantic, "test_inv", "test reason");
    assert_eq!(
        reason.to_text(),
        "Semantic invariant 'test_inv' violated: test reason"
    );
}

#[test]
fn test_display_error() {
    let reason = StopReason::error("oops", ErrorCategory::Internal);
    assert_eq!(reason.to_text(), "Error (Internal): oops");
}

#[test]
fn test_error_category_default() {
    let category = ErrorCategory::default();
    assert_eq!(category, ErrorCategory::Unknown);
}

#[test]
fn stop_reason_texts_for_every_budget_and_gate() {
    assert_eq!(
        StopReason::fact_budget_exhausted(7, 5).to_text(),
        "Fact budget exhausted: 7/5"
    );
    assert_eq!(
        StopReason::invariant_violated(InvariantClass::Structure, "a", "b").to_text(),
        "Structural invariant 'a' violated: b"
    );
    assert_eq!(StopReason::user_cancelled().to_text(), "User cancelled");
    assert_eq!(
        StopReason::time_budget_exhausted(1500, 1000).to_text(),
        "Time budget exhausted: 1500ms/1000ms"
    );
    let pending = StopReason::hitl_gate_pending("gate-1", "proposal-1", "a fact", "agent-7", 3);
    assert_eq!(
        pending.to_text(),
        "HITL gate pending: gate-1 (agent: agent-7, cycle: 3)"
    );
    assert!(pending.is_hitl_pending());
    assert!(!pending.is_success());
}
