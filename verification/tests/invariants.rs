use converge_core::context::{ContextFact, ContextKey, ContextState};
use converge_core::invariants::{
    first_violation, Invariant, InvariantClass, InvariantRegistry, InvariantResult, Violation,
};

/// Invariant that requires at least one seed.
struct RequireSeeds;

impl Invariant for RequireSeeds {
    fn name(&self) -> &str {
        "require_seeds"
    }

    fn class(&self) -> InvariantClass {
        InvariantClass::Acceptance
    }

    fn check(&self, ctx: &ContextState) -> InvariantResult {
        if ctx.has(ContextKey::Seeds) {
            InvariantResult::Holds
        } else {
            InvariantResult::Violated(Violation::new("no seeds present"))
        }
    }
}

/// Invariant that forbids empty fact content.
struct NoEmptyContent;

impl Invariant for NoEmptyContent {
    fn name(&self) -> &str {
        "no_empty_content"
    }

    fn class(&self) -> InvariantClass {
        InvariantClass::Structure
    }

    fn check(&self, ctx: &ContextState) -> InvariantResult {
        for key in &[
            ContextKey::Seeds,
            ContextKey::Hypotheses,
            ContextKey::Strategies,
            ContextKey::Competitors,
            ContextKey::Evaluations,
        ] {
            for fact in ctx.get(*key) {
                if fact.content.trim().is_empty() {
                    return InvariantResult::Violated(Violation::with_facts(
                        "empty content not allowed",
                        vec![fact.id.clone()],
                    ));
                }
            }
        }
        InvariantResult::Holds
    }
}

#[test]
fn registry_registers_invariants() {
    let mut registry = InvariantRegistry::new();
    let id1 = registry.register(RequireSeeds);
    let id2 = registry.register(NoEmptyContent);

    assert_eq!(registry.count(), 2);
    assert_ne!(id1, id2);
}

#[test]
fn acceptance_invariant_passes_with_seeds() {
    let mut registry = InvariantRegistry::new();
    registry.register(RequireSeeds);

    let mut ctx = ContextState::new();
    let _ = ctx.add_fact(ContextFact::new(ContextKey::Seeds, "s1", "value"));

    assert!(registry.check_acceptance(&ctx).is_ok());
}

#[test]
fn acceptance_invariant_fails_without_seeds() {
    let mut registry = InvariantRegistry::new();
    registry.register(RequireSeeds);

    let ctx = ContextState::new();
    let result = registry.check_acceptance(&ctx);

    assert!(result.is_err());
    let err = result.unwrap_err();
    assert_eq!(err.invariant_name, "require_seeds");
    assert_eq!(err.class, InvariantClass::Acceptance);
}

#[test]
fn structural_invariant_catches_empty_content() {
    let mut registry = InvariantRegistry::new();
    registry.register(NoEmptyContent);

    let mut ctx = ContextState::new();
    let _ = ctx.add_fact(ContextFact::new(ContextKey::Seeds, "bad", "   "));

    let result = registry.check_structural(&ctx);
    assert!(result.is_err());
    assert!(result
        .unwrap_err()
        .violation
        .fact_ids
        .contains(&"bad".into()));
}

#[test]
fn different_classes_checked_independently() {
    let mut registry = InvariantRegistry::new();
    registry.register(RequireSeeds);
    registry.register(NoEmptyContent);

    let ctx = ContextState::new();

    assert!(registry.check_structural(&ctx).is_ok());

    assert!(registry.check_acceptance(&ctx).is_err());
}

#[test]
fn test_first_violation_reports_the_first() {
    let outcomes = vec![
        ("a".to_string(), InvariantResult::Holds),
        (
            "b".to_string(),
            InvariantResult::Violated(Violation::new("first")),
        ),
        (
            "c".to_string(),
            InvariantResult::Violated(Violation::new("second")),
        ),
    ];
    let err = first_violation(InvariantClass::Semantic, outcomes).unwrap_err();
    assert_eq!(err.invariant_name, "b");
    assert_eq!(err.violation.reason, "first");
    assert_eq!(err.to_text(), "Semantic invariant 'b' violated: first");
    assert!(first_violation(InvariantClass::Semantic, vec![]).is_ok());
    assert_eq!(InvariantClass::Structure.name(), "Structural");
}
