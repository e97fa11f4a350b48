use converge_core::context::{ContextFact, ContextKey, ContextState};
use converge_core::ids::IntentId;
use converge_core::root_intent::{
    Budgets, ConstraintSeverity, IntentConstraint, IntentKind, Objective, RootIntent, Scope,
    ScopeConstraint, SuccessCriteria, SuccessCriterion,
};

#[test]
fn intent_id_generates_unique_ids() {
    let id1 = IntentId::generate();
    let id2 = IntentId::generate();
    assert_ne!(id1, id2);
}

#[test]
fn intent_kind_has_names() {
    assert_eq!(IntentKind::GrowthStrategy.name(), "growth_strategy");
    assert_eq!(IntentKind::Scheduling.name(), "scheduling");
}

#[test]
fn intent_kind_suggests_context_keys() {
    let keys = IntentKind::GrowthStrategy.suggested_context_keys();
    assert!(keys.contains(&ContextKey::Strategies));
    assert!(keys.contains(&ContextKey::Competitors));
}

#[test]
fn scope_tracks_constraints() {
    let scope = Scope::new()
        .with_constraint(ScopeConstraint::Market("Nordic B2B".into()))
        .with_constraint(ScopeConstraint::Geography("EMEA".into()));

    assert!(scope.is_defined());
    assert_eq!(scope.constraints().len(), 2);
}

#[test]
fn intent_constraint_severities() {
    let hard = IntentConstraint::hard("budget", "1M");
    let soft = IntentConstraint::soft("brand", "friendly");

    assert_eq!(hard.severity, ConstraintSeverity::Hard);
    assert_eq!(soft.severity, ConstraintSeverity::Soft);
}

#[test]
fn root_intent_validates_scope() {
    let intent = RootIntent::new(IntentKind::GrowthStrategy)
        .with_success_criterion(SuccessCriterion::AtLeastOneViableStrategy);

    let result = intent.validate();
    assert!(result.is_err());
    assert_eq!(result.unwrap_err().field, "scope");
}

#[test]
fn root_intent_validates_success_criteria() {
    let intent = RootIntent::new(IntentKind::GrowthStrategy)
        .with_scope(Scope::new().with_constraint(ScopeConstraint::Market("B2B".into())));

    let result = intent.validate();
    assert!(result.is_err());
    assert_eq!(result.unwrap_err().field, "success_criteria");
}

#[test]
fn root_intent_passes_validation() {
    let intent = RootIntent::new(IntentKind::GrowthStrategy)
        .with_objective(Objective::IncreaseDemand)
        .with_scope(Scope::new().with_constraint(ScopeConstraint::Market("B2B".into())))
        .with_success_criterion(SuccessCriterion::AtLeastOneViableStrategy);

    assert!(intent.validate().is_ok());
}

#[test]
fn root_intent_generates_seed_facts() {
    let intent = RootIntent::new(IntentKind::GrowthStrategy)
        .with_id(IntentId::new("test-intent"))
        .with_objective(Objective::IncreaseDemand)
        .with_scope(
            Scope::new()
                .with_constraint(ScopeConstraint::Market("Nordic".into()))
                .with_constraint(ScopeConstraint::Geography("EMEA".into())),
        )
        .with_constraint(IntentConstraint::hard("budget", "1M"));

    let facts = intent.to_seed_facts();

    assert_eq!(facts.len(), 4);

    let intent_fact = facts
        .iter()
        .find(|f| f.id().starts_with("intent:"))
        .unwrap();
    assert!(intent_fact.content().contains("growth_strategy"));
    assert!(intent_fact.content().contains("increase_demand"));

    let constraint_fact = facts
        .iter()
        .find(|f| f.key() == ContextKey::Constraints)
        .unwrap();
    assert!(constraint_fact.content().contains("budget=1M"));
}

#[test]
fn budgets_converts_to_engine_budget() {
    let budgets = Budgets::default().with_max_cycles(50).with_max_facts(5000);

    let engine_budget = budgets.to_engine_budget();
    assert_eq!(engine_budget.max_cycles, 50);
    assert_eq!(engine_budget.max_facts, 5000);
}

#[test]
fn hard_and_soft_constraints_filtered() {
    let intent = RootIntent::new(IntentKind::GrowthStrategy)
        .with_constraint(IntentConstraint::hard("budget", "1M"))
        .with_constraint(IntentConstraint::soft("brand", "friendly"))
        .with_constraint(IntentConstraint::hard("compliance", "GDPR"));

    assert_eq!(intent.hard_constraints().len(), 2);
    assert_eq!(intent.soft_constraints().len(), 1);
}

#[test]
fn test_seed_fact_ids_and_texts() {
    let intent = RootIntent::new(IntentKind::GrowthStrategy)
        .with_id(IntentId::new("i1"))
        .with_scope(Scope::new().with_constraint(ScopeConstraint::Market("Nordic".into())))
        .with_constraint(IntentConstraint::soft("brand", "friendly"))
        .with_constraint(IntentConstraint::hard("budget", "1M"));
    let facts = intent.to_seed_facts();
    assert_eq!(facts.len(), 3);
    assert_eq!(facts[0].key(), ContextKey::Seeds);
    assert_eq!(facts[0].id(), "intent:i1");
    assert_eq!(facts[1].content(), "market=Nordic");
    assert_eq!(facts[2].id(), "constraint:i1:budget");
    assert_eq!(facts[2].content(), "budget=1M");
}

#[test]
fn test_success_criteria_against_context() {
    let mut ctx = ContextState::new();
    let criteria = SuccessCriteria::new()
        .require(SuccessCriterion::MinimumStrategies(2))
        .prefer(SuccessCriterion::AllEvaluationsPositive);
    assert!(criteria.is_explicit());
    assert!(!criteria.is_satisfied(&ctx));
    ctx.add_fact(ContextFact::new(ContextKey::Strategies, "s1", "a")).unwrap();
    ctx.add_fact(ContextFact::new(ContextKey::Strategies, "s2", "b")).unwrap();
    assert!(criteria.is_satisfied(&ctx));
    ctx.add_fact(ContextFact::new(ContextKey::Evaluations, "e1", "Negative outlook"))
        .unwrap();
    assert_eq!(criteria.unsatisfied_optional(&ctx).len(), 1);
    ctx.add_fact(ContextFact::new(ContextKey::Evaluations, "e2", "VIABLE option"))
        .unwrap();
    assert_eq!(criteria.unsatisfied(&ctx).len(), 0);
    assert_eq!(criteria.unsatisfied_optional(&ctx).len(), 1);
    let mut fresh = ContextState::new();
    fresh.add_fact(ContextFact::new(ContextKey::Evaluations, "e3", "Not Good")).unwrap();
    assert!(SuccessCriterion::AllEvaluationsPositive.is_satisfied(&fresh));
    assert!(SuccessCriterion::AtLeastOneViableStrategy.is_satisfied(&ctx));
}

#[test]
fn success_criteria_checks_satisfaction() {
    let mut ctx = ContextState::new();
    ctx.add_fact(ContextFact::new(ContextKey::Strategies, "strat-1", "growth strategy"))
        .unwrap();
    ctx.add_fact(ContextFact::new(ContextKey::Evaluations, "eval-1", "viable and recommended"))
        .unwrap();
    let criteria = SuccessCriteria::new().require(SuccessCriterion::AtLeastOneViableStrategy);
    assert!(criteria.is_satisfied(&ctx));
}

#[test]
fn success_criteria_reports_unsatisfied() {
    let ctx = ContextState::new();
    let criteria = SuccessCriteria::new().require(SuccessCriterion::MinimumStrategies(2));
    assert!(!criteria.is_satisfied(&ctx));
    assert_eq!(criteria.unsatisfied(&ctx).len(), 1);
}

#[test]
fn root_intent_checks_success() {
    let intent = RootIntent::new(IntentKind::GrowthStrategy)
        .with_success_criterion(SuccessCriterion::MinimumStrategies(1));
    let mut ctx = ContextState::new();
    assert!(!intent.is_successful(&ctx));
    ctx.add_fact(ContextFact::new(ContextKey::Strategies, "s1", "strategy"))
        .unwrap();
    assert!(intent.is_successful(&ctx));
}
