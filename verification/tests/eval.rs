use converge_core::context::{ContextFact, ContextKey, ContextState};
use converge_core::eval::{Eval, EvalId, EvalOutcome, EvalRegistry, EvalResult};

struct RequireSeedsEval;

impl Eval for RequireSeedsEval {
    fn name(&self) -> &str {
        "require_seeds"
    }

    fn description(&self) -> &str {
        "Checks if at least one seed exists in context"
    }

    fn evaluate(&self, ctx: &ContextState) -> EvalResult {
        let count = ctx.get(ContextKey::Seeds).len();
        if count > 0 {
            EvalResult::new(self.name(), EvalOutcome::Pass, 10000, &format!("Found {} seeds", count))
        } else {
            EvalResult::new(self.name(), EvalOutcome::Fail, 0, "No seeds found")
        }
    }

    fn dependencies(&self) -> &[ContextKey] {
        &[ContextKey::Seeds]
    }
}

struct AlwaysEval;

impl Eval for AlwaysEval {
    fn name(&self) -> &str {
        "always"
    }

    fn description(&self) -> &str {
        "Runs on every change"
    }

    fn evaluate(&self, _ctx: &ContextState) -> EvalResult {
        EvalResult::new(self.name(), EvalOutcome::Indeterminate, 5000, "no data")
    }

    fn dependencies(&self) -> &[ContextKey] {
        &[]
    }
}

#[test]
fn registry_registers_evals() {
    let mut registry = EvalRegistry::new();
    let id1 = registry.register(RequireSeedsEval);
    let id2 = registry.register(RequireSeedsEval);

    assert_eq!(registry.count(), 2);
    assert_ne!(id1, id2);
}

#[test]
fn eval_passes_when_seeds_exist() {
    let mut registry = EvalRegistry::new();
    let id = registry.register(RequireSeedsEval);

    let mut ctx = ContextState::new();
    let _ = ctx.add_fact(ContextFact::new(ContextKey::Seeds, "s1", "value"));

    let result = registry.evaluate_by_id(id, &ctx);
    assert_eq!(result.outcome, EvalOutcome::Pass);
    assert_eq!(result.score.to_basis_points(), 10000);
}

#[test]
fn eval_fails_when_no_seeds() {
    let mut registry = EvalRegistry::new();
    let id = registry.register(RequireSeedsEval);

    let ctx = ContextState::new();
    let result = registry.evaluate_by_id(id, &ctx);

    assert_eq!(result.outcome, EvalOutcome::Fail);
    assert_eq!(result.score.to_basis_points(), 0);
}

#[test]
fn eval_result_converts_to_fact() {
    let result = EvalResult::new("test_eval", EvalOutcome::Pass, 8500, "Test passed");

    let fact = result.to_fact(None);
    assert_eq!(fact.key, ContextKey::Evaluations);
    assert!(fact.id.starts_with("eval:test_eval"));
    assert!(fact.content.contains("Pass"));
    assert!(fact.content.contains("0.85"));
    assert_eq!(fact.content, "Outcome: Pass | Score: 0.85 | Test passed");
    assert_eq!(result.to_fact(Some("run-1")).id, "eval:test_eval:run-1");
}

#[test]
fn eval_result_score_is_clamped() {
    let result = EvalResult::new("test", EvalOutcome::Pass, 15000, "test");
    assert_eq!(result.score.to_basis_points(), 10000);

    let result = EvalResult::new("test", EvalOutcome::Pass, 0, "test");
    assert_eq!(result.score.to_basis_points(), 0);
}

#[test]
fn evaluate_all_runs_in_registration_order() {
    let mut registry = EvalRegistry::new();
    registry.register(RequireSeedsEval);
    registry.register(AlwaysEval);
    let results = registry.evaluate_all(&ContextState::new());
    let names: Vec<&str> = results.iter().map(|r| r.eval_name.as_str()).collect();
    assert_eq!(names, vec!["require_seeds", "always"]);
}

#[test]
fn evaluate_dependent_picks_dependents_and_unconditional() {
    let mut registry = EvalRegistry::new();
    registry.register(RequireSeedsEval);
    registry.register(AlwaysEval);
    assert_eq!(registry.dependent_ids(&[ContextKey::Hypotheses]), vec![EvalId(1)]);
    assert_eq!(registry.dependent_ids(&[ContextKey::Seeds]), vec![EvalId(0), EvalId(1)]);
    let results = registry.evaluate_dependent(&ContextState::new(), &[ContextKey::Hypotheses]);
    assert_eq!(results.len(), 1);
    assert_eq!(results[0].eval_name, "always");
}

#[test]
fn eval_score_text_rounds_to_two_decimals() {
    let fact = EvalResult::new("e", EvalOutcome::Fail, 10000, "r").to_fact(None);
    assert_eq!(fact.content, "Outcome: Fail | Score: 1.00 | r");
    let fact = EvalResult::new("e", EvalOutcome::Indeterminate, 7, "r").to_fact(None);
    assert_eq!(fact.content, "Outcome: Indeterminate | Score: 0.00 | r");
}
