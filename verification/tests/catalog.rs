use converge_core::agent::SuggestorId;
use converge_core::formation::{FormationKind, StaticFormation};
use converge_core::profile::{SuggestorCapability, SuggestorRole};
use converge_core::prompt::escape_string;
use converge_core::recall::{DecisionStep, RecallQuery};
use converge_core::truth::{find_truth_in, CriterionResult, TruthCatalog, TruthDefinition, TruthKind};
use std::collections::HashSet;

#[test]
fn crate_compiles() {}

#[test]
fn suggestor_id_ordering() {
    let a = SuggestorId(1);
    let b = SuggestorId(2);
    let c = SuggestorId(1);
    assert!(a < b);
    assert_eq!(a, c);
}

#[test]
fn formation_kind_display() {
    assert_eq!(FormationKind::Static.to_text(), "static");
    assert_eq!(FormationKind::Scored.to_text(), "scored");
    assert_eq!(FormationKind::Deliberated.to_text(), "deliberated");
    assert_eq!(FormationKind::OpenClaw.to_text(), "open_claw");
}

#[test]
fn all_roles_are_distinct() {
    let roles = [
        SuggestorRole::Analysis,
        SuggestorRole::Planning,
        SuggestorRole::Evaluation,
        SuggestorRole::Constraint,
        SuggestorRole::Signal,
        SuggestorRole::Synthesis,
        SuggestorRole::Meta,
    ];
    let set: HashSet<_> = roles.iter().collect();
    assert_eq!(set.len(), roles.len());
}

#[test]
fn all_capabilities_are_distinct() {
    let caps = [
        SuggestorCapability::LlmReasoning,
        SuggestorCapability::KnowledgeRetrieval,
        SuggestorCapability::Analytics,
        SuggestorCapability::Optimization,
        SuggestorCapability::PolicyEnforcement,
        SuggestorCapability::HumanInTheLoop,
        SuggestorCapability::ExperienceLearning,
    ];
    let set: HashSet<_> = caps.iter().collect();
    assert_eq!(set.len(), caps.len());
}

#[test]
fn test_escape_string() {
    assert_eq!(escape_string("hello"), "hello");
    assert_eq!(escape_string("hello\"world"), "hello\\\"world");
    assert_eq!(escape_string("hello\nworld"), "hello\\nworld");
}

#[test]
fn test_escape_string_backslash_and_tab() {
    assert_eq!(escape_string("a\\b"), "a\\\\b");
    assert_eq!(escape_string("a\tb\rc"), "a\\tb\\rc");
    assert_eq!(escape_string(""), "");
}

#[test]
fn test_recall_query_builder() {
    let query = RecallQuery::new("test", 5)
        .with_step_context(DecisionStep::Reasoning)
        .with_tenant_scope("tenant-1");

    assert_eq!(query.query_text, "test");
    assert_eq!(query.top_k, 5);
    assert_eq!(query.step_context, Some(DecisionStep::Reasoning));
    assert_eq!(query.tenant_scope, Some("tenant-1".to_string()));
}

#[test]
fn test_recall_query_hash_deterministic() {
    let query = RecallQuery::new("test query", 5);
    let hash1 = query.query_hash();
    let hash2 = query.query_hash();
    assert_eq!(hash1, hash2, "Same query must produce same hash");
}

#[test]
fn test_recall_query_hash_depends_on_every_field() {
    let base = RecallQuery::new("test query", 5).query_hash();
    assert_eq!(base.len(), 64);
    assert!(base.chars().all(|c| c.is_ascii_hexdigit() && !c.is_ascii_uppercase()));
    assert_ne!(base, RecallQuery::new("test query", 6).query_hash());
    assert_ne!(base, RecallQuery::new("other query", 5).query_hash());
    assert_ne!(
        base,
        RecallQuery::new("test query", 5)
            .with_tenant_scope("t")
            .query_hash()
    );
    assert_ne!(
        base,
        RecallQuery::new("test query", 5)
            .with_step_context(DecisionStep::Planning)
            .query_hash()
    );
}

#[test]
fn truth_kind_equality() {
    assert_eq!(TruthKind::Job, TruthKind::Job);
    assert_ne!(TruthKind::Job, TruthKind::Policy);
    assert_ne!(TruthKind::Policy, TruthKind::Invariant);
}

#[test]
fn criterion_result_met_with_evidence() {
    let result = CriterionResult::Met {
        evidence: vec!["fact-1".into(), "fact-2".into()],
    };
    assert!(matches!(result, CriterionResult::Met { evidence } if evidence.len() == 2));
}

#[test]
fn criterion_result_blocked() {
    let result = CriterionResult::Blocked {
        reason: "needs approval".into(),
        approval_ref: Some("approval:top-up".into()),
    };
    assert!(matches!(result, CriterionResult::Blocked { .. }));
}

#[test]
fn criterion_result_unmet() {
    let result = CriterionResult::Unmet {
        reason: "insufficient funds".into(),
    };
    assert!(matches!(result, CriterionResult::Unmet { reason } if reason.contains("funds")));
}

#[test]
fn criterion_result_indeterminate() {
    let result = CriterionResult::Indeterminate;
    assert!(matches!(result, CriterionResult::Indeterminate));
}

fn sample_truths() -> Vec<TruthDefinition> {
    vec![
        TruthDefinition {
            key: "job:onboard".into(),
            kind: TruthKind::Job,
            summary: "Onboard a new employee".into(),
            success_criteria: vec![],
            constraints: vec![],
            approval_points: vec![],
            participating_packs: vec!["hr".into()],
        },
        TruthDefinition {
            key: "policy:expense".into(),
            kind: TruthKind::Policy,
            summary: "Expense policy".into(),
            success_criteria: vec![],
            constraints: vec![],
            approval_points: vec![],
            participating_packs: vec![],
        },
    ]
}

#[test]
fn truth_catalog_find_truth_default_impl() {
    struct TestCatalog;
    impl TruthCatalog for TestCatalog {
        fn list_truths(&self) -> Vec<TruthDefinition> {
            sample_truths()
        }
    }

    let catalog = TestCatalog;
    let found = catalog.find_truth("job:onboard");
    assert!(found.is_some());
    assert_eq!(found.unwrap().kind, TruthKind::Job);

    let not_found = catalog.find_truth("nonexistent");
    assert!(not_found.is_none());
}

#[test]
fn test_find_truth_in_picks_matching_key() {
    let found = find_truth_in(sample_truths(), "policy:expense").unwrap();
    assert_eq!(found.summary, "Expense policy");
    assert!(find_truth_in(vec![], "policy:expense").is_none());
}

#[test]
fn test_static_formation_keeps_names() {
    let f = StaticFormation::new(vec!["a".into(), "b".into()]);
    assert_eq!(f.suggestor_names, vec!["a".to_string(), "b".to_string()]);
}
