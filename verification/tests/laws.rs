use converge_core::agent::{sort_by_suggestor, AgentEffect, SuggestorId};
use converge_core::context::{ContextKey, ProposedFact};
use converge_core::integrity::ContentHash;
use converge_core::invariants::InvariantClass;
use converge_core::stop::{ErrorCategory, StopReason};

#[test]
fn test_hex_round_trip_on_several_hashes() {
    for text in ["", "a", "hello world", "Seeds|s1|x"] {
        let h = ContentHash::compute(text);
        assert_eq!(ContentHash::from_hex(&h.to_hex()).unwrap(), h);
    }
    let z = ContentHash::zero();
    assert_eq!(ContentHash::from_hex(&z.to_hex()).unwrap(), z);
}

#[test]
fn test_sort_by_suggestor_is_stable_and_ordered() {
    let eff = |id: &str| {
        AgentEffect::with_proposal(ProposedFact::new(ContextKey::Seeds, id, "x", "p"))
    };
    let sorted = sort_by_suggestor(vec![
        (SuggestorId(3), eff("a")),
        (SuggestorId(1), eff("b")),
        (SuggestorId(3), eff("c")),
        (SuggestorId(0), eff("d")),
        (SuggestorId(1), eff("e")),
    ]);
    let order: Vec<(u32, String)> = sorted
        .iter()
        .map(|(id, e)| (id.0, e.proposals[0].id.0.clone()))
        .collect();
    assert_eq!(
        order,
        vec![
            (0, "d".to_string()),
            (1, "b".to_string()),
            (1, "e".to_string()),
            (3, "a".to_string()),
            (3, "c".to_string()),
        ]
    );
    assert!(sort_by_suggestor(vec![]).is_empty());
}

#[test]
fn test_stop_reasons_fall_in_one_class() {
    let reasons = vec![
        StopReason::converged(),
        StopReason::user_cancelled(),
        StopReason::cycle_budget_exhausted(1, 1),
        StopReason::invariant_violated(InvariantClass::Semantic, "n", "r"),
        StopReason::error("m", ErrorCategory::Internal),
        StopReason::hitl_gate_pending("g", "p", "s", "a", 1),
        StopReason::human_intervention_required(vec![], vec![]),
    ];
    for r in &reasons {
        let classes = [
            r.is_success(),
            r.is_budget_exhausted(),
            r.is_validation_failure(),
            r.is_error(),
            r.is_hitl_pending(),
            r.is_human_intervention_required(),
        ];
        assert_eq!(classes.iter().filter(|c| **c).count(), 1, "{r:?}");
    }
}
