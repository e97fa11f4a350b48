use converge_core::context::{ContextFact, ContextKey, ContextState, ConvergeError, ProposedFact};
use converge_core::integrity::{ContentHash, MerkleRoot};
use converge_core::stop::{ErrorCategory, StopReason};

#[test]
fn empty_context_has_no_facts() {
    let ctx = ContextState::new();
    assert!(!ctx.has(ContextKey::Seeds));
    assert_eq!(ctx.version(), 0);
}

#[test]
fn adding_fact_increments_version() {
    let mut ctx = ContextState::new();
    let fact = ContextFact::new(ContextKey::Seeds, "seed-1", "initial value");
    let changed = ctx.add_fact(fact).expect("should add");
    assert!(changed);
    assert_eq!(ctx.version(), 1);
    assert!(ctx.has(ContextKey::Seeds));
}

#[test]
fn duplicate_fact_does_not_change_context() {
    let mut ctx = ContextState::new();
    let fact = ContextFact::new(ContextKey::Seeds, "seed-1", "initial");
    ctx.add_fact(fact.clone()).expect("should add first");
    let changed = ctx.add_fact(fact).expect("should not error on duplicate");
    assert!(!changed);
    assert_eq!(ctx.version(), 1);
}

#[test]
fn dirty_keys_track_new_facts_and_clear() {
    let mut ctx = ContextState::new();
    let fact = ContextFact::new(ContextKey::Hypotheses, "hyp-1", "value");
    ctx.add_fact(fact).expect("should add");
    assert_eq!(ctx.dirty_keys(), &[ContextKey::Hypotheses]);
    ctx.clear_dirty();
    assert!(ctx.dirty_keys().is_empty());
}

#[test]
fn detects_conflict() {
    let mut ctx = ContextState::new();
    ctx.add_fact(ContextFact::new(ContextKey::Seeds, "fact-1", "version A"))
        .unwrap();
    let result = ctx.add_fact(ContextFact::new(ContextKey::Seeds, "fact-1", "version B"));
    match result {
        Err(ConvergeError::Conflict {
            id, existing, new, ..
        }) => {
            assert_eq!(id, "fact-1");
            assert!(existing.contains("ContextFact"));
            assert!(new.contains("ContextFact"));
        }
        _ => panic!("Expected Conflict error, got {result:?}"),
    }
}

#[test]
fn adding_proposal_tracks_pending_state() {
    let mut ctx = ContextState::new();
    let proposal = ProposedFact::new(ContextKey::Hypotheses, "hyp-1", "market is growing", "context-input");
    assert!(ctx.add_proposal(proposal).unwrap());
    assert!(ctx.has_pending_proposals());
    assert_eq!(ctx.get_proposals(ContextKey::Hypotheses).len(), 1);
}

#[test]
fn conflicting_staged_inputs_are_rejected_before_promotion() {
    let mut ctx = ContextState::new();
    assert!(ctx
        .add_input_with_provenance(ContextKey::Seeds, "seed-1", "version A", "context-input")
        .unwrap());
    let result =
        ctx.add_input_with_provenance(ContextKey::Seeds, "seed-1", "version B", "context-input");
    match result {
        Err(ConvergeError::Conflict {
            id, existing, new, ..
        }) => {
            assert_eq!(id, "seed-1");
            assert!(existing.contains("ProposedFact"));
            assert!(new.contains("ProposedFact"));
        }
        _ => panic!("Expected Conflict error, got {result:?}"),
    }
    assert!(ctx.has_pending_proposals());
    assert_eq!(ctx.get_proposals(ContextKey::Seeds).len(), 1);
}

#[test]
fn snapshot_round_trips_facts_and_proposals() {
    let mut ctx = ContextState::new();
    ctx.add_fact(ContextFact::new(ContextKey::Seeds, "seed-1", "persisted seed"))
        .unwrap();
    ctx.add_proposal(ProposedFact::new(
        ContextKey::Hypotheses,
        "hyp-1",
        "staged hypothesis",
        "context-input",
    ))
    .unwrap();

    let restored = ContextState::from_snapshot(ctx.snapshot()).unwrap();

    assert_eq!(restored.version(), 1);
    assert!(restored.dirty_keys().is_empty());
    assert_eq!(restored.get(ContextKey::Seeds)[0].id(), "seed-1");
    assert_eq!(restored.get(ContextKey::Seeds)[0].text(), Some("persisted seed"));
    assert_eq!(restored.get_proposals(ContextKey::Hypotheses)[0].id(), "hyp-1");
}

#[test]
fn snapshot_rejects_fact_key_mismatch() {
    let mut ctx = ContextState::new();
    ctx.add_fact(ContextFact::new(ContextKey::Seeds, "seed-1", "value"))
        .unwrap();
    let mut snapshot = ctx.snapshot();
    let fact = snapshot.facts[ContextKey::Seeds.index()].pop().unwrap();
    snapshot.facts[ContextKey::Signals.index()].push(fact);

    let err = ContextState::from_snapshot(snapshot).unwrap_err();
    assert!(matches!(err, ConvergeError::InvalidSnapshot { .. }));
    assert!(err.to_text().contains("stored under Signals"));
}

#[test]
fn snapshot_rejects_merkle_mismatch() {
    let mut ctx = ContextState::new();
    ctx.add_fact(ContextFact::new(ContextKey::Seeds, "seed-1", "value"))
        .unwrap();
    let mut snapshot = ctx.snapshot();
    snapshot.merkle_root = MerkleRoot(ContentHash::compute("tampered"));

    let err = ContextState::from_snapshot(snapshot).unwrap_err();
    assert!(matches!(err, ConvergeError::InvalidSnapshot { .. }));
    assert!(err.to_text().contains("merkle root"));
}

#[test]
fn snapshot_rejects_duplicate_fact_ids() {
    let mut ctx = ContextState::new();
    ctx.add_fact(ContextFact::new(ContextKey::Seeds, "seed-1", "value"))
        .unwrap();
    let mut snapshot = ctx.snapshot();
    let duplicate = snapshot.facts[ContextKey::Seeds.index()][0].clone();
    snapshot.facts[ContextKey::Seeds.index()].push(duplicate);

    let err = ContextState::from_snapshot(snapshot).unwrap_err();
    assert!(matches!(err, ConvergeError::InvalidSnapshot { .. }));
    assert!(err.to_text().contains("duplicate fact"));
}

#[test]
fn test_context_key_indices_and_names() {
    for i in 0..9 {
        assert_eq!(ContextKey::from_index(i).index(), i);
    }
    assert_eq!(ContextKey::Seeds.name(), "Seeds");
    assert_eq!(ContextKey::Diagnostic.name(), "Diagnostic");
    let mut ctx = ContextState::new();
    ctx.add_input(ContextKey::Seeds, "s", "x").unwrap();
    assert_eq!(ctx.fact_count(), 0);
    let drained = ctx.drain_proposals();
    assert_eq!(drained.len(), 1);
    assert!(!ctx.has_pending_proposals());
}

#[test]
fn test_error_stop_reason_mapping() {
    let err = ConvergeError::BudgetExhausted {
        kind: "max_cycles (5)".into(),
    };
    assert!(err.context().is_none());
    assert_eq!(
        err.stop_reason(),
        StopReason::Error {
            message: "budget exhausted: max_cycles (5)".into(),
            category: ErrorCategory::Resource,
        }
    );
    assert_eq!(err.to_text(), "budget exhausted: max_cycles (5)");
    let snap = ConvergeError::InvalidSnapshot {
        reason: "bad".into(),
    };
    assert_eq!(snap.stop_reason().to_text(), "Error (Configuration): invalid context snapshot: bad");
}
