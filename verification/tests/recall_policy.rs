use converge_core::recall::{
    recall_use_allowed, CandidateScore, RecallConsumer, RecallPolicy, RecallProvenanceEnvelope,
    RecallUse, RelevanceLevel, UnitInterval,
};

#[test]
fn test_recall_policy_enabled() {
    let policy = RecallPolicy::enabled();
    assert!(policy.enabled);
}

#[test]
fn test_recall_policy_disabled() {
    let policy = RecallPolicy::disabled();
    assert!(!policy.enabled);
}

#[test]
fn test_relevance_from_score() {
    assert_eq!(
        RelevanceLevel::from_score(UnitInterval::from_basis_points(9000).unwrap()),
        RelevanceLevel::High
    );
    assert_eq!(
        RelevanceLevel::from_score(UnitInterval::from_basis_points(6000).unwrap()),
        RelevanceLevel::Medium
    );
    assert_eq!(
        RelevanceLevel::from_score(UnitInterval::from_basis_points(3000).unwrap()),
        RelevanceLevel::Low
    );
}

#[test]
fn test_recall_policy_defaults_to_runtime_only() {
    let policy = RecallPolicy::default();
    assert!(policy.allowed_uses.contains(&RecallUse::RuntimeAugmentation));
    assert!(!policy
        .allowed_uses
        .contains(&RecallUse::TrainingCandidateSelection));
}

#[test]
fn test_recall_training_purpose_is_blocked_in_kernel() {
    let policy = RecallPolicy {
        allowed_uses: vec![RecallUse::RuntimeAugmentation],
        ..Default::default()
    };
    assert!(recall_use_allowed(&policy, RecallUse::RuntimeAugmentation));
    assert!(!recall_use_allowed(
        &policy,
        RecallUse::TrainingCandidateSelection
    ));
}

#[test]
fn test_recall_training_can_be_explicitly_enabled() {
    let policy = RecallPolicy {
        allowed_uses: vec![
            RecallUse::RuntimeAugmentation,
            RecallUse::TrainingCandidateSelection,
        ],
        ..Default::default()
    };
    assert!(recall_use_allowed(&policy, RecallUse::RuntimeAugmentation));
    assert!(recall_use_allowed(
        &policy,
        RecallUse::TrainingCandidateSelection
    ));
}

#[test]
fn test_policy_hash_deterministic() {
    let policy = RecallPolicy::default();
    let hash1 = policy.snapshot_hash();
    let hash2 = policy.snapshot_hash();
    assert_eq!(hash1, hash2, "Same policy must produce same hash");
}

#[test]
fn test_policy_hash_changes_with_allowed_uses() {
    let policy1 = RecallPolicy::default();
    let policy2 = RecallPolicy {
        allowed_uses: vec![
            RecallUse::RuntimeAugmentation,
            RecallUse::TrainingCandidateSelection,
        ],
        ..Default::default()
    };
    assert_ne!(policy1.snapshot_hash(), policy2.snapshot_hash());
}

fn sample_envelope() -> RecallProvenanceEnvelope {
    RecallProvenanceEnvelope {
        query_hash: "q".to_string(),
        embedding_input_hash: "e".to_string(),
        embedding_hash: "h".to_string(),
        embedder_id: "id".to_string(),
        embedder_settings_hash: "s".to_string(),
        corpus_fingerprint: "c".to_string(),
        policy_snapshot_hash: "p".to_string(),
        purpose: RecallUse::RuntimeAugmentation,
        consumers: vec![RecallConsumer::Kernel],
        candidate_scores: vec![],
        candidates_searched: 10,
        candidates_returned: 2,
        stop_reason: None,
        latency_ms: 10,
        timestamp: "t".to_string(),
        signature: "unsigned".to_string(),
    }
}

#[test]
fn test_recall_provenance_matches_for_replay() {
    let env = sample_envelope();
    assert!(env.matches_for_replay(&env.clone()));
    let mut env2 = env.clone();
    env2.purpose = RecallUse::TrainingCandidateSelection;
    assert!(!env.matches_for_replay(&env2));
    let mut env3 = env.clone();
    env3.consumers = vec![RecallConsumer::Trainer];
    assert!(!env.matches_for_replay(&env3));
}

#[test]
fn test_envelope_hash_and_summary() {
    let env = sample_envelope();
    let h = env.envelope_hash();
    assert_eq!(h.len(), 64);
    assert_eq!(h, env.clone().envelope_hash());
    let mut later = env.clone();
    later.latency_ms = 11;
    assert_ne!(h, later.envelope_hash());
    // latency is not part of the replay identity
    assert!(env.matches_for_replay(&later));
    let mut scored = env.clone();
    scored.candidate_scores = vec![CandidateScore {
        id: "cand-1".into(),
        score: UnitInterval::one(),
    }];
    assert!(!env.matches_for_replay(&scored));
    assert_ne!(h, scored.envelope_hash());
    let mut long = env.clone();
    long.query_hash = "0123456789abcdef".into();
    assert_eq!(
        long.summary(),
        "Recall[query:01234567...][corpus:c...][2/10 candidates][10ms]"
    );
}

#[test]
fn test_unit_interval_bounds() {
    assert!(UnitInterval::from_basis_points(10001).is_none());
    assert_eq!(UnitInterval::clamped_basis_points(20000).to_basis_points(), 10000);
    assert_eq!(UnitInterval::zero().to_basis_points(), 0);
    assert_eq!(RecallPolicy::default().min_score_threshold.to_basis_points(), 5000);
}
