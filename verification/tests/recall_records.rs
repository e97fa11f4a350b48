use converge_core::experience_store::{
    EngineOutcome, EngineRecordEnvelope, ExperienceRecord, OverrideTarget, UserExperienceEvent,
    UserExperienceEventEnvelope,
};
use converge_core::recall::{
    record_to_candidate, recall_event_query, recall_from_records, CandidateSourceType, RecallPolicy,
    RecallQuery, RelevanceLevel, UnitInterval,
};
use converge_core::stop::StopReason;
use converge_core::time::Timestamp;

fn override_record(id: &str, reason: &str) -> ExperienceRecord {
    let event = UserExperienceEvent::UserOverrideIssued {
        target: OverrideTarget::Constraint("budget".to_string()),
        actor: "alice".to_string(),
        policy_snapshot_hash: None,
        reason: reason.to_string(),
    };
    ExperienceRecord::User(UserExperienceEventEnvelope::new(id, event).with_timestamp("2026-01-01T00:00:00Z"))
}

fn approval_record(id: &str, reason: Option<&str>) -> ExperienceRecord {
    let event = UserExperienceEvent::UserApprovalGranted {
        gate_request_id: converge_core::ids::GateId("gate-1".to_string()),
        actor: "bob".to_string(),
        policy_snapshot_hash: None,
        reason: reason.map(|r| r.to_string()),
    };
    ExperienceRecord::User(UserExperienceEventEnvelope::new(id, event))
}

fn outcome_record(id: &str, passed: bool, stop_reason: Option<StopReason>) -> ExperienceRecord {
    ExperienceRecord::Engine(EngineRecordEnvelope {
        event_id: id.to_string(),
        occurred_at: Timestamp::new("2026-02-02T00:00:00Z"),
        tenant_id: None,
        correlation_id: None,
        outcome: Some(EngineOutcome { passed, stop_reason }),
    })
}

#[test]
fn override_record_becomes_anti_pattern_candidate() {
    let c = record_to_candidate(&override_record("evt-1", "too risky")).expect("candidate");
    assert_eq!(c.id, "evt-1");
    assert_eq!(c.summary, "user override: too risky");
    assert_eq!(c.confidence.to_basis_points(), 9000);
    assert_eq!(c.raw_score.to_basis_points(), 9000);
    assert_eq!(c.relevance, RelevanceLevel::High);
    assert_eq!(c.source_type, CandidateSourceType::AntiPattern);
    assert_eq!(c.provenance.created_at, "2026-01-01T00:00:00Z");
    assert_eq!(c.provenance.corpus_version, "experience-store-v0");
}

#[test]
fn approval_record_without_reason_says_granted() {
    let c = record_to_candidate(&approval_record("evt-2", None)).expect("candidate");
    assert_eq!(c.summary, "user approval: granted");
    assert_eq!(c.confidence.to_basis_points(), 7000);
    assert_eq!(c.relevance, RelevanceLevel::Medium);
    assert_eq!(c.source_type, CandidateSourceType::SimilarSuccess);
    assert_eq!(c.provenance.created_at, "1970-01-01T00:00:00Z");
}

#[test]
fn failed_outcome_record_becomes_failure_candidate() {
    let c = record_to_candidate(&outcome_record("evt-3", false, None)).expect("candidate");
    assert_eq!(c.summary, "outcome failed: unspecified");
    assert_eq!(c.confidence.to_basis_points(), 6000);
    assert_eq!(c.source_type, CandidateSourceType::SimilarFailure);
    assert!(record_to_candidate(&outcome_record("evt-4", true, None)).is_none());
    let converged = record_to_candidate(&outcome_record("evt-5", false, Some(StopReason::converged()))).unwrap();
    assert!(converged.summary.starts_with("outcome failed: "));
    assert!(converged.summary.len() > "outcome failed: ".len());
}

#[test]
fn engine_record_without_outcome_is_not_recalled() {
    let rec = ExperienceRecord::Engine(EngineRecordEnvelope {
        event_id: "evt-6".to_string(),
        occurred_at: Timestamp::new("2026-02-02T00:00:00Z"),
        tenant_id: None,
        correlation_id: None,
        outcome: None,
    });
    assert!(record_to_candidate(&rec).is_none());
}

#[test]
fn disabled_policy_recalls_nothing() {
    let records = vec![override_record("evt-1", "no")];
    let out = recall_from_records(&RecallPolicy::disabled(), &RecallQuery::new("q", 5), &records);
    assert!(out.is_empty());
}

#[test]
fn recall_takes_newest_first_over_threshold_up_to_limit() {
    let records = vec![
        override_record("old", "first"),
        outcome_record("failed", false, None),
        approval_record("mid", Some("fine")),
        outcome_record("passed", true, None),
        override_record("new", "latest"),
    ];
    let mut policy = RecallPolicy::enabled();
    policy.min_score_threshold = UnitInterval::from_basis_points(6500).unwrap();
    let out = recall_from_records(&policy, &RecallQuery::new("q", 2), &records);
    let ids: Vec<&str> = out.iter().map(|c| c.id.as_str()).collect();
    assert_eq!(ids, vec!["new", "mid"]);
    let all = recall_from_records(&policy, &RecallQuery::new("q", 10), &records);
    let ids: Vec<&str> = all.iter().map(|c| c.id.as_str()).collect();
    assert_eq!(ids, vec!["new", "mid", "old"]);
}

#[test]
fn recall_weights_confidence_by_prior_weight() {
    let records = vec![override_record("evt-1", "risky")];
    let mut policy = RecallPolicy::enabled();
    policy.prior_weight = UnitInterval::from_basis_points(5000).unwrap();
    let out = recall_from_records(&policy, &RecallQuery::new("q", 5), &records);
    assert_eq!(out.len(), 1);
    assert_eq!(out[0].confidence.to_basis_points(), 4500);
    assert_eq!(out[0].raw_score.to_basis_points(), 9000);
}

#[test]
fn recall_store_query_keeps_tenant() {
    let q = RecallQuery::new("q", 3).with_tenant_scope("acme");
    let eq = recall_event_query(&q);
    assert_eq!(eq.tenant_id.as_deref(), Some("acme"));
    assert!(eq.kinds.is_empty());
    assert!(recall_event_query(&RecallQuery::new("q", 3)).tenant_id.is_none());
}

struct MemoryStore {
    records: Vec<ExperienceRecord>,
    asked: std::cell::Cell<u32>,
}

impl converge_core::experience_store::ExperienceStore for MemoryStore {
    fn query_records(
        &self,
        query: &converge_core::experience_store::EventQuery,
    ) -> Result<Vec<ExperienceRecord>, converge_core::experience_store::ExperienceStoreError> {
        self.asked.set(self.asked.get() + 1);
        assert_eq!(query.tenant_id.as_deref(), Some("acme"));
        Ok(self.records.clone())
    }
}

#[test]
fn recall_from_store_asks_for_the_tenant_and_recalls() {
    let store = MemoryStore {
        records: vec![override_record("old", "first"), approval_record("new", None)],
        asked: std::cell::Cell::new(0),
    };
    let query = RecallQuery::new("q", 5).with_tenant_scope("acme");
    let out = converge_core::recall::recall_from_store(&store, &query, &RecallPolicy::enabled()).unwrap();
    let ids: Vec<&str> = out.iter().map(|c| c.id.as_str()).collect();
    assert_eq!(ids, vec!["new", "old"]);
    assert_eq!(store.asked.get(), 1);
    let none = converge_core::recall::recall_from_store(&store, &query, &RecallPolicy::disabled()).unwrap();
    assert!(none.is_empty());
    assert_eq!(store.asked.get(), 1);
}
