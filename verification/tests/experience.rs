use converge_core::experience_store::{
    ArtifactKind, ContractResult, ContractResultSnapshot, EventQuery, ExperienceStoreError,
};

#[test]
fn store_error_display_storage() {
    let e = ExperienceStoreError::StorageError {
        message: "disk full".into(),
    };
    assert!(e.to_text().contains("disk full"));
}

#[test]
fn store_error_display_invalid_query() {
    let e = ExperienceStoreError::InvalidQuery {
        message: "bad filter".into(),
    };
    assert!(e.to_text().contains("bad filter"));
}

#[test]
fn store_error_display_not_found() {
    let e = ExperienceStoreError::NotFound {
        message: "trace-99".into(),
    };
    assert!(e.to_text().contains("trace-99"));
}

#[test]
fn store_error_is_std_error() {
    let e = ExperienceStoreError::StorageError {
        message: "test".into(),
    };
    assert!(!e.to_text().is_empty());
}

#[test]
fn artifact_kind_equality_named() {
    assert_eq!(ArtifactKind::Adapter, ArtifactKind::Adapter);
    assert_ne!(ArtifactKind::Pack, ArtifactKind::Policy);
}

#[test]
fn artifact_kind_other_variant() {
    let a = ArtifactKind::Other("custom".into());
    let b = ArtifactKind::Other("custom".into());
    assert_eq!(a, b);
    assert_ne!(
        ArtifactKind::Other("x".into()),
        ArtifactKind::Other("y".into())
    );
}

#[test]
fn contract_result_snapshot_from_contract_result() {
    let cr = ContractResult {
        name: "schema-check".into(),
        passed: false,
        failure_reason: Some("missing field".into()),
    };
    let snap: ContractResultSnapshot = cr.into();
    assert_eq!(snap.name, "schema-check");
    assert!(!snap.passed);
    assert_eq!(snap.failure_reason.as_deref(), Some("missing field"));
}

#[test]
fn event_query_default_is_empty() {
    let q = EventQuery::default();
    assert!(q.tenant_id.is_none());
    assert!(q.kinds.is_empty());
    assert!(q.correlation_id.is_none());
    assert!(q.chain_id.is_none());
    assert!(q.limit.is_none());
}

#[test]
fn test_experience_store_error_texts() {
    assert_eq!(
        ExperienceStoreError::NotFound {
            message: "x".into()
        }
        .to_text(),
        "Not found: x"
    );
}
