use converge_core::admission::{
    AdmissionActor, AdmissionActorKind, AdmissionContent, AdmissionError, AdmissionRequest,
    AdmissionSource,
};
use converge_core::context::{ContextKey, ContextState, ConvergeError};
use converge_core::integrity::ContentHash;

fn actor() -> AdmissionActor {
    AdmissionActor::new("organism-runtime", AdmissionActorKind::System).unwrap()
}

fn source() -> AdmissionSource {
    AdmissionSource::new("truth-document").unwrap()
}

fn content(value: &str) -> AdmissionContent {
    AdmissionContent::new(value).unwrap()
}

#[test]
fn admission_requires_actor_source_id_and_content() {
    assert_eq!(
        AdmissionActor::new("", AdmissionActorKind::System),
        Err(AdmissionError::EmptyActorId)
    );
    assert_eq!(AdmissionSource::new(" "), Err(AdmissionError::EmptySource));
    assert!(matches!(
        AdmissionRequest::new(
            actor(),
            source(),
            ContextKey::Seeds,
            "",
            content("claim payload")
        ),
        Err(AdmissionError::EmptyAdmissionId)
    ));
    assert_eq!(
        AdmissionContent::new(" "),
        Err(AdmissionError::EmptyContent)
    );
}

#[test]
fn admission_stages_proposal_not_fact() {
    let mut context = ContextState::new();
    let request = AdmissionRequest::new(
        actor(),
        source(),
        ContextKey::Seeds,
        "truth-doc-1",
        content(r#"{"claim":"approved source"}"#),
    )
    .unwrap()
    .with_target_truth("truth-1");

    let receipt = context.submit_observation(request).unwrap();

    assert!(receipt.staged());
    assert_eq!(receipt.key(), ContextKey::Seeds);
    assert_eq!(receipt.proposal_id().as_str(), "truth-doc-1");
    assert_eq!(
        receipt.target_truth_id().map(String::as_str),
        Some("truth-1")
    );
    assert!(!context.has(ContextKey::Seeds));
    assert_eq!(context.get_proposals(ContextKey::Seeds).len(), 1);
}

#[test]
fn duplicate_admission_is_idempotent_when_payload_matches() {
    let mut context = ContextState::new();
    let request = AdmissionRequest::new(
        actor(),
        source(),
        ContextKey::Seeds,
        "truth-doc-1",
        content("same payload"),
    )
    .unwrap();

    let first = context.submit_observation(request.clone()).unwrap();
    let second = context.submit_observation(request).unwrap();

    assert!(first.staged());
    assert!(!second.staged());
    assert_eq!(first.content_hash(), second.content_hash());
    assert_eq!(context.get_proposals(ContextKey::Seeds).len(), 1);
}

#[test]
fn duplicate_admission_rejects_conflicting_payload() {
    let mut context = ContextState::new();
    let first = AdmissionRequest::new(
        actor(),
        source(),
        ContextKey::Seeds,
        "truth-doc-1",
        content("first payload"),
    )
    .unwrap();
    let second = AdmissionRequest::new(
        actor(),
        source(),
        ContextKey::Seeds,
        "truth-doc-1",
        content("second payload"),
    )
    .unwrap();

    context.submit_observation(first).unwrap();
    let err = context.submit_observation(second).unwrap_err();

    assert!(matches!(err, ConvergeError::Conflict { .. }));
    assert_eq!(context.get_proposals(ContextKey::Seeds).len(), 1);
}

#[test]
fn test_admission_errors_and_receipt_hash() {
    assert_eq!(
        AdmissionActor::new("  ", AdmissionActorKind::Human),
        Err(AdmissionError::EmptyActorId)
    );
    assert!(AdmissionRequest::new(actor(), source(), ContextKey::Seeds, " ", content("x")).is_err());
    let mut context = ContextState::new();
    let request =
        AdmissionRequest::new(actor(), source(), ContextKey::Signals, "sig-1", content("ping"))
            .unwrap();
    let receipt = context.submit_observation(request).unwrap();
    assert_eq!(receipt.content_hash(), &ContentHash::compute("ping"));
    assert!(receipt.target_truth_id().is_none());
    let staged = context.get_proposals(ContextKey::Signals);
    assert_eq!(staged[0].content, "ping");
    assert!(!AdmissionError::EmptyContent.to_text().is_empty());
}
