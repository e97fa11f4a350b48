use converge_core::context::{ContextFact, ContextKey, ContextState, ProposedFact};
use converge_core::integrity::{ContentHash, LamportClock, MerkleRoot, TrackedContext};

#[test]
fn lamport_clock_starts_at_zero() {
    let clock = LamportClock::new();
    assert_eq!(clock.time(), 0);
}

#[test]
fn lamport_clock_tick_increments() {
    let mut clock = LamportClock::new();
    assert_eq!(clock.tick(), 1);
    assert_eq!(clock.tick(), 2);
    assert_eq!(clock.tick(), 3);
}

#[test]
fn lamport_clock_update_takes_max_plus_one() {
    let mut clock = LamportClock::new();
    clock.tick();
    clock.tick();

    assert_eq!(clock.update(5), 6);

    assert_eq!(clock.update(3), 7);
}

#[test]
fn content_hash_is_deterministic() {
    let h1 = ContentHash::compute("hello world");
    let h2 = ContentHash::compute("hello world");
    assert_eq!(h1, h2);
}

#[test]
fn content_hash_changes_with_content() {
    let h1 = ContentHash::compute("hello");
    let h2 = ContentHash::compute("world");
    assert_ne!(h1, h2);
}

#[test]
fn content_hash_verify_works() {
    let hash = ContentHash::compute("test");
    assert!(hash.verify("test"));
    assert!(!hash.verify("modified"));
}

#[test]
fn content_hash_hex_roundtrip() {
    let original = ContentHash::compute("test content");
    let hex = original.to_hex();
    let restored = ContentHash::from_hex(&hex).unwrap();
    assert_eq!(original, restored);
}

#[test]
fn merkle_root_empty_list() {
    let root = MerkleRoot::compute(&[]);
    let empty_hash = ContentHash::compute("");
    assert_eq!(root.0, empty_hash);
}

#[test]
fn merkle_root_is_deterministic() {
    let hashes = vec![
        ContentHash::compute("a"),
        ContentHash::compute("b"),
        ContentHash::compute("c"),
    ];
    let root1 = MerkleRoot::compute(&hashes);
    let root2 = MerkleRoot::compute(&hashes);
    assert_eq!(root1, root2);
}

#[test]
fn merkle_root_changes_with_different_content() {
    let hashes1 = vec![ContentHash::compute("a"), ContentHash::compute("b")];
    let hashes2 = vec![ContentHash::compute("a"), ContentHash::compute("c")];
    let root1 = MerkleRoot::compute(&hashes1);
    let root2 = MerkleRoot::compute(&hashes2);
    assert_ne!(root1, root2);
}

#[test]
fn test_sha256_known_digest() {
    // SHA-256 of the empty string.
    assert_eq!(
        ContentHash::compute("").to_hex(),
        "e3b0c44298fc1c149afbf4c8996fb92427ae41e4649b934ca495991b7852b855"
    );
    assert_eq!(
        ContentHash::compute("abc").to_hex(),
        "ba7816bf8f01cfea414140de5dae2223b00361a396177a9cb410ff61f20015ad"
    );
    assert_eq!(ContentHash::zero().to_hex(), "0".repeat(64));
}

#[test]
fn test_hex_rejects_bad_input() {
    assert!(ContentHash::from_hex("abc").is_err());
    assert!(ContentHash::from_hex(&"zz".repeat(32)).is_err());
    let upper = "BA7816BF8F01CFEA414140DE5DAE2223B00361A396177A9CB410FF61F20015AD";
    assert_eq!(
        ContentHash::from_hex(upper).unwrap(),
        ContentHash::compute("abc")
    );
}

#[test]
fn test_merkle_single_leaf_combines_with_itself() {
    let leaf = ContentHash::compute("only");
    let root = MerkleRoot::compute(&[leaf.clone()]);
    assert_eq!(root.0, ContentHash::combine(&leaf, &leaf));
    let pair = MerkleRoot::compute(&[ContentHash::compute("a"), ContentHash::compute("b")]);
    assert_eq!(
        pair.0,
        ContentHash::combine(&ContentHash::compute("a"), &ContentHash::compute("b"))
    );
    assert_ne!(
        ContentHash::combine(&ContentHash::compute("a"), &ContentHash::compute("b")),
        ContentHash::combine(&ContentHash::compute("b"), &ContentHash::compute("a"))
    );
}

#[test]
fn test_lamport_update_never_goes_back() {
    let mut clock = LamportClock::at(10);
    assert_eq!(clock.update(2), 11);
    assert_eq!(clock.time(), 11);
}

#[test]
fn test_tracked_context_verifies_and_ticks() {
    let mut ledger = TrackedContext::empty();
    assert!(ledger.verify_integrity());
    assert_eq!(ledger.clock_time(), 0);
    let added = ledger
        .add_fact(ContextFact::new(ContextKey::Seeds, "s1", "hello"))
        .unwrap();
    assert!(added);
    assert!(ledger.verify_integrity());
    assert_eq!(ledger.clock_time(), 1);
    let again = ledger
        .add_fact(ContextFact::new(ContextKey::Seeds, "s1", "hello"))
        .unwrap();
    assert!(!again);
    assert!(ledger
        .add_fact(ContextFact::new(ContextKey::Seeds, "s1", "other"))
        .is_err());
    assert_eq!(ledger.merkle_root(), MerkleRoot::from_context(&ledger.context));
}

#[test]
fn test_fact_hash_covers_key_id_and_content() {
    let fact = ContextFact::new(ContextKey::Seeds, "s1", "hello");
    assert_eq!(
        ContentHash::compute_fact(&fact),
        ContentHash::compute("Seeds|s1|hello")
    );
    let mut ctx = ContextState::new();
    ctx.add_fact(fact).unwrap();
    let root = MerkleRoot::from_context(&ctx);
    let leaf = ContentHash::compute("Seeds|s1|hello");
    assert_eq!(root.0, ContentHash::combine(&leaf, &leaf));
}

#[test]
fn merkle_root_single_element() {
    let h = ContentHash::compute("only element");
    let root = MerkleRoot::compute(std::slice::from_ref(&h));
    let expected = ContentHash::combine(&h, &h);
    assert_eq!(root.0, expected);
}

#[test]
fn merkle_root_two_elements() {
    let h1 = ContentHash::compute("first");
    let h2 = ContentHash::compute("second");
    let root = MerkleRoot::compute(&[h1.clone(), h2.clone()]);
    let expected = ContentHash::combine(&h1, &h2);
    assert_eq!(root.0, expected);
}

#[test]
fn tracked_context_starts_empty() {
    let ledger = TrackedContext::empty();
    assert_eq!(ledger.clock_time(), 0);
    assert!(!ledger.context.has(ContextKey::Seeds));
}

#[test]
fn tracked_context_ticks_on_add() {
    let mut ledger = TrackedContext::empty();
    assert_eq!(ledger.clock_time(), 0);
    ledger
        .add_fact(ContextFact::new(ContextKey::Seeds, "s1", "seed"))
        .unwrap();
    assert_eq!(ledger.clock_time(), 1);
    ledger
        .add_fact(ContextFact::new(ContextKey::Seeds, "s2", "seed2"))
        .unwrap();
    assert_eq!(ledger.clock_time(), 2);
}

#[test]
fn tracked_context_computes_merkle_root() {
    let mut ledger = TrackedContext::empty();
    ledger
        .add_fact(ContextFact::new(ContextKey::Seeds, "s1", "first"))
        .unwrap();
    ledger
        .add_fact(ContextFact::new(ContextKey::Seeds, "s2", "second"))
        .unwrap();
    let root1 = ledger.merkle_root().clone();
    ledger
        .add_fact(ContextFact::new(ContextKey::Seeds, "s3", "third"))
        .unwrap();
    let root2 = ledger.merkle_root().clone();
    assert_ne!(root1, root2);
}

#[test]
fn tracked_context_verifies_integrity() {
    let mut ledger = TrackedContext::empty();
    ledger
        .add_fact(ContextFact::new(ContextKey::Seeds, "s1", "test"))
        .unwrap();
    assert!(ledger.verify_integrity());
}

#[test]
fn integrity_proof_changes_with_different_facts() {
    let mut t1 = TrackedContext::empty();
    t1.add_fact(ContextFact::new(ContextKey::Seeds, "s1", "alpha"))
        .unwrap();
    let proof1 = t1.extract_proof();

    let mut t2 = TrackedContext::empty();
    t2.add_fact(ContextFact::new(ContextKey::Seeds, "s1", "beta"))
        .unwrap();
    let proof2 = t2.extract_proof();

    assert_ne!(proof1.merkle_root, proof2.merkle_root);
    assert_eq!(proof1.clock_time, proof2.clock_time);
    assert_eq!(proof1.fact_count, proof2.fact_count);
}

#[test]
fn tracked_context_stages_proposals_once() {
    let mut ledger = TrackedContext::empty();
    let first = ProposedFact::new(ContextKey::Hypotheses, "h1", "grows", "input");
    assert!(ledger.add_proposal(first.clone()).unwrap());
    assert!(!ledger.add_proposal(first).unwrap());
    let other = ProposedFact::new(ContextKey::Hypotheses, "h1", "shrinks", "input");
    assert!(ledger.add_proposal(other).is_err());
    assert_eq!(ledger.context.get_proposals(ContextKey::Hypotheses).len(), 1);
    assert_eq!(ledger.clock_time(), 0);
}
