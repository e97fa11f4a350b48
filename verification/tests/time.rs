use converge_core::ids::IntentId;
use converge_core::time::{iso8601, Timestamp};

#[test]
fn test_iso8601_known_instants() {
    assert_eq!(iso8601(0), "1970-01-01T00:00:00Z");
    assert_eq!(iso8601(86399), "1970-01-01T23:59:59Z");
    assert_eq!(iso8601(951782400), "2000-02-29T00:00:00Z");
    assert_eq!(iso8601(1700000000), "2023-11-14T22:13:20Z");
    assert_eq!(Timestamp::epoch().as_str(), "1970-01-01T00:00:00Z");
}

#[test]
fn test_now_is_an_iso8601_instant_after_2020() {
    let now = Timestamp::now();
    let text = now.as_str();
    assert_eq!(text.len(), 20);
    assert!(text.ends_with('Z'));
    assert!(text.as_bytes()[10] == b'T');
    assert!(text > "2020-01-01T00:00:00Z");
}

#[test]
fn test_generated_intent_ids_have_the_intent_prefix() {
    let id = IntentId::generate();
    let text = id.as_str();
    assert!(text.starts_with("intent-"));
    assert!(text["intent-".len()..].chars().all(|c| c.is_ascii_digit()));
}
