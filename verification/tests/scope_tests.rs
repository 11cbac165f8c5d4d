//! The job lifecycle states and their wire words.

use gitlabjob::JobScope;

#[test]
fn scope_to_str_words() {
    assert_eq!(JobScope::Created.to_str(), "created");
    assert_eq!(JobScope::Pending.to_str(), "pending");
    assert_eq!(JobScope::Running.to_str(), "running");
    assert_eq!(JobScope::Failed.to_str(), "failed");
    assert_eq!(JobScope::Success.to_str(), "success");
    assert_eq!(JobScope::Canceled.to_str(), "canceled");
    assert_eq!(JobScope::Skipped.to_str(), "skipped");
    assert_eq!(JobScope::WaitingForResource.to_str(), "waiting_for_resource");
    assert_eq!(JobScope::Manual.to_str(), "manual");
    assert_eq!(JobScope::Invalid.to_str(), "invalid");
}

#[test]
fn scope_round_trip_all_defined_variants() {
    let variants = [
        JobScope::Created,
        JobScope::Pending,
        JobScope::Running,
        JobScope::Failed,
        JobScope::Success,
        JobScope::Canceled,
        JobScope::Skipped,
        JobScope::WaitingForResource,
        JobScope::Manual,
    ];
    for v in variants {
        let word = v.to_str().to_string();
        assert_eq!(JobScope::from(word), v);
    }
}

#[test]
fn scope_unrecognized_words_become_invalid() {
    assert_eq!(JobScope::from(String::new()), JobScope::Invalid);
    assert_eq!(JobScope::from("succeeded".to_string()), JobScope::Invalid);
    assert_eq!(JobScope::from("running ".to_string()), JobScope::Invalid);
    assert_eq!(JobScope::from("pend".to_string()), JobScope::Invalid);
    assert_eq!(JobScope::from("\"success\"".to_string()), JobScope::Invalid);
}

#[test]
fn scope_parsing_ignores_ascii_case() {
    assert_eq!(JobScope::from("SUCCESS".to_string()), JobScope::Success);
    assert_eq!(JobScope::from("Manual".to_string()), JobScope::Manual);
    assert_eq!(
        JobScope::from("Waiting_For_Resource".to_string()),
        JobScope::WaitingForResource
    );
}
