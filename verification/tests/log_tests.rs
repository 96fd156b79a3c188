use orgevents::events::Event;
use orgevents::log::EventLog;

fn registered(username: &str, email: &str) -> Event {
    Event::UserRegistered { username: username.to_string(), email: email.to_string() }
}

fn deleted(username: &str) -> Event {
    Event::UserDeleted { username: username.to_string() }
}

#[test]
fn append_with_matching_generation_commits_in_order() {
    let mut log = EventLog::new();
    assert_eq!(log.recorded_generation(), 0);
    let batch = vec![registered("a", "a@x"), deleted("a")];
    log.append(0, &batch).unwrap();
    assert_eq!(log.recorded_generation(), 2);
    assert_eq!(log.load(), &batch);
}

#[test]
fn append_with_stale_generation_is_rejected_and_commits_nothing() {
    let mut log = EventLog::new();
    log.append(0, &vec![registered("a", "a@x")]).unwrap();
    // A writer that still believes the log is at generation 0 must conflict.
    let conflict = log.append(0, &vec![registered("b", "b@x")]).unwrap_err();
    assert_eq!(conflict.expected_generation, 0);
    assert_eq!(conflict.recorded_generation, 1);
    // The rejected batch left no trace: same events, same generation.
    assert_eq!(log.load(), &vec![registered("a", "a@x")]);
    assert_eq!(log.recorded_generation(), 1);
}

#[test]
fn append_is_atomic_per_batch() {
    let mut log = EventLog::new();
    log.append(0, &vec![registered("a", "a@x")]).unwrap();
    let rejected = vec![registered("b", "b@x"), registered("c", "c@x")];
    assert!(log.append(99, &rejected).is_err());
    // None of the rejected batch's events was persisted.
    assert_eq!(log.load().len(), 1);
    let accepted = vec![registered("b", "b@x"), registered("c", "c@x")];
    log.append(1, &accepted).unwrap();
    assert_eq!(log.load().len(), 3);
    assert_eq!(log.recorded_generation(), 3);
}
