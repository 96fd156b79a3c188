use orgevents::events::Command;
use orgevents::events::CommandError;
use orgevents::events::Event;
use orgevents::events::RejectionReason;
use orgevents::log::EventLog;
use orgevents::runtime::AggregateRuntime;

const VERSION: &str = "1.0";
const SOURCE: &str = "events://kanello.de/organization";

fn runtime() -> AggregateRuntime {
    AggregateRuntime::new(VERSION.to_string(), SOURCE.to_string())
}

fn register(username: &str, email: &str) -> Command {
    Command::RegisterUser { username: username.to_string(), email: email.to_string() }
}

fn delete(username: &str) -> Command {
    Command::DeleteUser { username: username.to_string() }
}

fn registered(username: &str, email: &str) -> Event {
    Event::UserRegistered { username: username.to_string(), email: email.to_string() }
}

#[test]
fn end_to_end_register_then_delete() {
    let mut rt = runtime();
    let mut log = EventLog::new();
    assert_eq!(rt.state.generation, 0);
    assert!(rt.state.taken_usernames.is_empty());

    let committed = rt.submit(&mut log, &register("Peter", "peter@foo.bar")).unwrap();
    assert_eq!(committed, vec![registered("Peter", "peter@foo.bar")]);
    assert_eq!(rt.state.taken_usernames, vec!["Peter".to_string()]);
    assert_eq!(rt.state.generation, 1);

    let committed = rt.submit(&mut log, &delete("Peter")).unwrap();
    assert_eq!(
        committed,
        vec![Event::UserDeleted { username: "Peter".to_string() }]
    );
    assert!(rt.state.taken_usernames.is_empty());
    assert_eq!(rt.state.generation, 2);
    assert_eq!(log.recorded_generation(), 2);
}

#[test]
fn second_registration_of_the_same_username_is_rejected() {
    let mut rt = runtime();
    let mut log = EventLog::new();
    assert!(rt.submit(&mut log, &register("peter", "p@foo.bar")).is_ok());
    let err = rt.submit(&mut log, &register("peter", "again@foo.bar")).unwrap_err();
    assert_eq!(err, CommandError::Rejected(RejectionReason::UsernameTaken));
    // The username is taken exactly once, and the rejection changed nothing.
    let count = rt
        .state
        .taken_usernames
        .iter()
        .filter(|u| u.as_str() == "peter")
        .count();
    assert_eq!(count, 1);
    assert_eq!(rt.state.generation, 1);
    assert_eq!(log.recorded_generation(), 1);
}

#[test]
fn rejected_command_persists_nothing() {
    let mut rt = runtime();
    let mut log = EventLog::new();
    rt.submit(&mut log, &register("a", "a@x")).unwrap();
    let before = log.load().clone();
    assert!(rt.submit(&mut log, &register("a", "a@x")).is_err());
    assert_eq!(log.load(), &before);
}

#[test]
fn conflicting_append_is_reported_and_applies_nothing() {
    let mut rt = runtime();
    let mut log = EventLog::new();
    // Some external writer advances the log behind the runtime's back.
    log.append(0, &vec![registered("intruder", "i@x")]).unwrap();

    let err = rt.submit(&mut log, &register("Peter", "peter@foo.bar")).unwrap_err();
    match err {
        CommandError::Conflict(conflict) => {
            assert_eq!(conflict.expected_generation, 0);
            assert_eq!(conflict.recorded_generation, 1);
        }
        other => panic!("expected a conflict, got {:?}", other),
    }
    // No evolution happened: the runtime's state is untouched, and the log
    // still holds only the external writer's event.
    assert_eq!(rt.state.generation, 0);
    assert!(rt.state.taken_usernames.is_empty());
    assert_eq!(log.load().len(), 1);
}

#[test]
fn distinct_registrations_all_succeed_with_no_lost_update() {
    let mut rt = runtime();
    let mut log = EventLog::new();
    let users = ["a", "b", "c", "d", "e"];
    for u in users.iter() {
        let committed = rt.submit(&mut log, &register(u, "mail@x")).unwrap();
        assert_eq!(committed.len(), 1);
    }
    assert_eq!(rt.state.generation, users.len() as u64);
    assert_eq!(rt.state.taken_usernames.len(), users.len());
    for u in users.iter() {
        assert!(rt.state.taken_usernames.contains(&u.to_string()));
    }
}

#[test]
fn replay_reconstructs_the_state_from_the_log() {
    let mut rt = runtime();
    let mut log = EventLog::new();
    rt.submit(&mut log, &register("a", "a@x")).unwrap();
    rt.submit(&mut log, &register("b", "b@x")).unwrap();
    rt.submit(&mut log, &delete("a")).unwrap();

    let replayed = AggregateRuntime::replay(&log, VERSION.to_string(), SOURCE.to_string());
    assert_eq!(replayed.state.taken_usernames, rt.state.taken_usernames);
    assert_eq!(replayed.state.generation, 3);
}

#[test]
fn envelopes_carry_tag_version_source_and_event() {
    let rt = runtime();
    let event = registered("Peter", "peter@foo.bar");
    let envelope = rt.wrap(&event);
    assert_eq!(envelope.event_type, "UserRegistered".to_string());
    assert_eq!(envelope.version, VERSION.to_string());
    assert_eq!(envelope.source, SOURCE.to_string());
    assert_eq!(envelope.event, event);
}

#[test]
fn wrap_all_keeps_the_event_order() {
    let rt = runtime();
    let events = vec![
        registered("a", "a@x"),
        Event::UserDeleted { username: "a".to_string() },
    ];
    let envelopes = rt.wrap_all(&events);
    assert_eq!(envelopes.len(), 2);
    assert_eq!(envelopes[0].event, events[0]);
    assert_eq!(envelopes[0].event_type, "UserRegistered".to_string());
    assert_eq!(envelopes[1].event, events[1]);
    assert_eq!(envelopes[1].event_type, "UserDeleted".to_string());
}
