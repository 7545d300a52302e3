use event_store::api::{EventsArgs, PushEventsArgs, RemoveEventsArgs};
use event_store::rng::{random_bytes, random_string, random_u128};
use event_store::state::State;
use event_store::types::{Anonymizable, IdempotentEvent};

fn random_principal() -> Vec<u8> {
    rand::random::<[u8; 4]>().to_vec()
}

fn install_state(time_granularity: Option<u64>) -> State {
    let mut state = State::new(
        vec![random_principal()],
        vec![random_principal()],
        vec![random_principal()],
        time_granularity,
    );
    state.set_salt(rand::random::<[u8; 32]>());
    state
}

fn plain_event(idempotency_key: u128, name: String, timestamp: u64, payload: Vec<u8>) -> IdempotentEvent {
    IdempotentEvent {
        idempotency_key,
        name,
        timestamp,
        user: None,
        source: None,
        payload,
    }
}

#[test]
fn push_then_read_events_succeeds() {
    let mut state = install_state(None);

    let events: Vec<IdempotentEvent> = (0..10)
        .map(|i| plain_event(random_u128(), random_string(), i, random_bytes()))
        .collect();
    state.push_events(PushEventsArgs { events }, 0);

    let read_response = state.events_inner(EventsArgs { start: 0, length: 5 });

    assert_eq!(read_response.events.len(), 5);
    assert_eq!(read_response.events.first().unwrap().index, 0);
    assert_eq!(read_response.events.last().unwrap().index, 4);
    assert_eq!(read_response.latest_event_index, Some(9));
}

#[test]
fn read_push_remove_events_succeeds() {
    let mut state = install_state(None);

    let events: Vec<IdempotentEvent> = (0..10)
        .map(|i| plain_event(random_u128(), random_string(), i, random_bytes()))
        .collect();
    state.push_events(PushEventsArgs { events }, 0);

    let read_response = state.events_inner(EventsArgs { start: 0, length: 5 });

    assert_eq!(read_response.events.len(), 5);
    assert_eq!(read_response.latest_event_index, Some(9));
    assert_eq!(read_response.earliest_event_index_stored, Some(0));

    let remove_response = state.remove_events(RemoveEventsArgs { up_to_inclusive: 5 });

    assert_eq!(remove_response.latest_event_index, Some(9));
    assert_eq!(remove_response.earliest_event_index_stored, Some(6));
}

fn anonymization_case(users: bool, sources: bool) {
    let mut state = install_state(None);

    let user = random_string();
    let source = random_string();

    state.push_events(
        PushEventsArgs {
            events: vec![IdempotentEvent {
                idempotency_key: random_u128(),
                name: random_string(),
                timestamp: 1000,
                user: Some(Anonymizable::new(user.clone(), users)),
                source: Some(Anonymizable::new(source.clone(), sources)),
                payload: Vec::new(),
            }],
        },
        0,
    );

    let event = state
        .events_inner(EventsArgs { start: 0, length: 1 })
        .events
        .pop()
        .unwrap();

    let user_returned = event.user.unwrap();
    let source_returned = event.source.unwrap();

    if users {
        assert_eq!(user_returned.len(), 32);
    } else {
        assert_eq!(user_returned, user);
    }

    if sources {
        assert_eq!(source_returned.len(), 32);
    } else {
        assert_eq!(source_returned, source);
    }
}

#[test]
fn users_and_source_can_be_anonymized() {
    anonymization_case(true, true);
    anonymization_case(false, true);
    anonymization_case(true, false);
    anonymization_case(false, false);
}

fn granularity_case(time_granularity: Option<u64>, expected: [u64; 3]) {
    let mut state = install_state(time_granularity);

    state.push_events(
        PushEventsArgs {
            events: vec![
                plain_event(random_u128(), random_string(), 1001, Vec::new()),
                plain_event(random_u128(), random_string(), 2150, Vec::new()),
                plain_event(random_u128(), random_string(), 3299, Vec::new()),
            ],
        },
        0,
    );

    let events = state.events_inner(EventsArgs { start: 0, length: 3 }).events;

    assert_eq!(events[0].timestamp, expected[0]);
    assert_eq!(events[1].timestamp, expected[1]);
    assert_eq!(events[2].timestamp, expected[2]);
}

#[test]
fn time_granularity_applied_correctly() {
    granularity_case(None, [1001, 2150, 3299]);
    granularity_case(Some(100), [1000, 2100, 3200]);
    granularity_case(Some(1000), [1000, 2000, 3000]);
}

#[test]
fn duplicate_within_window_stored_once() {
    let mut state = install_state(None);
    let key = random_u128();

    state.push_event(plain_event(key, random_string(), 1, Vec::new()), 1_000_000);
    state.push_event(plain_event(key, random_string(), 2, Vec::new()), 1_000_500);

    let read = state.events_inner(EventsArgs { start: 0, length: 10 });
    assert_eq!(read.events.len(), 1);
    assert_eq!(read.latest_event_index, Some(0));
}

#[test]
fn duplicate_after_window_may_store_again() {
    let mut state = install_state(None);
    let key = random_u128();

    state.push_event(plain_event(key, random_string(), 1, Vec::new()), 1_000_000);
    // More than the one-hour window later: the record is pruned and the same
    // token is accepted a second time, which the design explicitly allows.
    state.push_event(plain_event(key, random_string(), 2, Vec::new()), 1_000_000 + 3_600_001);

    let read = state.events_inner(EventsArgs { start: 0, length: 10 });
    assert_eq!(read.events.len(), 2);
}

#[test]
fn read_round_trips_stored_event() {
    let mut state = install_state(None);

    state.push_event(
        IdempotentEvent {
            idempotency_key: random_u128(),
            name: "signup".to_string(),
            timestamp: 1234,
            user: Some(Anonymizable::Public("alice".to_string())),
            source: Some(Anonymizable::Public("web".to_string())),
            payload: vec![1, 2, 3],
        },
        0,
    );

    let event = state
        .events_inner(EventsArgs { start: 0, length: 1 })
        .events
        .pop()
        .unwrap();
    assert_eq!(event.index, 0);
    assert_eq!(event.name, "signup");
    assert_eq!(event.timestamp, 1234);
    assert_eq!(event.user.as_deref(), Some("alice"));
    assert_eq!(event.source.as_deref(), Some("web"));
    assert_eq!(event.payload, vec![1, 2, 3]);
}

#[test]
fn anonymized_event_defers_until_salt_is_set() {
    let mut state = State::new(
        vec![random_principal()],
        vec![random_principal()],
        vec![random_principal()],
        None,
    );

    // No salt yet: an event with an anonymized field must wait, never be
    // dropped or stored unanonymized; a public-only event is stored at once.
    state.push_event(
        IdempotentEvent {
            idempotency_key: random_u128(),
            name: "needs-salt".to_string(),
            timestamp: 10,
            user: Some(Anonymizable::Anonymize("alice".to_string())),
            source: None,
            payload: Vec::new(),
        },
        0,
    );
    state.push_event(
        IdempotentEvent {
            idempotency_key: random_u128(),
            name: "public-only".to_string(),
            timestamp: 11,
            user: Some(Anonymizable::Public("bob".to_string())),
            source: None,
            payload: Vec::new(),
        },
        0,
    );

    let before = state.events_inner(EventsArgs { start: 0, length: 10 });
    assert_eq!(before.events.len(), 1);
    assert_eq!(before.events[0].name, "public-only");

    state.set_salt([7u8; 32]);

    let after = state.events_inner(EventsArgs { start: 0, length: 10 });
    assert_eq!(after.events.len(), 2);
    assert_eq!(after.events[1].name, "needs-salt");
    assert_eq!(after.events[1].user.as_ref().unwrap().len(), 32);
}

#[test]
fn migration_copies_legacy_dataset_in_order() {
    let mut state = install_state(None);

    let legacy: Vec<event_store::types::IndexedEvent> = (0..5)
        .map(|i| event_store::types::IndexedEvent {
            index: i,
            name: format!("legacy-{i}"),
            timestamp: 100 + i,
            user: Some(format!("user-{i}")),
            source: None,
            payload: vec![i as u8],
        })
        .collect();
    state.set_legacy_events(legacy.clone());

    let mut more = true;
    let mut ticks = 0;
    while more {
        more = state.migrate_events(2);
        ticks += 1;
        assert!(ticks < 100);
    }

    let read = state.events_inner(EventsArgs { start: 0, length: 10 });
    assert_eq!(read.events.len(), 5);
    for i in 0..5u64 {
        let got = &read.events[i as usize];
        let want = &legacy[i as usize];
        assert_eq!(got.index, i);
        assert_eq!(got.name, want.name);
        assert_eq!(got.timestamp, want.timestamp);
        assert_eq!(got.user, want.user);
        assert_eq!(got.payload, want.payload);
    }

    // Caught up: a further tick is a no-op.
    let more_after = state.migrate_events(2);
    assert!(!more_after);
    let read_after = state.events_inner(EventsArgs { start: 0, length: 10 });
    assert_eq!(read_after.events.len(), 5);
}

#[test]
fn authorization_errors_name_the_action() {
    let insider = vec![1u8, 2, 3];
    let outsider = vec![9u8, 9, 9];
    let state = State::new(vec![insider.clone()], vec![insider.clone()], vec![insider.clone()], None);

    assert!(event_store::guards::caller_can_push_events(&state, &insider).is_ok());
    assert_eq!(
        event_store::guards::caller_can_push_events(&state, &outsider).unwrap_err(),
        "Caller is not authorized to push events"
    );
    assert_eq!(
        event_store::guards::caller_can_read_events(&state, &outsider).unwrap_err(),
        "Caller is not authorized to read events"
    );
    assert_eq!(
        event_store::guards::caller_can_remove_events(&state, &outsider).unwrap_err(),
        "Caller is not authorized to remove events"
    );
    assert_eq!(event_store::guards::err_message("push"), "Caller is not authorized to push events");
}

#[test]
fn whitelists_are_reported_back() {
    let p = vec![1u8];
    let r = vec![2u8];
    let m = vec![3u8];
    let state = State::new(vec![p.clone()], vec![r.clone()], vec![m.clone()], None);
    let lists = state.whitelisted_principals();
    assert_eq!(lists.push, vec![p]);
    assert_eq!(lists.read, vec![r]);
    assert_eq!(lists.remove, vec![m]);
}
