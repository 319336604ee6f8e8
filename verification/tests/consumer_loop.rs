//! The retry loop: the four-failure cutoff, counter resets, and readiness.

use featureflags::consumer::{ConsumerState, ReadError, SourceEvent, StepAction};
use featureflags::message::{InitData, Message};
use featureflags::store::MemoryStore;

fn put_event() -> SourceEvent {
    SourceEvent::Message(Message::Put(InitData { flags: vec![] }))
}

#[test]
fn four_failures_end_with_retry_failed() {
    let mut store = MemoryStore::new();
    let events = vec![
        SourceEvent::Failure,
        SourceEvent::Failure,
        SourceEvent::Failure,
        SourceEvent::Failure,
    ];
    assert_eq!(Err(ReadError::RetryFailed), store.read_from(events));
}

#[test]
fn three_failures_and_an_end_drop_the_task() {
    let mut store = MemoryStore::new();
    let events = vec![SourceEvent::Failure, SourceEvent::Failure, SourceEvent::Failure];
    assert_eq!(Err(ReadError::TaskDropped), store.read_from(events));
}

#[test]
fn a_message_resets_the_failure_counter() {
    let mut store = MemoryStore::new();
    let events = vec![
        SourceEvent::Failure,
        SourceEvent::Failure,
        SourceEvent::Failure,
        put_event(),
        SourceEvent::Failure,
        SourceEvent::Failure,
        SourceEvent::Failure,
    ];
    assert_eq!(Ok(()), store.read_from(events));
}

#[test]
fn readiness_survives_later_failures() {
    let mut store = MemoryStore::new();
    let mut events = vec![put_event()];
    for _ in 0..4 {
        events.push(SourceEvent::Failure);
    }
    assert_eq!(Ok(()), store.read_from(events));
}

#[test]
fn pending_message_does_not_signal_readiness() {
    let mut store = MemoryStore::new();
    let msg = Message::Patch(featureflags::message::Update::Flag {
        name: "a".to_string(),
        data: None,
        version: Some(1),
    });
    // a partial patch is absorbed as done, so it does signal readiness;
    // a well-formed patch before the put stays pending and does not
    let pending = Message::Patch(featureflags::message::Update::Flag {
        name: "a".to_string(),
        data: Some(sample_flag()),
        version: None,
    });
    assert_eq!(Err(ReadError::TaskDropped), store.read_from(vec![SourceEvent::Message(pending)]));
    assert_eq!(Ok(()), store.read_from(vec![SourceEvent::Message(msg)]));
}

#[test]
fn step_asks_for_restart_then_gives_up() {
    let mut store = MemoryStore::new();
    let mut state = ConsumerState::new();
    assert_eq!(StepAction::Restart, state.step(&mut store, SourceEvent::Failure));
    assert_eq!(StepAction::Restart, state.step(&mut store, SourceEvent::Failure));
    assert_eq!(StepAction::Restart, state.step(&mut store, SourceEvent::Failure));
    assert_eq!(StepAction::GiveUp, state.step(&mut store, SourceEvent::Failure));
    assert_eq!(Some(Err(ReadError::RetryFailed)), state.readiness());
}

#[test]
fn step_continues_on_messages() {
    let mut store = MemoryStore::new();
    let mut state = ConsumerState::new();
    assert_eq!(None, state.readiness());
    assert_eq!(StepAction::Continue, state.step(&mut store, put_event()));
    assert_eq!(Some(Ok(())), state.readiness());
}

fn sample_flag() -> featureflags::models::FeatureFlagState {
    featureflags::models::FeatureFlagState {
        client_side: false,
        client_side_availability: featureflags::models::ClientSideAvailability {
            using_environment_id: false,
            using_mobile_key: false,
        },
        deleted: false,
        fallthrough: featureflags::models::Fallthrough { variation: Some(0), rollout: None },
        key: "a".to_string(),
        off_variation: 0,
        on: true,
        prerequisites: vec![],
        rules: vec![],
        salt: "s".to_string(),
        targets: vec![],
        track_events: false,
        track_events_fallthrough: false,
        variations: vec![featureflags::models::Variation::Bool(false)],
        version: 1,
    }
}
