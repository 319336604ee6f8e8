//! The store's version and ordering rules: monotonic patches and deletes,
//! and the pre-initialization guard.

use featureflags::consumer::InitState;
use featureflags::message::{InitData, Message, Update};
use featureflags::models::{ClientSideAvailability, Fallthrough, FeatureFlagState, Variation};
use featureflags::store::MemoryStore;

fn flag_with_version(key: &str, version: u64) -> FeatureFlagState {
    FeatureFlagState {
        client_side: false,
        client_side_availability: ClientSideAvailability {
            using_environment_id: false,
            using_mobile_key: false,
        },
        deleted: false,
        fallthrough: Fallthrough { variation: Some(0), rollout: None },
        key: key.to_string(),
        off_variation: 0,
        on: true,
        prerequisites: vec![],
        rules: vec![],
        salt: "test-salt".to_string(),
        targets: vec![],
        track_events: false,
        track_events_fallthrough: false,
        variations: vec![Variation::Bool(false), Variation::Bool(true)],
        version,
    }
}

fn initialized_store(key: &str, version: u64) -> MemoryStore {
    let mut store = MemoryStore::new();
    let state = store.apply(Message::Put(InitData {
        flags: vec![(key.to_string(), flag_with_version(key, version))],
    }));
    assert_eq!(InitState::Done, state);
    store
}

fn patch(key: &str, version: u64) -> Message {
    Message::Patch(Update::Flag {
        name: key.to_string(),
        data: Some(flag_with_version(key, version)),
        version: None,
    })
}

fn delete(key: &str, version: u64) -> Message {
    Message::Delete(Update::Flag { name: key.to_string(), data: None, version: Some(version) })
}

#[test]
fn patch_with_older_version_is_noop() {
    let mut store = initialized_store("a", 5);
    assert_eq!(InitState::Done, store.apply(patch("a", 4)));
    assert_eq!(5, store.flag("a").expect("flag missing").version);
}

#[test]
fn patch_with_equal_version_is_noop() {
    let mut store = initialized_store("a", 5);
    assert_eq!(InitState::Done, store.apply(patch("a", 5)));
    assert_eq!(5, store.flag("a").expect("flag missing").version);
}

#[test]
fn patch_with_newer_version_applies() {
    let mut store = initialized_store("a", 5);
    assert_eq!(InitState::Done, store.apply(patch("a", 6)));
    assert_eq!(6, store.flag("a").expect("flag missing").version);
}

#[test]
fn patch_for_absent_key_inserts() {
    let mut store = initialized_store("a", 5);
    assert_eq!(InitState::Done, store.apply(patch("b", 1)));
    assert_eq!(1, store.flag("b").expect("flag missing").version);
}

#[test]
fn delete_with_older_version_is_noop() {
    let mut store = initialized_store("a", 5);
    assert_eq!(InitState::Done, store.apply(delete("a", 5)));
    assert!(store.flag("a").is_some());
}

#[test]
fn delete_with_newer_version_removes() {
    let mut store = initialized_store("a", 5);
    assert_eq!(InitState::Done, store.apply(delete("a", 6)));
    assert!(store.flag("a").is_none());
}

#[test]
fn delete_for_absent_key_is_noop() {
    let mut store = initialized_store("a", 5);
    assert_eq!(InitState::Done, store.apply(delete("b", 9)));
    assert!(store.flag("a").is_some());
}

#[test]
fn patch_before_put_is_dropped() {
    let mut store = MemoryStore::new();
    assert_eq!(InitState::Pending, store.apply(patch("a", 1)));
    assert!(store.flag("a").is_none());
    assert_eq!(0, store.flag_count());
}

#[test]
fn delete_before_put_is_dropped() {
    let mut store = MemoryStore::new();
    assert_eq!(InitState::Pending, store.apply(delete("a", 1)));
    assert_eq!(0, store.flag_count());
}

#[test]
fn put_replaces_whole_map() {
    let mut store = initialized_store("a", 5);
    let state = store.apply(Message::Put(InitData {
        flags: vec![("b".to_string(), flag_with_version("b", 1))],
    }));
    assert_eq!(InitState::Done, state);
    assert!(store.flag("a").is_none());
    assert!(store.flag("b").is_some());
}

#[test]
fn put_with_repeated_key_keeps_later_entry() {
    let mut store = MemoryStore::new();
    store.apply(Message::Put(InitData {
        flags: vec![
            ("a".to_string(), flag_with_version("a", 1)),
            ("a".to_string(), flag_with_version("a", 2)),
        ],
    }));
    assert_eq!(2, store.flag("a").expect("flag missing").version);
    assert_eq!(1, store.flag_count());
}

#[test]
fn partial_patch_is_absorbed() {
    let mut store = MemoryStore::new();
    let msg = Message::Patch(Update::Flag { name: "a".to_string(), data: None, version: Some(3) });
    assert_eq!(InitState::Done, store.apply(msg));
    assert_eq!(0, store.flag_count());
}

#[test]
fn partial_delete_is_absorbed() {
    let mut store = initialized_store("a", 5);
    let msg = Message::Delete(Update::Flag { name: "a".to_string(), data: None, version: None });
    assert_eq!(InitState::Done, store.apply(msg));
    assert!(store.flag("a").is_some());
}

#[test]
fn unknown_message_is_absorbed() {
    let mut store = MemoryStore::new();
    assert_eq!(InitState::Done, store.apply(Message::Unknown));
    assert_eq!(InitState::Done, store.apply(Message::Patch(Update::Unknown)));
    assert_eq!(0, store.flag_count());
}

#[test]
fn keys_list_the_stored_flags() {
    let mut store = initialized_store("a", 5);
    store.apply(patch("b", 1));
    let mut keys = store.keys().clone();
    keys.sort();
    assert_eq!(vec!["a".to_string(), "b".to_string()], keys);
    store.apply(delete("a", 6));
    assert_eq!(vec!["b".to_string()], store.keys().clone());
}

#[test]
fn export_reflects_store() {
    let store = initialized_store("a", 5);
    let exported = store.export_all();
    assert_eq!(1, exported.len());
    assert!(exported.get("a").is_some());
    assert_eq!(5, exported.get("a").expect("flag missing").version);
}
