//! Decoding named push events into messages: the event-name dispatch, the
//! update path, and each decode error.

use featureflags::message::{
    FromPatchDataError, InitData, Message, MessageParseError, MessagePayload, PayloadData,
    RawEventData, Update,
};
use featureflags::models::{ClientSideAvailability, Fallthrough, FeatureFlagState, Variation};

fn sample_flag(key: &str) -> FeatureFlagState {
    FeatureFlagState {
        client_side: false,
        client_side_availability: ClientSideAvailability {
            using_environment_id: false,
            using_mobile_key: false,
        },
        deleted: false,
        fallthrough: Fallthrough { variation: Some(0), rollout: None },
        key: key.to_string(),
        off_variation: 0,
        on: true,
        prerequisites: vec![],
        rules: vec![],
        salt: "s".to_string(),
        targets: vec![],
        track_events: false,
        track_events_fallthrough: false,
        variations: vec![Variation::Bool(false), Variation::Bool(true)],
        version: 1,
    }
}

fn payload(
    path: Option<&str>,
    data: Option<PayloadData>,
    version: Option<u64>,
) -> RawEventData {
    RawEventData::Payload(MessagePayload { path: path.map(|p| p.to_string()), data, version })
}

#[test]
fn decode_put() {
    let flags = vec![("a".to_string(), sample_flag("a"))];
    let r = Message::decode("put", payload(Some("/"), Some(PayloadData::FlagSet(flags.clone())), None));
    assert_eq!(Ok(Message::Put(InitData { flags })), r);
}

#[test]
fn decode_put_without_data() {
    let r = Message::decode("put", payload(Some("/"), None, None));
    assert_eq!(Err(MessageParseError::MissingData), r);
}

#[test]
fn decode_put_with_wrong_shape() {
    let r = Message::decode("put", payload(Some("/"), Some(PayloadData::Flag(sample_flag("a"))), None));
    assert_eq!(Err(MessageParseError::ParsePut), r);
    let r = Message::decode("put", payload(Some("/"), Some(PayloadData::Other), None));
    assert_eq!(Err(MessageParseError::ParsePut), r);
}

#[test]
fn decode_patch() {
    let flag = sample_flag("a");
    let r = Message::decode(
        "patch",
        payload(Some("/flags/a"), Some(PayloadData::Flag(flag.clone())), None),
    );
    assert_eq!(
        Ok(Message::Patch(Update::Flag { name: "a".to_string(), data: Some(flag), version: None })),
        r
    );
}

#[test]
fn decode_patch_without_leading_slash() {
    let flag = sample_flag("a");
    let r = Message::decode(
        "patch",
        payload(Some("flags/a"), Some(PayloadData::Flag(flag.clone())), None),
    );
    assert_eq!(
        Ok(Message::Patch(Update::Flag { name: "a".to_string(), data: Some(flag), version: None })),
        r
    );
}

#[test]
fn decode_delete() {
    let r = Message::decode("delete", payload(Some("/flags/a"), None, Some(9)));
    assert_eq!(
        Ok(Message::Delete(Update::Flag { name: "a".to_string(), data: None, version: Some(9) })),
        r
    );
}

#[test]
fn decode_patch_with_wrong_shape() {
    let r = Message::decode(
        "patch",
        payload(Some("/flags/a"), Some(PayloadData::FlagSet(vec![])), None),
    );
    assert_eq!(Err(MessageParseError::ParsePatch(FromPatchDataError::InvalidPayload)), r);
}

#[test]
fn decode_patch_without_path() {
    let r = Message::decode("patch", payload(None, None, None));
    assert_eq!(Err(MessageParseError::ParsePatch(FromPatchDataError::UnknownPath)), r);
}

#[test]
fn decode_patch_with_empty_path() {
    let r = Message::decode("patch", payload(Some("///"), None, None));
    assert_eq!(Err(MessageParseError::ParsePatch(FromPatchDataError::UnknownPath)), r);
}

#[test]
fn decode_patch_without_flag_name() {
    let r = Message::decode("patch", payload(Some("/flags"), None, None));
    assert_eq!(Err(MessageParseError::ParsePatch(FromPatchDataError::MissingFlagName)), r);
}

#[test]
fn decode_patch_for_other_record() {
    let r = Message::decode("patch", payload(Some("/segments/a"), None, None));
    assert_eq!(Ok(Message::Patch(Update::Unknown)), r);
}

#[test]
fn decode_unknown_event_name() {
    let r = Message::decode("ping", payload(Some("/"), None, None));
    assert_eq!(Ok(Message::Unknown), r);
}

#[test]
fn decode_missing_payload() {
    let r = Message::decode("put", RawEventData::Missing);
    assert_eq!(Err(MessageParseError::MissingEventPayload), r);
}

#[test]
fn decode_unparsable_payload() {
    let r = Message::decode("put", RawEventData::Unparsable);
    assert_eq!(Err(MessageParseError::ParsePayload), r);
}

#[test]
fn decode_keeps_extra_path_segments_out_of_the_name() {
    let r = Message::decode("delete", payload(Some("/flags/a/b"), None, Some(1)));
    assert_eq!(
        Ok(Message::Delete(Update::Flag { name: "a".to_string(), data: None, version: Some(1) })),
        r
    );
}
