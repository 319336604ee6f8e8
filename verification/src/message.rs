//! Decoding of named push events into typed update messages.
//!
//! A push event arrives as a name and a JSON payload. The caller parses the
//! payload into a [`MessagePayload`] of plain values and hands it here; this
//! module holds every decoding decision: which event names are known, which
//! payload fields they require, and how an update path selects a record.

use vstd::prelude::*;
use vstd::string::StrSliceExecFns;

use crate::models::FeatureFlagState;
use crate::text::str_eq;

verus! {

/// Why a push event could not be decoded into a [`Message`].
#[derive(Clone, Copy, Debug, PartialEq, Eq)]
pub enum MessageParseError {
    /// A `put` event's data was not a flag set.
    ParsePut,
    /// A `put` event carried no data field.
    MissingData,
    /// The event carried no payload at all.
    MissingEventPayload,
    /// A `patch` or `delete` event's payload was not a valid update.
    ParsePatch(FromPatchDataError),
    /// The event payload was not valid JSON of the expected shape.
    ParsePayload,
}

/// Why a `patch` or `delete` payload could not be read as an update.
#[derive(Clone, Copy, Debug, PartialEq, Eq)]
pub enum FromPatchDataError {
    /// The update path had no segments.
    UnknownPath,
    /// The update path named the flags record type but no flag.
    MissingFlagName,
    /// The data field was present but was not a single flag state.
    InvalidPayload,
}

/// A decoded message from the stream.
#[derive(Debug, PartialEq)]
pub enum Message {
    /// Replace the whole flag map and mark the store initialized.
    Put(InitData),
    /// Change a single record.
    Patch(Update),
    /// Remove a single record.
    Delete(Update),
    /// An event this library does not interpret; the stream continues.
    Unknown,
}

/// The full flag map carried by a `put` event.
///
/// Entries are keyed by flag key; when a key repeats, the later entry wins.
#[derive(Debug, PartialEq)]
pub struct InitData {
    pub flags: Vec<(String, FeatureFlagState)>,
}

/// The change of a single record carried by a `patch` or `delete` event.
#[derive(Debug, PartialEq)]
pub enum Update {
    /// A flag changed: its name, its new state if one was sent, and the
    /// version of the change (used by deletions).
    Flag { name: String, data: Option<FeatureFlagState>, version: Option<u64> },
    /// A record type this library does not handle.
    Unknown,
}

/// The `data` field of an event payload, already read into plain values.
#[derive(Debug, PartialEq)]
pub enum PayloadData {
    /// The data held a flag set, as a `put` event requires.
    FlagSet(Vec<(String, FeatureFlagState)>),
    /// The data held a single flag state, as a `patch` event requires.
    Flag(FeatureFlagState),
    /// The data held JSON of some other shape.
    Other,
}

/// An event payload: `{path?, data?, version?}`.
#[derive(Debug, PartialEq)]
pub struct MessagePayload {
    pub path: Option<String>,
    pub data: Option<PayloadData>,
    pub version: Option<u64>,
}

/// What arrived with a push event, before any interpretation.
#[derive(Debug, PartialEq)]
pub enum RawEventData {
    /// The event had no payload field.
    Missing,
    /// The payload was not JSON of the `{path?, data?, version?}` shape.
    Unparsable,
    /// The payload, parsed into plain values.
    Payload(MessagePayload),
}

/// The first index at or after `i` in `p` that does not hold `'/'`.
pub open spec fn seg_start(p: Seq<char>, i: int) -> int
    decreases p.len() - i,
{
    if i < 0 || i >= p.len() {
        p.len() as int
    } else if p[i] == '/' {
        seg_start(p, i + 1)
    } else {
        i
    }
}

/// The first index at or after `i` in `p` that holds `'/'`, or the length.
pub open spec fn seg_end(p: Seq<char>, i: int) -> int
    decreases p.len() - i,
{
    if i < 0 || i >= p.len() {
        p.len() as int
    } else if p[i] == '/' {
        i
    } else {
        seg_end(p, i + 1)
    }
}

/// How [`Update::from_payload`] reads a payload: the relation between the
/// payload and the decoded update.
///
/// The path is read as a slash-delimited segment sequence, empty segments
/// dropped. A missing path or one without segments is an unknown path; a
/// first segment other than `flags` is a record type this library does not
/// handle; otherwise the second segment names the flag, and the data field,
/// when present, must hold a single flag state.
pub open spec fn update_rel(p: MessagePayload, r: Result<Update, FromPatchDataError>) -> bool {
    match p.path {
        None => r == Err::<Update, FromPatchDataError>(FromPatchDataError::UnknownPath),
        Some(path) => {
            let pv = path@;
            let s1 = seg_start(pv, 0);
            let e1 = seg_end(pv, s1);
            if s1 >= pv.len() {
                r == Err::<Update, FromPatchDataError>(FromPatchDataError::UnknownPath)
            } else if pv.subrange(s1, e1) == "flags"@ {
                let s2 = seg_start(pv, e1);
                let e2 = seg_end(pv, s2);
                if s2 >= pv.len() {
                    r == Err::<Update, FromPatchDataError>(FromPatchDataError::MissingFlagName)
                } else {
                    match p.data {
                        Some(PayloadData::Flag(f)) => {
                            &&& r matches Ok(Update::Flag { name, data, version })
                            &&& name@ == pv.subrange(s2, e2)
                            &&& data == Some(f)
                            &&& version == p.version
                        },
                        None => {
                            &&& r matches Ok(Update::Flag { name, data, version })
                            &&& name@ == pv.subrange(s2, e2)
                            &&& data == None::<FeatureFlagState>
                            &&& version == p.version
                        },
                        Some(_) => r == Err::<Update, FromPatchDataError>(
                            FromPatchDataError::InvalidPayload,
                        ),
                    }
                }
            } else {
                r == Ok::<Update, FromPatchDataError>(Update::Unknown)
            }
        },
    }
}

/// How [`Message::decode`] reads an event: the relation between the event
/// name, its payload, and the decoded message.
pub open spec fn decode_rel(
    n: Seq<char>,
    data: RawEventData,
    r: Result<Message, MessageParseError>,
) -> bool {
    match data {
        RawEventData::Missing => r == Err::<Message, MessageParseError>(
            MessageParseError::MissingEventPayload,
        ),
        RawEventData::Unparsable => r == Err::<Message, MessageParseError>(
            MessageParseError::ParsePayload,
        ),
        RawEventData::Payload(p) => {
            if n == "put"@ {
                match p.data {
                    None => r == Err::<Message, MessageParseError>(MessageParseError::MissingData),
                    Some(PayloadData::FlagSet(v)) => r == Ok::<Message, MessageParseError>(
                        Message::Put(InitData { flags: v }),
                    ),
                    Some(_) => r == Err::<Message, MessageParseError>(MessageParseError::ParsePut),
                }
            } else if n == "patch"@ {
                match r {
                    Ok(Message::Patch(u)) => update_rel(p, Ok(u)),
                    Err(MessageParseError::ParsePatch(e)) => update_rel(p, Err(e)),
                    _ => false,
                }
            } else if n == "delete"@ {
                match r {
                    Ok(Message::Delete(u)) => update_rel(p, Ok(u)),
                    Err(MessageParseError::ParsePatch(e)) => update_rel(p, Err(e)),
                    _ => false,
                }
            } else {
                r == Ok::<Message, MessageParseError>(Message::Unknown)
            }
        },
    }
}

/// Finds the first index at or after `i` that is not a slash.
fn find_seg_start(p: &str, i: usize) -> (r: usize)
    requires
        i <= p@.len(),
    ensures
        r == seg_start(p@, i as int),
        i <= r <= p@.len(),
    decreases p@.len() - i,
{
    if i == p.unicode_len() {
        i
    } else if p.get_char(i) == '/' {
        find_seg_start(p, i + 1)
    } else {
        i
    }
}

/// Finds the first index at or after `i` that is a slash, or the length.
fn find_seg_end(p: &str, i: usize) -> (r: usize)
    requires
        i <= p@.len(),
    ensures
        r == seg_end(p@, i as int),
        i <= r <= p@.len(),
    decreases p@.len() - i,
{
    if i == p.unicode_len() {
        i
    } else if p.get_char(i) == '/' {
        i
    } else {
        find_seg_end(p, i + 1)
    }
}

impl Update {
    /// Reads a `patch` or `delete` payload as the change of a single record.
    pub fn from_payload(p: MessagePayload) -> (r: Result<Update, FromPatchDataError>)
        ensures
            update_rel(p, r),
    {
        let path = match p.path {
            None => {
                return Err(FromPatchDataError::UnknownPath);
            },
            Some(path) => path,
        };
        let pstr = path.as_str();
        let s1 = find_seg_start(pstr, 0);
        if s1 == pstr.unicode_len() {
            return Err(FromPatchDataError::UnknownPath);
        }
        let e1 = find_seg_end(pstr, s1);
        let first = pstr.substring_char(s1, e1);
        if !str_eq(first, "flags") {
            return Ok(Update::Unknown);
        }
        let s2 = find_seg_start(pstr, e1);
        if s2 == pstr.unicode_len() {
            return Err(FromPatchDataError::MissingFlagName);
        }
        let e2 = find_seg_end(pstr, s2);
        let name = pstr.substring_char(s2, e2).to_owned();
        let data = match p.data {
            None => None,
            Some(PayloadData::Flag(f)) => Some(f),
            Some(_) => {
                return Err(FromPatchDataError::InvalidPayload);
            },
        };
        Ok(Update::Flag { name, data, version: p.version })
    }
}

impl Message {
    /// Decodes one named push event whose payload has been read into plain
    /// values.
    pub fn decode(name: &str, data: RawEventData) -> (r: Result<Message, MessageParseError>)
        ensures
            decode_rel(name@, data, r),
    {
        let payload = match data {
            RawEventData::Missing => {
                return Err(MessageParseError::MissingEventPayload);
            },
            RawEventData::Unparsable => {
                return Err(MessageParseError::ParsePayload);
            },
            RawEventData::Payload(p) => p,
        };
        if str_eq(name, "put") {
            match payload.data {
                None => Err(MessageParseError::MissingData),
                Some(PayloadData::FlagSet(v)) => Ok(Message::Put(InitData { flags: v })),
                Some(_) => Err(MessageParseError::ParsePut),
            }
        } else if str_eq(name, "patch") {
            match Update::from_payload(payload) {
                Ok(u) => Ok(Message::Patch(u)),
                Err(e) => Err(MessageParseError::ParsePatch(e)),
            }
        } else if str_eq(name, "delete") {
            match Update::from_payload(payload) {
                Ok(u) => Ok(Message::Delete(u)),
                Err(e) => Err(MessageParseError::ParsePatch(e)),
            }
        } else {
            Ok(Message::Unknown)
        }
    }
}

} // verus!
