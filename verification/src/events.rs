//! Video events reported by the embedded page: validation of the raw
//! payload and its translation into the playback events of the interface.

use vstd::prelude::*;
use crate::model::Seconds;
use crate::parser::{normalize_video_id, spec_normalize_video_id};

verus! {

broadcast use vstd::string::group_string_axioms;

/// The fields of a `bili://video-event` payload as read from its JSON: each
/// is `Some` when the payload is an object holding that key with a value of
/// the expected kind (text for `type` and `itemId`, a number for
/// `positionSeconds` and `durationSeconds`).
pub struct RawVideoEvent {
    pub event_type: Option<String>,
    pub item_id: Option<String>,
    pub position_seconds: Option<Seconds>,
    pub duration_seconds: Option<Seconds>,
}

/// A video event with a known type.
#[derive(Debug, Clone, PartialEq)]
pub struct ParsedVideoEvent {
    pub event_type: String,
    pub item_id: String,
    pub position_seconds: Seconds,
    pub duration_seconds: Option<Seconds>,
}

/// The event types the page hooks on `<video>`.
pub open spec fn is_known_video_event(t: Seq<char>) -> bool {
    t == "play"@ || t == "pause"@ || t == "ended"@ || t == "error"@ || t == "timeupdate"@
}

/// Accepts a payload whose type is known and which holds an item id and a
/// position; the duration is optional.
pub fn validate_video_event_payload(raw: &RawVideoEvent) -> (r: Option<ParsedVideoEvent>)
    ensures
        r is Some <==> (raw.event_type matches Some(t) && is_known_video_event(t@)
            && raw.item_id is Some && raw.position_seconds is Some),
        r matches Some(p) ==> (raw.event_type matches Some(t) && p.event_type@ == t@)
            && (raw.item_id matches Some(i) && p.item_id@ == i@) && raw.position_seconds == Some(
            p.position_seconds,
        ) && p.duration_seconds == raw.duration_seconds,
{
    let t = match &raw.event_type {
        Some(t) => t,
        None => return None,
    };
    let known = *t == String::from_str("play") || *t == String::from_str("pause") || *t
        == String::from_str("ended") || *t == String::from_str("error") || *t == String::from_str(
        "timeupdate",
    );
    if !known {
        return None;
    }
    let item_id = match &raw.item_id {
        Some(i) => i.clone(),
        None => return None,
    };
    let position_seconds = match raw.position_seconds {
        Some(p) => p,
        None => return None,
    };
    Some(ParsedVideoEvent {
        event_type: t.clone(),
        item_id,
        position_seconds,
        duration_seconds: raw.duration_seconds,
    })
}

/// A playback event as the interface receives it.
#[derive(Debug, Clone, PartialEq)]
pub enum PlaybackEventEmit {
    Started { item_id: String, position_seconds: Seconds },
    Paused { item_id: String, position_seconds: Seconds },
    Ended { item_id: String, position_seconds: Seconds },
    Progress { item_id: String, position_seconds: Seconds, duration_seconds: Seconds },
    Error { item_id: String, message: String },
}

/// The message of a playback error.
pub open spec fn playback_error_message() -> Seq<char> {
    "视频播放失败"@
}

/// What `map_video_event` gives: `play` → started, `pause` → paused,
/// `ended` → ended, `timeupdate` → progress (duration 0 when unknown),
/// `error` → error with a fixed message; any other type → nothing.
pub open spec fn spec_map_video_event(p: ParsedVideoEvent, item_id: Seq<char>, r: Option<
    PlaybackEventEmit,
>) -> bool {
    let t = p.event_type@;
    if t == "play"@ {
        r matches Some(PlaybackEventEmit::Started { item_id: i, position_seconds: s }) && i@
            == item_id && s == p.position_seconds
    } else if t == "pause"@ {
        r matches Some(PlaybackEventEmit::Paused { item_id: i, position_seconds: s }) && i@
            == item_id && s == p.position_seconds
    } else if t == "ended"@ {
        r matches Some(PlaybackEventEmit::Ended { item_id: i, position_seconds: s }) && i@
            == item_id && s == p.position_seconds
    } else if t == "timeupdate"@ {
        r matches Some(
            PlaybackEventEmit::Progress { item_id: i, position_seconds: s, duration_seconds: d },
        ) && i@ == item_id && s == p.position_seconds && d == match p.duration_seconds {
            Some(d) => d,
            None => Seconds { bits: 0 },
        }
    } else if t == "error"@ {
        r matches Some(PlaybackEventEmit::Error { item_id: i, message: m }) && i@ == item_id && m@
            == playback_error_message()
    } else {
        r is None
    }
}

/// Translates a raw video event into the event the interface receives.
pub fn map_video_event(parsed: ParsedVideoEvent, item_id: String) -> (r: Option<PlaybackEventEmit>)
    ensures
        spec_map_video_event(parsed, item_id@, r),
{
    let t = &parsed.event_type;
    if *t == String::from_str("play") {
        Some(PlaybackEventEmit::Started { item_id, position_seconds: parsed.position_seconds })
    } else if *t == String::from_str("pause") {
        Some(PlaybackEventEmit::Paused { item_id, position_seconds: parsed.position_seconds })
    } else if *t == String::from_str("ended") {
        Some(PlaybackEventEmit::Ended { item_id, position_seconds: parsed.position_seconds })
    } else if *t == String::from_str("timeupdate") {
        let d = match parsed.duration_seconds {
            Some(d) => d,
            None => Seconds::zero(),
        };
        Some(
            PlaybackEventEmit::Progress {
                item_id,
                position_seconds: parsed.position_seconds,
                duration_seconds: d,
            },
        )
    } else if *t == String::from_str("error") {
        Some(PlaybackEventEmit::Error { item_id, message: String::from_str("视频播放失败") })
    } else {
        None
    }
}

/// The item id an event names: the normalised video id in the reported
/// path, or the path itself when it holds none.
pub open spec fn event_item_id(path: Seq<char>) -> Seq<char> {
    match spec_normalize_video_id(path) {
        Some(id) => id,
        None => path,
    }
}

/// Handles a `bili://video-event` payload: validates it, names the item by
/// its normalised id and translates the event; nothing when the payload is
/// refused.
pub fn route_video_event(raw: &RawVideoEvent) -> (r: Option<PlaybackEventEmit>)
    ensures
        match raw.event_type {
            Some(t) if is_known_video_event(t@) && raw.item_id is Some && raw.position_seconds is Some => {
                spec_map_video_event(
                    ParsedVideoEvent {
                        event_type: t,
                        item_id: raw.item_id->0,
                        position_seconds: raw.position_seconds->0,
                        duration_seconds: raw.duration_seconds,
                    },
                    event_item_id(raw.item_id->0@),
                    r,
                )
            },
            _ => r is None,
        },
{
    let parsed = match validate_video_event_payload(raw) {
        Some(p) => p,
        None => return None,
    };
    let item_id = match normalize_video_id(parsed.item_id.as_str()) {
        Some(id) => id,
        None => parsed.item_id.clone(),
    };
    map_video_event(parsed, item_id)
}

} // verus!
