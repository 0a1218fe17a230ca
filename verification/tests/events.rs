use bili_list_player::capture::{route_capture_html, CaptureHtmlFields, MAX_CAPTURE_HTML};
use bili_list_player::events::{
    map_video_event, route_video_event, validate_video_event_payload, ParsedVideoEvent,
    PlaybackEventEmit, RawVideoEvent,
};
use bili_list_player::model::Seconds;

fn secs(x: f64) -> Seconds {
    Seconds { bits: x.to_bits() }
}

fn raw(t: Option<&str>, item: Option<&str>, pos: Option<f64>, dur: Option<f64>) -> RawVideoEvent {
    RawVideoEvent {
        event_type: t.map(|s| s.to_string()),
        item_id: item.map(|s| s.to_string()),
        position_seconds: pos.map(secs),
        duration_seconds: dur.map(secs),
    }
}

#[test]
fn validate_good_payload() {
    let p = validate_video_event_payload(&raw(Some("play"), Some("/video/BV1x"), Some(1.2), None))
        .unwrap();
    assert_eq!(p.event_type, "play");
    assert_eq!(p.item_id, "/video/BV1x");
    assert_eq!(f64::from_bits(p.position_seconds.bits), 1.2);
    assert_eq!(p.duration_seconds, None);
}

#[test]
fn validate_payload_with_duration() {
    assert_eq!(
        validate_video_event_payload(&raw(Some("play"), Some("/x"), Some(0.0), Some(3.4)))
            .unwrap()
            .duration_seconds,
        Some(secs(3.4))
    );
}

#[test]
fn validate_rejects_unknown_type() {
    assert!(validate_video_event_payload(&raw(Some("foo"), Some("/x"), Some(0.0), None)).is_none());
}

#[test]
fn validate_rejects_missing_position() {
    assert!(validate_video_event_payload(&raw(Some("play"), Some("/x"), None, None)).is_none());
}

#[test]
fn validate_rejects_missing_itemid() {
    assert!(validate_video_event_payload(&raw(Some("play"), None, Some(0.0), None)).is_none());
}

fn ev(t: &str, pos: f64, dur: Option<f64>) -> ParsedVideoEvent {
    ParsedVideoEvent {
        event_type: t.into(),
        item_id: "/x".into(),
        position_seconds: secs(pos),
        duration_seconds: dur.map(secs),
    }
}

#[test]
fn maps_play_to_started_camelcase() {
    let emit = map_video_event(ev("play", 1.2, None), "BV1x".into()).unwrap();
    assert_eq!(
        emit,
        PlaybackEventEmit::Started { item_id: "BV1x".into(), position_seconds: secs(1.2) }
    );
}

#[test]
fn maps_timeupdate_to_progress_with_duration() {
    let emit = map_video_event(ev("timeupdate", 5.0, Some(120.0)), "BV2".into()).unwrap();
    assert_eq!(
        emit,
        PlaybackEventEmit::Progress {
            item_id: "BV2".into(),
            position_seconds: secs(5.0),
            duration_seconds: secs(120.0),
        }
    );
}

#[test]
fn maps_timeupdate_without_duration_to_zero() {
    let emit = map_video_event(ev("timeupdate", 5.0, None), "BV2".into()).unwrap();
    match emit {
        PlaybackEventEmit::Progress { duration_seconds, .. } => {
            assert_eq!(f64::from_bits(duration_seconds.bits), 0.0)
        }
        other => panic!("unexpected {:?}", other),
    }
}

#[test]
fn maps_error_to_error_with_message() {
    let emit = map_video_event(ev("error", 0.0, None), "BV3".into()).unwrap();
    match emit {
        PlaybackEventEmit::Error { item_id, message } => {
            assert_eq!(item_id, "BV3");
            assert!(message.contains("失败"));
        }
        other => panic!("unexpected {:?}", other),
    }
}

#[test]
fn maps_pause_and_ended() {
    let paused = map_video_event(ev("pause", 7.0, None), "BV4".into()).unwrap();
    assert!(matches!(paused, PlaybackEventEmit::Paused { .. }));
    let ended = map_video_event(ev("ended", 99.0, None), "BV5".into()).unwrap();
    assert!(matches!(ended, PlaybackEventEmit::Ended { .. }));
    assert!(map_video_event(ev("seeking", 1.0, None), "BV6".into()).is_none());
}

#[test]
fn route_video_event_names_item_by_normalized_id() {
    let e = route_video_event(&raw(Some("pause"), Some("/video/BV1ab/"), Some(3.0), None)).unwrap();
    assert_eq!(e, PlaybackEventEmit::Paused { item_id: "BV1ab".into(), position_seconds: secs(3.0) });
    let e = route_video_event(&raw(Some("ended"), Some("/festival/x"), Some(3.0), None)).unwrap();
    assert_eq!(e, PlaybackEventEmit::Ended { item_id: "/festival/x".into(), position_seconds: secs(3.0) });
    assert!(route_video_event(&raw(Some("load"), Some("/video/BV1"), Some(0.0), None)).is_none());
}

fn fields(src: Option<&str>, req: Option<&str>, err: Option<&str>, html: Option<&str>) -> CaptureHtmlFields {
    CaptureHtmlFields {
        source_url: src.map(|s| s.to_string()),
        request_id: req.map(|s| s.to_string()),
        list_title: Some("T".to_string()),
        error: err.map(|s| s.to_string()),
        html: html.map(|s| s.to_string()),
    }
}

#[test]
fn route_capture_html_parses_items() {
    let p = route_capture_html(fields(
        Some("https://www.bilibili.com/list/1"),
        Some("r1"),
        None,
        Some(r#"<a href="/video/BV1">one</a>"#),
    ))
    .unwrap();
    assert_eq!(p.request_id, "r1");
    assert_eq!(p.items.len(), 1);
    assert_eq!(p.items[0].id, "BV1");
    assert_eq!(p.list_title, Some("T".to_string()));
    assert_eq!(p.error, None);
}

#[test]
fn route_capture_html_passes_errors_and_drops_bad_payloads() {
    let p = route_capture_html(fields(
        Some("https://www.bilibili.com/list/1"),
        Some("r1"),
        Some("boom"),
        None,
    ))
    .unwrap();
    assert!(p.items.is_empty());
    assert_eq!(p.error, Some("boom".to_string()));
    assert!(route_capture_html(fields(Some("https://example.com/list/1"), Some("r"), Some("e"), None)).is_none());
    assert!(route_capture_html(fields(Some("https://www.bilibili.com/list/1"), None, None, Some(""))).is_none());
    assert!(route_capture_html(fields(Some("https://www.bilibili.com/list/1"), Some("r"), None, None)).is_none());
    let big = "a".repeat(MAX_CAPTURE_HTML + 1);
    assert!(route_capture_html(fields(Some("https://www.bilibili.com/list/1"), Some("r"), None, Some(&big))).is_none());
}
