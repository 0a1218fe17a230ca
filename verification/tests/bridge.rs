use bili_list_player::bridge::{
    capture_list_html, check_navigation, on_page_finished, refresh_video_title,
    send_playback_command, BridgeAction, BridgeState, Script,
};
use bili_list_player::model::{PlaybackCommandDto, Seconds};

fn secs(x: f64) -> Seconds {
    Seconds { bits: x.to_bits() }
}

#[test]
fn check_navigation_allows_only_bilibili() {
    assert!(check_navigation("https://www.bilibili.com/video/BV1").is_ok());
    assert_eq!(
        check_navigation("https://example.com/").unwrap_err(),
        "仅允许 Bilibili 站内导航"
    );
    assert!(check_navigation("not a url").is_err());
}

#[test]
fn load_then_target_page_seeks_and_plays() {
    let mut s = BridgeState::new();
    let url = "https://www.bilibili.com/video/BV1";
    let load = PlaybackCommandDto::Load { url: url.into(), position_seconds: secs(12.5) };
    let actions = send_playback_command(&mut s, &load, true).unwrap();
    assert_eq!(
        actions,
        vec![
            BridgeAction::EvalQuietly { script: Script::Pause },
            BridgeAction::Navigate { url: url.into() }
        ]
    );
    // An intermediate page does not consume the playback intent.
    let home = on_page_finished(&mut s, "https://www.bilibili.com/");
    assert_eq!(home, vec![BridgeAction::EvalQuietly { script: Script::PlaybackSettings }]);
    assert_eq!(s.pending_seek, Some(secs(12.5)));
    assert!(s.pending_play);
    // The target page (normalised with a trailing slash) does.
    let target = on_page_finished(&mut s, "https://www.bilibili.com/video/BV1/?p=1");
    assert_eq!(
        target,
        vec![
            BridgeAction::EvalLater {
                script: Script::SeekAndPlay { position_seconds: secs(12.5), play: true }
            },
            BridgeAction::EvalQuietly { script: Script::PlaybackSettings }
        ]
    );
    assert_eq!(s.pending_seek, None);
    assert!(!s.pending_play);
    assert_eq!(s.pending_playback_url, None);
}

#[test]
fn play_during_pending_load_only_marks_play() {
    let mut s = BridgeState::new();
    let load = PlaybackCommandDto::Load {
        url: "https://www.bilibili.com/video/BV1".into(),
        position_seconds: secs(0.0),
    };
    send_playback_command(&mut s, &load, false).unwrap();
    assert_eq!(send_playback_command(&mut s, &PlaybackCommandDto::Play, false).unwrap(), vec![]);
    assert!(s.pending_play);
}

#[test]
fn pause_abandons_pending_load() {
    let mut s = BridgeState::new();
    let load = PlaybackCommandDto::Load {
        url: "https://www.bilibili.com/video/BV1".into(),
        position_seconds: secs(3.0),
    };
    send_playback_command(&mut s, &load, true).unwrap();
    let pause = send_playback_command(&mut s, &PlaybackCommandDto::Pause, true).unwrap();
    assert_eq!(pause, vec![BridgeAction::Eval { script: Script::Pause }]);
    assert_eq!(s.pending_seek, None);
    let play = send_playback_command(&mut s, &PlaybackCommandDto::Play, true).unwrap();
    assert_eq!(play, vec![BridgeAction::Eval { script: Script::Play }]);
}

#[test]
fn commands_that_need_the_view_fail_without_it() {
    let mut s = BridgeState::new();
    assert_eq!(
        send_playback_command(&mut s, &PlaybackCommandDto::Play, false).unwrap_err(),
        "Bilibili WebView 未打开"
    );
    assert!(send_playback_command(&mut s, &PlaybackCommandDto::Seek { position_seconds: secs(1.0) }, false).is_err());
    assert_eq!(send_playback_command(&mut s, &PlaybackCommandDto::Next, false).unwrap(), vec![]);
    let off = PlaybackCommandDto::Load { url: "https://example.com/v".into(), position_seconds: secs(0.0) };
    assert!(send_playback_command(&mut s, &off, true).is_err());
    assert_eq!(s.pending_playback_url, None);
}

#[test]
fn capture_waits_for_its_list_page() {
    let mut s = BridgeState::new();
    let src = "https://www.bilibili.com/list/7";
    let a = capture_list_html(&mut s, src, "r1", false).unwrap();
    assert_eq!(a, vec![BridgeAction::OpenWebview, BridgeAction::Navigate { url: src.into() }]);
    let blank = on_page_finished(&mut s, "about:blank");
    assert_eq!(blank.len(), 1);
    let page = on_page_finished(&mut s, "https://www.bilibili.com/list/7?oid=2");
    assert_eq!(
        page[0],
        BridgeAction::EvalQuietly {
            script: Script::Capture { source_url: src.into(), request_id: "r1".into() }
        }
    );
    assert_eq!(s.pending_capture, None);
    let again = capture_list_html(&mut s, src, "r2", true).unwrap();
    assert_eq!(
        again,
        vec![BridgeAction::Eval {
            script: Script::Capture { source_url: src.into(), request_id: "r2".into() }
        }]
    );
    assert_eq!(
        capture_list_html(&mut s, "https://example.com/list/1", "r3", true).unwrap_err(),
        "仅支持 Bilibili 官方列表地址"
    );
}

#[test]
fn refresh_title_runs_on_bilibili_page_or_waits() {
    let mut s = BridgeState::new();
    assert_eq!(refresh_video_title(&mut s, "nothing", "r", true).unwrap_err(), "无效的视频 id");
    let a = refresh_video_title(&mut s, "/video/BV1q", "r", true).unwrap();
    assert_eq!(a, vec![BridgeAction::Navigate { url: "https://www.bilibili.com".into() }]);
    let done = on_page_finished(&mut s, "https://www.bilibili.com/");
    assert_eq!(
        done[0],
        BridgeAction::EvalQuietly {
            script: Script::VideoMeta { bvid: "BV1q".into(), request_id: "r".into() }
        }
    );
    let now = refresh_video_title(&mut s, "BV2", "q", true).unwrap();
    assert_eq!(
        now,
        vec![BridgeAction::Eval { script: Script::VideoMeta { bvid: "BV2".into(), request_id: "q".into() } }]
    );
}
