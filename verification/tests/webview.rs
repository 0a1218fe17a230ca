use bili_list_player::model::{PlaybackCommandDto, Seconds};
use bili_list_player::scripts::BRIDGE_INIT;
use bili_list_player::webview::{
    capture_script, control_script, escape_js_string, is_allowed_bili_host, normalize_path, page_access_state,
    pause_control_script, play_control_script, playback_settings_script,
    restore_playback_settings_script, same_list_page, seek_and_play_control_script,
    seek_control_script, video_meta_script,
};

#[test]
fn allows_bili_hosts() {
    assert!(is_allowed_bili_host("www.bilibili.com"));
    assert!(is_allowed_bili_host("bilibili.com"));
    assert!(is_allowed_bili_host("passport.bilibili.com"));
}

#[test]
fn page_access_state_marks_public_bilibili_page_ready() {
    assert_eq!(page_access_state("https://www.bilibili.com/list/1"), "ready");
}

#[test]
fn page_access_state_marks_passport_page_verification_required() {
    assert_eq!(
        page_access_state("https://passport.bilibili.com/login"),
        "verification-required"
    );
}

#[test]
fn page_access_state_unparseable_is_ready() {
    assert_eq!(page_access_state("not a url"), "ready");
}

#[test]
fn blocks_non_bili() {
    assert!(!is_allowed_bili_host("example.com"));
    assert!(!is_allowed_bili_host("evil.bilibili.com.evil.com"));
    assert!(!is_allowed_bili_host(""));
}

#[test]
fn same_list_page_ignores_query() {
    assert!(same_list_page(
        "https://www.bilibili.com/list/12853451?oid=1&bvid=BV1",
        "https://www.bilibili.com/list/12853451"
    ));
    assert!(same_list_page(
        "https://www.bilibili.com/list/12853451",
        "https://www.bilibili.com/list/12853451?oid=1&bvid=BV1"
    ));
    assert!(same_list_page(
        "https://www.bilibili.com/list/12853451?oid=1",
        "https://www.bilibili.com/list/12853451?oid=1"
    ));
    assert!(!same_list_page(
        "https://www.bilibili.com/list/12853451",
        "https://www.bilibili.com/list/999"
    ));
    assert!(!same_list_page(
        "https://www.bilibili.com/list/1",
        "https://m.bilibili.com/list/1"
    ));
}

#[test]
fn same_list_page_ignores_trailing_slash() {
    assert!(same_list_page(
        "https://www.bilibili.com/video/BV1",
        "https://www.bilibili.com/video/BV1/"
    ));
    assert!(same_list_page(
        "https://www.bilibili.com/video/BV1/",
        "https://www.bilibili.com/video/BV1"
    ));
    assert!(same_list_page(
        "https://www.bilibili.com",
        "https://www.bilibili.com/"
    ));
    assert!(same_list_page(
        "https://www.bilibili.com/list/12853451",
        "https://www.bilibili.com/list/12853451/"
    ));
}

#[test]
fn same_list_page_compares_unparseable_text() {
    assert!(same_list_page("about:blank x", "about:blank x"));
    assert!(!same_list_page("not a url", "https://www.bilibili.com/"));
}

#[test]
fn playback_load_waits_for_target_page_before_consuming_pending_commands() {
    assert!(same_list_page(
        "https://www.bilibili.com/video/BV1?from=player",
        "https://www.bilibili.com/video/BV1"
    ));
}

#[test]
fn normalize_path_drops_one_trailing_slash() {
    assert_eq!(normalize_path("/video/BV1/"), "/video/BV1");
    assert_eq!(normalize_path("/"), "/");
    assert_eq!(normalize_path("/a//"), "/a/");
    assert_eq!(normalize_path(""), "");
}

#[test]
fn escape_js_string_escapes_quote_backslash_and_line_ends() {
    assert_eq!(escape_js_string("a'b\\c\nd\re"), "a\\'b\\\\c\\nd\\re");
    assert_eq!(escape_js_string("plain"), "plain");
}

#[test]
fn capture_script_contains_payload_markers() {
    let s = capture_script("https://www.bilibili.com/list/1", "req-42");
    assert!(s.contains("https://www.bilibili.com/list/1"));
    assert!(s.contains("req-42"));
    assert!(s.contains("outerHTML"));
    assert!(s.contains("plugin:event|emit"));
}

#[test]
fn capture_script_forbidden_literals() {
    let s = capture_script("https://www.bilibili.com/list/1", "req-42");
    assert!(!s.contains(".src"), "must not read media src");
    assert!(!s.contains("currentSrc"));
    assert!(!s.contains("mediaUrl"));
    assert!(!s.contains("download"));
}

#[test]
fn capture_script_escapes_its_arguments() {
    let s = capture_script("https://www.bilibili.com/list/1'x", "r\n");
    assert!(s.contains("var SOURCE = 'https://www.bilibili.com/list/1\\'x';"));
    assert!(s.contains("var REQ = 'r\\n';"));
    assert!(!s.contains("__SOURCE__"));
    assert!(!s.contains("__BILI_MEDIALIST_API__"));
}

#[test]
fn video_meta_script_reads_only_title_and_avoids_forbidden_literals() {
    let s = video_meta_script("BV1xx", "req-42");
    assert!(s.contains("x/web-interface/view"), "fetches single-video view API");
    assert!(s.contains("data.title"), "reads only the title field");
    assert!(!s.contains(".src"), "must not read media src");
    assert!(!s.contains("currentSrc"));
    assert!(!s.contains("mediaUrl"));
    assert!(!s.contains("download"));
    assert!(!s.contains("cookie"));
}

#[test]
fn capture_script_loads_all_paginated_list_items() {
    let s = capture_script("https://www.bilibili.com/list/1", "req-42");
    assert!(s.contains("resourceList"));
    assert!(s.contains("listTotal"));
    assert!(s.contains("x/v2/medialist/resource/list"));
    assert!(s.contains("ps: '20'"));
    assert!(s.contains("pageItems"));
}

#[test]
fn capture_script_supports_modern_media_list_urls() {
    let s = capture_script(
        "https://www.bilibili.com/list/ml3686407954?oid=488290436&bvid=BV1gN411U7kN",
        "req-42",
    );
    assert!(s.contains("pathname.match(/^\\/list\\/(ml)?(\\d+)/)"));
    assert!(s.contains("isModernMediaList"));
    assert!(s.contains("(isModernMediaList ? 3 : 1)"));
    assert!(s.contains("url.searchParams.get('oid')"));
    assert!(s.contains("url.searchParams.get('bvid')"));
}

#[test]
fn capture_script_uses_api_next_start_key_for_pagination() {
    let s = capture_script("https://www.bilibili.com/list/ml3686407954", "req-42");
    assert!(s.contains("next_start_key"));
    assert!(s.contains("payload.data.next_start_key"));
    assert!(s.contains("start_key"));
}

#[test]
fn capture_script_prefers_api_titles_over_dom_placeholders() {
    let s = capture_script("https://www.bilibili.com/list/1", "req-42");
    assert!(s.contains("html = pageItems.map(itemAnchor).join('')"));
    assert!(!s.contains("html = pageItems.map(itemAnchor).join('') + html"));
    assert!(s.contains("escapeHtml(item.title)"));
}

#[test]
fn capture_script_extracts_video_page_collection_items() {
    let s = capture_script(
        "https://www.bilibili.com/video/BV1zK4y1F7NP/?spm_id_from=333.1387.0.0",
        "req-42",
    );
    assert!(s.contains("video-pod__item[data-key]"));
    assert!(s.contains("data-key"));
    assert!(s.contains("podTitle"));
    assert!(s.contains("isVideoPage"));
}

#[test]
fn capture_script_emits_multipage_p_items() {
    let s = capture_script(
        "https://www.bilibili.com/video/BV1NF411F7D3/?spm_id_from=333.1387.favlist",
        "req-42",
    );
    assert!(s.contains("vd.pages"), "读取 videoData.pages");
    assert!(s.contains("!vd.ugc_season"), "仅分P（非合集）走此支路");
    assert!(s.contains("pages.length > 1"), "多 P 才进分P 支路");
    assert!(s.contains("/?p='"), "每 P 链接带 ?p=");
    assert!(s.contains("encodeURIComponent(bvid)"), "bvid 取自 state");
    assert!(s.contains("pg.part"), "标题取自 page.part");
}

#[test]
fn capture_script_rejects_partial_or_stalled_pagination() {
    let s = capture_script("https://www.bilibili.com/list/1", "req-42");
    assert!(s.contains("AbortController"));
    assert!(s.contains("seenCursors"));
    assert!(s.contains("分页游标未前进"));
    assert!(s.contains("error: String(e"));
    assert!(!s.contains("catch(e) {}"));
    assert!(!s.contains("fetched.length < listTotal"));
}

#[test]
fn control_script_play() {
    let script = play_control_script();
    assert!(script.contains("__BILI_CTRL__.poll"));
    assert!(script.contains("v.play()"));
    assert!(script.contains("__BILI_LIST_PLAYER_PLAY_ALLOWANCE__"));
    assert!(script.contains("NotAllowedError"));
    assert!(script.contains("v.muted"));
    assert!(script.contains("pickPlayBtn"));
}

#[test]
fn control_script_pause() {
    let script = pause_control_script();
    assert!(script.contains("__BILI_CTRL__.pause"));
    assert!(script.contains("v.pause()"));
}

#[test]
fn control_script_seek() {
    let script = seek_control_script(&format!("{}", 1.5f64));
    assert!(script.contains("__BILI_CTRL__.poll"));
    assert!(script.contains("__BILI_CTRL__.seekTo(v,1.5)"));
    assert!(script.contains("readyState >= 2"));
    assert!(script.contains("loadedmetadata"));
    assert!(script.contains("v.currentTime = p"));
    assert!(script.contains("bwp-video"));
    assert!(script.contains("videoWidth > 0"));
}

#[test]
fn control_script_next_previous_empty() {
    assert!(control_script(&PlaybackCommandDto::Next, "").is_empty());
    assert!(control_script(&PlaybackCommandDto::Previous, "").is_empty());
}

#[test]
fn control_script_dispatches_commands() {
    assert_eq!(control_script(&PlaybackCommandDto::Play, ""), play_control_script());
    assert_eq!(control_script(&PlaybackCommandDto::Pause, ""), pause_control_script());
    let seek = PlaybackCommandDto::Seek { position_seconds: Seconds { bits: 1.5f64.to_bits() } };
    let text = format!("{}", 1.5f64);
    assert_eq!(control_script(&seek, &text), seek_control_script(&text));
    let load = PlaybackCommandDto::Load {
        url: "https://www.bilibili.com/video/BV1xx".into(),
        position_seconds: Seconds { bits: 0.0f64.to_bits() },
    };
    assert!(control_script(&load, "0").is_empty());
}

#[test]
fn seek_and_play_control_script_seeks_then_plays() {
    let script = seek_and_play_control_script(&format!("{}", 12.5f64), true);
    assert!(script.contains("__BILI_CTRL__.seekTo(v,12.5,function"));
    assert!(script.contains("__BILI_CTRL__.play(v)"));
    let call = "__BILI_CTRL__.seekTo(v,12.5,function(){";
    let idx = script.find(call).unwrap();
    let after = &script[idx + call.len()..];
    assert!(after.contains("play(v)"), "play must be inside seekTo onDone callback");
}

#[test]
fn seek_and_play_control_script_skip_play_when_not_requested() {
    let script = seek_and_play_control_script(&format!("{}", 0.0f64), false);
    assert!(script.contains("__BILI_CTRL__.seekTo(v,0,function"));
    assert!(!script.contains("__BILI_CTRL__.play(v)"));
}

#[test]
fn play_control_helpers_pick_video_skips_bwp_video_custom_element() {
    let s = play_control_script();
    assert!(s.contains("tagName !== 'VIDEO'"), "pickVideo must skip non-<video> nodes");
    assert!(s.contains("bwp-video"), "bwp-video kept in selector for BRIDGE_INIT hook");
    assert!(s.contains("videoWidth > 0"));
}

#[test]
fn play_control_helpers_bootstraps_stream_when_no_metadata() {
    let s = play_control_script();
    assert!(s.contains("readyState < 1"), "click B站 button only when stream not loaded");
    assert!(s.contains("bootstrap"));
    assert!(s.contains("typeof cur.play !== 'function'"), "defensive against non-media nodes");
    assert!(s.contains("pickVideo() || v"), "re-pick video each retry");
}

#[test]
fn play_control_helpers_hook_events_on_found_video() {
    let s = play_control_script();
    assert!(s.contains("ensureHooked"), "control script must hook events on found video");
    assert!(s.contains("bili://video-event"), "must emit video events");
    assert!(s.contains("positionSeconds"), "payload carries position");
    assert!(!s.contains(".src"), "must not read media src");
    assert!(!s.contains("currentSrc"), "must not read currentSrc");
    assert!(s.contains("ensureHooked(v); fn(v)"), "poll hooks before invoking callback");
}

#[test]
fn playback_settings_script_captures_and_disables_requested_settings() {
    let script = playback_settings_script();
    assert!(script.contains("自动切集"));
    assert!(script.contains("自动开播"));
    assert!(script.contains("sessionStorage"));
    assert!(script.contains("captured"));
    assert!(script.contains(".click()"));
}

#[test]
fn bridge_init_blocks_page_autoplay() {
    assert!(BRIDGE_INIT.contains("__BILI_LIST_PLAYER_PLAY_ALLOWANCE__"));
    assert!(BRIDGE_INIT.contains("HTMLMediaElement.prototype.play"));
    assert!(BRIDGE_INIT.contains("autoplay = false"));
    assert!(BRIDGE_INIT.contains("MutationObserver"));
    assert!(BRIDGE_INIT.contains("hookVideo(node)"));
}

#[test]
fn restore_playback_settings_script_restores_original_values() {
    let script = restore_playback_settings_script();
    assert!(script.contains("__BILI_LIST_PLAYER_RESTORE_SETTINGS__"));
    assert!(script.contains("()"));
}
