use bili_list_player::model::{ItemStatus, ParsedItem};
use bili_list_player::parser::{
    dedup_items, html_is_scannable, normalize_video_id, parse_list_html, validate_list_url,
    ParseError,
};

fn parsed(id: &str, title: &str, status: ItemStatus) -> ParsedItem {
    ParsedItem {
        id: id.to_string(),
        title: title.to_string(),
        url: format!("https://www.bilibili.com/video/{}", id),
        cover_url: None,
        author: None,
        status,
    }
}

// ---- validate_list_url ----

#[test]
fn validate_list_url_accepts_canonical() {
    assert_eq!(
        validate_list_url("https://www.bilibili.com/list/12853451").unwrap(),
        "https://www.bilibili.com/list/12853451"
    );
}

#[test]
fn validate_list_url_normalizes_bare_host() {
    assert_eq!(
        validate_list_url("https://bilibili.com/list/1?x=1#frag").unwrap(),
        "https://www.bilibili.com/list/1"
    );
}

#[test]
fn validate_list_url_rejects_non_bilibili() {
    assert_eq!(
        validate_list_url("https://example.com/list/1").unwrap_err(),
        ParseError::InvalidHost
    );
}

#[test]
fn validate_list_url_rejects_http() {
    assert_eq!(
        validate_list_url("http://www.bilibili.com/list/1").unwrap_err(),
        ParseError::InvalidScheme
    );
}

#[test]
fn validate_list_url_rejects_non_list_path() {
    assert_eq!(
        validate_list_url("https://www.bilibili.com/watchlater").unwrap_err(),
        ParseError::InvalidPath
    );
}

#[test]
fn validate_list_url_rejects_empty_id() {
    for url in [
        "https://www.bilibili.com/list/",
        "https://www.bilibili.com/video/",
        "https://bilibili.com/video/?p=1",
        "https://www.bilibili.com/list/#top",
    ] {
        assert_eq!(validate_list_url(url).unwrap_err(), ParseError::InvalidPath);
    }
    assert_eq!(
        validate_list_url("https://www.bilibili.com/list/7?x").unwrap(),
        "https://www.bilibili.com/list/7"
    );
}

#[test]
fn validate_list_url_accepts_video_page_with_query() {
    assert_eq!(
        validate_list_url("https://www.bilibili.com/video/BV1zK4y1F7NP/?spm_id_from=333.1387.0.0")
            .unwrap(),
        "https://www.bilibili.com/video/BV1zK4y1F7NP/"
    );
}

#[test]
fn validate_list_url_rejects_empty() {
    assert_eq!(validate_list_url("").unwrap_err(), ParseError::EmptyUrl);
    assert_eq!(validate_list_url("   ").unwrap_err(), ParseError::EmptyUrl);
}

#[test]
fn validate_list_url_trims_unicode_white_space() {
    assert_eq!(
        validate_list_url("\u{3000}\thttps://bilibili.com/video/av1#x\u{a0}\n").unwrap(),
        "https://www.bilibili.com/video/av1"
    );
}

#[test]
fn validate_list_url_host_without_path_is_invalid_path() {
    assert_eq!(
        validate_list_url("https://bilibili.com").unwrap_err(),
        ParseError::InvalidPath
    );
}

#[test]
fn validate_list_url_is_idempotent_on_its_result() {
    let once = validate_list_url("  https://bilibili.com/list/ml42?oid=1 ").unwrap();
    assert_eq!(once, "https://www.bilibili.com/list/ml42");
    assert_eq!(validate_list_url(&once).unwrap(), once);
}

#[test]
fn parse_error_messages() {
    assert_eq!(ParseError::EmptyUrl.message(), "请输入有效的 Bilibili 列表或视频地址");
    assert_eq!(ParseError::InvalidScheme.message(), "列表地址必须为 https://");
    assert_eq!(ParseError::InvalidHost.message(), "仅支持 Bilibili 官方列表地址");
    assert_eq!(
        ParseError::InvalidPath.message(),
        "地址路径需为 /list/<id> 或 /video/<id> 形式"
    );
}

// ---- normalize_video_id ----

#[test]
fn normalize_video_id_bv() {
    assert_eq!(
        normalize_video_id("/video/BV1abc123"),
        Some("BV1abc123".to_string())
    );
}

#[test]
fn normalize_video_id_av() {
    assert_eq!(normalize_video_id("/video/av42"), Some("av42".to_string()));
    assert_eq!(normalize_video_id("/video/AV42"), Some("av42".to_string()));
}

#[test]
fn normalize_video_id_none() {
    assert_eq!(normalize_video_id("/list/1"), None);
    assert_eq!(normalize_video_id("/video/xyz"), None);
}

#[test]
fn normalize_video_id_takes_first_bv_then_falls_back_to_av() {
    assert_eq!(normalize_video_id("BV-then-aV7x"), Some("av7".to_string()));
    assert_eq!(normalize_video_id("x/BV1a_b/BV2"), Some("BV1a".to_string()));
    assert_eq!(normalize_video_id("av"), None);
}

#[test]
fn normalize_video_id_skips_markers_without_an_id() {
    assert_eq!(normalize_video_id("/fav/av42"), Some("av42".to_string()));
    assert_eq!(normalize_video_id("BV/BV1xy"), Some("BV1xy".to_string()));
    assert_eq!(normalize_video_id("xAV/aV9"), Some("av9".to_string()));
    assert_eq!(normalize_video_id("BV_av_"), None);
}

#[test]
fn normalize_video_id_is_idempotent() {
    for s in ["/video/BV1abc123?p=2", "/video/Av42/", "BVx", "xav9"] {
        let once = normalize_video_id(s).unwrap();
        assert_eq!(normalize_video_id(&once), Some(once.clone()));
    }
}

// ---- parse_list_html ----

#[test]
fn parse_list_html_extracts_video_pages() {
    let html = r#"<a href="/video/BV1abc">one</a><a href="https://www.bilibili.com/video/av42">two</a>"#;
    let items = parse_list_html("https://www.bilibili.com/list/12853451", html);
    assert_eq!(
        items,
        vec![
            parsed("BV1abc", "one", ItemStatus::Playable),
            parsed("av42", "two", ItemStatus::Playable),
        ]
    );
}

#[test]
fn parse_list_html_dedups_within_source() {
    let html = r#"<a href="/video/BV1abc">one</a><a href="/video/BV1abc">dup</a>"#;
    let items = parse_list_html("https://www.bilibili.com/list/1", html);
    assert_eq!(items.len(), 1);
    assert_eq!(items[0].id, "BV1abc");
}

#[test]
fn parse_list_html_excludes_stream_urls() {
    let html = r#"<a href="/video/BV1abc">one</a><a href="//xy.com/playurl?sign=x">stream</a>"#;
    let items = parse_list_html("https://www.bilibili.com/list/1", html);
    assert_eq!(items, vec![parsed("BV1abc", "one", ItemStatus::Playable)]);
}

#[test]
fn parse_list_html_marks_unparseable_invalid() {
    let html = r#"<a href="/video/BV1abc">one</a><a href="/video/xyz">bad</a>"#;
    let items = parse_list_html("https://www.bilibili.com/list/1", html);
    assert_eq!(items.len(), 2);
    assert_eq!(items[0].status, ItemStatus::Playable);
    assert_eq!(items[1].id, "xyz");
    assert_eq!(items[1].status, ItemStatus::Invalid);
}

#[test]
fn parse_list_html_invalid_source_returns_empty() {
    let html = r#"<a href="/video/BV1abc">one</a>"#;
    assert!(parse_list_html("https://example.com/list/1", html).is_empty());
}

#[test]
fn parse_list_html_pending_when_no_title() {
    let html = r#"<a href="/video/BV1abc"></a>"#;
    let items = parse_list_html("https://www.bilibili.com/list/1", html);
    assert_eq!(items, vec![parsed("BV1abc", "", ItemStatus::Pending)]);
}

#[test]
fn parse_list_html_reads_attribute_forms_and_strips_tags() {
    let html = [
        "<abbr>x</abbr>",
        "<a class='c' href = 'https://bilibili.com/video/BV9x?p=1'> <b>Nine</b> </a>",
        "<a\thref=/video/av7/>seven</a>",
        "<a data-href=\"/video/BV0\" >skip</a>",
        "<a href=\"http://www.bilibili.com/video/BV8\">insecure</a>",
        "<a href=\"#top\">top</a>",
        "<a href=\"video/BV6\">relative</a>",
    ]
    .join("");
    let html = html.as_str();
    let items = parse_list_html("https://www.bilibili.com/list/1", html);
    assert_eq!(
        items,
        vec![
            parsed("BV9x", "Nine", ItemStatus::Playable),
            parsed("av7", "seven", ItemStatus::Playable),
            parsed("BV6", "relative", ItemStatus::Playable),
        ]
    );
}

#[test]
fn parse_list_html_stops_at_unclosed_anchor() {
    let html = r#"<a href="/video/BV1">one</a><a href="/video/BV2">two"#;
    let items = parse_list_html("https://www.bilibili.com/list/1", html);
    assert_eq!(items, vec![parsed("BV1", "one", ItemStatus::Playable)]);
}

#[test]
fn parse_list_html_dedups_ids_without_regard_to_case() {
    let html = r#"<a href="/video/AV5">x</a><a href="/video/av5">y</a><a href="/video/bv1">z</a><a href="/video/BV1">w</a>"#;
    let items = parse_list_html("https://www.bilibili.com/list/1", html);
    assert_eq!(
        items,
        vec![
            parsed("av5", "x", ItemStatus::Playable),
            parsed("bv1", "z", ItemStatus::Invalid),
        ]
    );
}

#[test]
fn html_scannability() {
    assert!(html_is_scannable(r#"<a href="/video/BV1">one</a>"#));
    assert!(html_is_scannable("<a href=\"/video/\u{105}\">x</a>"));
    assert!(!html_is_scannable("<a href=/video/\u{105}>x</a>"));
    assert!(!html_is_scannable("<a href=x\u{a0}y>x"));
}

// ---- dedup_items ----

#[test]
fn dedup_items_drops_existing() {
    let new = vec![
        parsed("BV1", "a", ItemStatus::Playable),
        parsed("BV2", "b", ItemStatus::Playable),
    ];
    let result = dedup_items(new, &["BV1".to_string()]);
    assert_eq!(result, vec![parsed("BV2", "b", ItemStatus::Playable)]);
}

#[test]
fn dedup_items_case_insensitive() {
    let new = vec![parsed("bv1", "a", ItemStatus::Playable)];
    let result = dedup_items(new, &["BV1".to_string()]);
    assert!(result.is_empty());
}

#[test]
fn dedup_items_keeps_order_and_duplicates_among_new() {
    let new = vec![
        parsed("av1", "a", ItemStatus::Playable),
        parsed("AV2", "b", ItemStatus::Playable),
        parsed("av1", "c", ItemStatus::Pending),
    ];
    let result = dedup_items(new, &["av2".to_string()]);
    assert_eq!(
        result,
        vec![
            parsed("av1", "a", ItemStatus::Playable),
            parsed("av1", "c", ItemStatus::Pending),
        ]
    );
}
