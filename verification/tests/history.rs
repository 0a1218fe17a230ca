use bili_list_player::history::{
    corrupt_file_name, decimal, generate_event_id, rotate_history, temp_file_name, MAX_EVENTS,
};
use bili_list_player::model::{default_playback_mode, PlaybackMode};
use bili_list_player::tray::{tray_menu_command, TrayCommand};

#[test]
fn decimal_and_event_ids() {
    assert_eq!(decimal(0), "0");
    assert_eq!(decimal(1_700_000_000_123_456_789), "1700000000123456789");
    assert_eq!(decimal(u128::MAX), u128::MAX.to_string());
    assert_eq!(generate_event_id(42, 255, "played"), "42-ff-played");
    assert_eq!(generate_event_id(7, 0, "edit"), "7-0-edit");
}

#[test]
fn storage_file_names() {
    assert_eq!(corrupt_file_name(12), "playlists.json.corrupt.12");
    assert_eq!(temp_file_name("edit-history.jsonl", 3), "edit-history.jsonl.tmp.3");
}

#[test]
fn rotate_history_keeps_last_lines() {
    assert_eq!(rotate_history("a\nb\nc\n", 2), Some("b\nc\n".to_string()));
    assert_eq!(rotate_history("a\r\nb\r\nc", 1), Some("c\n".to_string()));
    assert_eq!(rotate_history("a\nb\n", 2), None);
    assert_eq!(rotate_history("", 0), None);
    assert_eq!(rotate_history("x\n", 0), Some("\n".to_string()));
}

#[test]
fn event_ids_differ_across_types() {
    assert_ne!(generate_event_id(5, 1, "edit"), generate_event_id(5, 1, "played"));
    assert_ne!(generate_event_id(5, 1, "a-b"), generate_event_id(5, 1, "a"));
    assert_ne!(generate_event_id(5, 1, "x"), generate_event_id(5, 2, "x"));
}

#[test]
fn appending_then_rotating_keeps_the_last_lines() {
    let mut text = String::new();
    for k in 0usize..5 {
        text.push_str(&format!("line{}\n", k));
        if let Some(rotated) = rotate_history(&text, 3) {
            text = rotated;
        }
        let expected: Vec<String> =
            (k.saturating_sub(2)..=k).map(|j| format!("line{}", j)).collect();
        assert_eq!(text.lines().map(str::to_owned).collect::<Vec<_>>(), expected);
    }
}

#[test]
fn rotates_history_to_max_events() {
    let mut text = String::new();
    for i in 0..(MAX_EVENTS + 2) {
        text.push_str(&format!("{{\"timestamp\":\"{}\"}}\n", i));
    }
    let rotated = rotate_history(&text, MAX_EVENTS).unwrap();
    assert_eq!(rotated.lines().count(), MAX_EVENTS);
    assert!(rotated.starts_with("{\"timestamp\":\"2\"}\n"));
}

#[test]
fn default_mode_is_list_loop() {
    assert_eq!(default_playback_mode(), PlaybackMode::ListLoop);
    assert_eq!(PlaybackMode::SingleLoop.name(), "single-loop");
}

#[test]
fn tray_menu_commands() {
    assert_eq!(tray_menu_command("show"), TrayCommand::ShowWindow);
    assert_eq!(tray_menu_command("quit"), TrayCommand::Quit);
    assert_eq!(tray_menu_command("next"), TrayCommand::Emit { action: "next", mode: None });
    assert_eq!(
        tray_menu_command("mode-random"),
        TrayCommand::Emit { action: "mode", mode: Some(PlaybackMode::Random) }
    );
    assert_eq!(tray_menu_command("mode-other"), TrayCommand::Ignore);
    assert_eq!(tray_menu_command("other"), TrayCommand::Ignore);
}
