//! The tray menu: what each menu item asks for.

use vstd::prelude::*;
use crate::model::PlaybackMode;

verus! {

broadcast use vstd::string::group_string_axioms;

/// What a tray menu item asks for.
#[derive(Debug, Clone, Copy, PartialEq, Eq)]
pub enum TrayCommand {
    /// Bring the main window back (un-minimise, show, focus).
    ShowWindow,
    /// Tell the interface to perform `action`, with a playback mode for
    /// `mode`.
    Emit { action: &'static str, mode: Option<PlaybackMode> },
    /// Restore the page's playback settings and leave.
    Quit,
    /// Nothing.
    Ignore,
}

/// The playback mode of a `mode-…` menu item.
pub open spec fn menu_mode(id: Seq<char>) -> Option<PlaybackMode> {
    if id == "mode-ordered"@ {
        Some(PlaybackMode::Ordered)
    } else if id == "mode-list-loop"@ {
        Some(PlaybackMode::ListLoop)
    } else if id == "mode-single-loop"@ {
        Some(PlaybackMode::SingleLoop)
    } else if id == "mode-random"@ {
        Some(PlaybackMode::Random)
    } else {
        None
    }
}

/// What the menu item `id` asks for: `show` the window; `prev`, `next` and
/// `toggle-play` go to the interface as actions of the same name; `quit`
/// leaves; a `mode-…` item sets its playback mode; anything else does
/// nothing.
pub open spec fn spec_tray_menu_command(id: Seq<char>, r: TrayCommand) -> bool {
    if id == "show"@ {
        r == TrayCommand::ShowWindow
    } else if id == "prev"@ || id == "next"@ || id == "toggle-play"@ {
        r matches TrayCommand::Emit { action, mode } && action@ == id && mode is None
    } else if id == "quit"@ {
        r == TrayCommand::Quit
    } else {
        match menu_mode(id) {
            Some(m) => r matches TrayCommand::Emit { action, mode } && action@ == "mode"@ && mode
                == Some(m),
            None => r == TrayCommand::Ignore,
        }
    }
}

/// Decides what the tray menu item `id` asks for; see
/// [`spec_tray_menu_command`].
pub fn tray_menu_command(id: &str) -> (r: TrayCommand)
    ensures
        spec_tray_menu_command(id@, r),
{
    let s = String::from_str(id);
    if s == String::from_str("show") {
        TrayCommand::ShowWindow
    } else if s == String::from_str("prev") {
        TrayCommand::Emit { action: "prev", mode: None }
    } else if s == String::from_str("next") {
        TrayCommand::Emit { action: "next", mode: None }
    } else if s == String::from_str("toggle-play") {
        TrayCommand::Emit { action: "toggle-play", mode: None }
    } else if s == String::from_str("quit") {
        TrayCommand::Quit
    } else {
        let mode = if s == String::from_str("mode-ordered") {
            Some(PlaybackMode::Ordered)
        } else if s == String::from_str("mode-list-loop") {
            Some(PlaybackMode::ListLoop)
        } else if s == String::from_str("mode-single-loop") {
            Some(PlaybackMode::SingleLoop)
        } else if s == String::from_str("mode-random") {
            Some(PlaybackMode::Random)
        } else {
            None
        };
        match mode {
            Some(m) => TrayCommand::Emit { action: "mode", mode: Some(m) },
            None => TrayCommand::Ignore,
        }
    }
}

} // verus!
