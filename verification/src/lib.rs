//! Verified core of a desktop Bilibili playlist player: source-URL checks,
//! list-page scanning, page-bridge decisions and history bookkeeping.

pub mod text;
pub mod model;
pub mod parser;
pub mod html;
pub mod webview;
pub mod scripts;
pub mod events;
pub mod bridge;
pub mod capture;
pub mod history;
pub mod tray;
pub mod laws;
