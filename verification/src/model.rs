//! Data carried between the page scanner, the playlist store and the user
//! interface.

use vstd::prelude::*;

verus! {

/// State of a playlist item.
#[derive(Debug, Clone, Copy, PartialEq, Eq, Structural)]
pub enum ItemStatus {
    Playable,
    Pending,
    Invalid,
    Deleted,
}

/// How playback moves on at the end of an item.
#[derive(Debug, Clone, Copy, PartialEq, Eq, Structural)]
pub enum PlaybackMode {
    Ordered,
    ListLoop,
    SingleLoop,
    Random,
}

/// The mode a stored document takes when it names none.
pub fn default_playback_mode() -> (m: PlaybackMode)
    ensures
        m == PlaybackMode::ListLoop,
{
    PlaybackMode::ListLoop
}

impl PlaybackMode {
    /// The kebab-case name of the mode, as the interface spells it.
    pub open spec fn spec_name(self) -> Seq<char> {
        match self {
            PlaybackMode::Ordered => "ordered"@,
            PlaybackMode::ListLoop => "list-loop"@,
            PlaybackMode::SingleLoop => "single-loop"@,
            PlaybackMode::Random => "random"@,
        }
    }

    /// The kebab-case name of the mode, as the interface spells it.
    pub fn name(&self) -> (s: &'static str)
        ensures
            s@ == self.spec_name(),
    {
        match self {
            PlaybackMode::Ordered => "ordered",
            PlaybackMode::ListLoop => "list-loop",
            PlaybackMode::SingleLoop => "single-loop",
            PlaybackMode::Random => "random",
        }
    }
}

/// One video found on a list page. (The cover, author and duration are not
/// read from list pages.)
#[derive(Debug, Clone, PartialEq)]
pub struct ParsedItem {
    pub id: String,
    pub title: String,
    pub url: String,
    pub cover_url: Option<String>,
    pub author: Option<String>,
    pub status: ItemStatus,
}

/// The value of a [`ParsedItem`].
pub struct ParsedItemView {
    pub id: Seq<char>,
    pub title: Seq<char>,
    pub url: Seq<char>,
    pub cover_url: Option<Seq<char>>,
    pub author: Option<Seq<char>>,
    pub status: ItemStatus,
}

pub open spec fn opt_view(o: Option<String>) -> Option<Seq<char>> {
    match o {
        Some(s) => Some(s@),
        None => None,
    }
}

impl View for ParsedItem {
    type V = ParsedItemView;

    open spec fn view(&self) -> ParsedItemView {
        ParsedItemView {
            id: self.id@,
            title: self.title@,
            url: self.url@,
            cover_url: opt_view(self.cover_url),
            author: opt_view(self.author),
            status: self.status,
        }
    }
}

/// The values of a list of items.
pub open spec fn item_views(v: Seq<ParsedItem>) -> Seq<ParsedItemView> {
    v.map_values(|i: ParsedItem| i@)
}


/// A number of seconds, carried as the IEEE 754 bit pattern of the `f64`
/// that the page reports; the library compares and moves it, never computes
/// with it. The zero pattern is `0.0`.
#[derive(Debug, Clone, Copy, PartialEq, Eq, Structural)]
pub struct Seconds {
    pub bits: u64,
}

impl Seconds {
    /// Zero seconds (`0.0`).
    pub fn zero() -> (s: Seconds)
        ensures
            s.bits == 0,
    {
        Seconds { bits: 0 }
    }
}


/// A playback command from the interface.
#[derive(Debug, Clone, PartialEq)]
pub enum PlaybackCommandDto {
    /// Open the video page `url` and play it from the position.
    Load { url: String, position_seconds: Seconds },
    Play,
    Pause,
    Next,
    Previous,
    Seek { position_seconds: Seconds },
}

} // verus!
