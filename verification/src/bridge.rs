//! Decisions of the bridge to the embedded Bilibili page. The page loads
//! asynchronously, so capture, title-refresh and playback requests are kept
//! as pending intents and carried out when the page they target has
//! finished loading. Each handler takes the bridge state and an event and
//! gives the new state and the actions to perform, in order; the caller
//! performs them on the real web view.

use vstd::prelude::*;
use crate::model::{PlaybackCommandDto, Seconds};
use crate::parser::{
    normalize_video_id, spec_normalize_video_id, spec_validate_list_url, validate_list_url,
};
use crate::webview::{is_allowed_bili_host, is_bili_host, parse_url, same_list_page, spec_same_list_page, whatwg_url};

verus! {

broadcast use vstd::string::group_string_axioms;

/// The home page the embedded view starts on.
pub const BILI_HOME: &'static str = "https://www.bilibili.com";

/// A script to inject into the embedded page.
#[derive(Debug, Clone, PartialEq)]
pub enum Script {
    /// `capture_script(source_url, request_id)`.
    Capture { source_url: String, request_id: String },
    /// `video_meta_script(bvid, request_id)`.
    VideoMeta { bvid: String, request_id: String },
    /// `play_control_script()`.
    Play,
    /// `pause_control_script()`.
    Pause,
    /// `seek_control_script` at the position.
    Seek { position_seconds: Seconds },
    /// `seek_and_play_control_script` at the position.
    SeekAndPlay { position_seconds: Seconds, play: bool },
    /// `playback_settings_script()`.
    PlaybackSettings,
}

/// One step for the caller to perform on the embedded view.
#[derive(Debug, Clone, PartialEq)]
pub enum BridgeAction {
    /// Create the embedded view (failing the request if that fails).
    OpenWebview,
    /// Navigate the view to the URL (failing the request if that fails).
    Navigate { url: String },
    /// Run the script (failing the request if that fails).
    Eval { script: Script },
    /// Run the script, ignoring failure.
    EvalQuietly { script: Script },
    /// Run the script a little later (after the page's player has been
    /// set up), ignoring failure.
    EvalLater { script: Script },
}

/// The value of a [`Script`].
pub enum ScriptView {
    Capture { source_url: Seq<char>, request_id: Seq<char> },
    VideoMeta { bvid: Seq<char>, request_id: Seq<char> },
    Play,
    Pause,
    Seek { position_seconds: Seconds },
    SeekAndPlay { position_seconds: Seconds, play: bool },
    PlaybackSettings,
}

impl View for Script {
    type V = ScriptView;

    open spec fn view(&self) -> ScriptView {
        match self {
            Script::Capture { source_url, request_id } => ScriptView::Capture {
                source_url: source_url@,
                request_id: request_id@,
            },
            Script::VideoMeta { bvid, request_id } => ScriptView::VideoMeta {
                bvid: bvid@,
                request_id: request_id@,
            },
            Script::Play => ScriptView::Play,
            Script::Pause => ScriptView::Pause,
            Script::Seek { position_seconds } => ScriptView::Seek {
                position_seconds: *position_seconds,
            },
            Script::SeekAndPlay { position_seconds, play } => ScriptView::SeekAndPlay {
                position_seconds: *position_seconds,
                play: *play,
            },
            Script::PlaybackSettings => ScriptView::PlaybackSettings,
        }
    }
}

/// The value of a [`BridgeAction`].
pub enum ActionView {
    OpenWebview,
    Navigate { url: Seq<char> },
    Eval { script: ScriptView },
    EvalQuietly { script: ScriptView },
    EvalLater { script: ScriptView },
}

impl View for BridgeAction {
    type V = ActionView;

    open spec fn view(&self) -> ActionView {
        match self {
            BridgeAction::OpenWebview => ActionView::OpenWebview,
            BridgeAction::Navigate { url } => ActionView::Navigate { url: url@ },
            BridgeAction::Eval { script } => ActionView::Eval { script: script@ },
            BridgeAction::EvalQuietly { script } => ActionView::EvalQuietly { script: script@ },
            BridgeAction::EvalLater { script } => ActionView::EvalLater { script: script@ },
        }
    }
}

/// The values of a list of actions.
pub open spec fn action_views(v: Seq<BridgeAction>) -> Seq<ActionView> {
    v.map_values(|a: BridgeAction| a@)
}

/// What the bridge remembers between events.
#[derive(Debug)]
pub struct BridgeState {
    /// The address of the last page that finished loading.
    pub current_url: Option<String>,
    /// A capture waiting for its list page: `(source_url, request_id)`.
    pub pending_capture: Option<(String, String)>,
    /// The position to seek to when the video to play has loaded.
    pub pending_seek: Option<Seconds>,
    /// Whether to play when the video to play has loaded.
    pub pending_play: bool,
    /// The page of the video to play.
    pub pending_playback_url: Option<String>,
    /// A title refresh waiting for a Bilibili page: `(bvid, request_id)`.
    pub pending_meta: Option<(String, String)>,
}

/// The value of a [`BridgeState`].
pub struct BridgeView {
    pub current_url: Option<Seq<char>>,
    pub pending_capture: Option<(Seq<char>, Seq<char>)>,
    pub pending_seek: Option<Seconds>,
    pub pending_play: bool,
    pub pending_playback_url: Option<Seq<char>>,
    pub pending_meta: Option<(Seq<char>, Seq<char>)>,
}

pub open spec fn opt_str(o: Option<String>) -> Option<Seq<char>> {
    match o {
        Some(s) => Some(s@),
        None => None,
    }
}

pub open spec fn opt_pair(o: Option<(String, String)>) -> Option<(Seq<char>, Seq<char>)> {
    match o {
        Some((a, b)) => Some((a@, b@)),
        None => None,
    }
}

impl View for BridgeState {
    type V = BridgeView;

    open spec fn view(&self) -> BridgeView {
        BridgeView {
            current_url: opt_str(self.current_url),
            pending_capture: opt_pair(self.pending_capture),
            pending_seek: self.pending_seek,
            pending_play: self.pending_play,
            pending_playback_url: opt_str(self.pending_playback_url),
            pending_meta: opt_pair(self.pending_meta),
        }
    }
}

impl BridgeState {
    /// No page loaded and nothing pending.
    pub fn new() -> (s: BridgeState)
        ensures
            s@ == (BridgeView {
                current_url: None,
                pending_capture: None,
                pending_seek: None,
                pending_play: false,
                pending_playback_url: None,
                pending_meta: None,
            }),
    {
        BridgeState {
            current_url: None,
            pending_capture: None,
            pending_seek: None,
            pending_play: false,
            pending_playback_url: None,
            pending_meta: None,
        }
    }
}

/// Whether `url` is a page on a Bilibili host.
pub open spec fn on_bili_host(url: Seq<char>) -> bool {
    match whatwg_url(url) {
        Ok((Some(h), _)) => is_bili_host(h),
        _ => false,
    }
}

/// The effect of the capture intent when `url` has finished loading.
pub open spec fn capture_step(c: Option<(Seq<char>, Seq<char>)>, url: Seq<char>) -> (
    Option<(Seq<char>, Seq<char>)>,
    Seq<ActionView>,
) {
    match c {
        Some((src, req)) => if spec_same_list_page(src, url) {
            (
                None,
                seq![ActionView::EvalQuietly { script: ScriptView::Capture { source_url: src, request_id: req } }],
            )
        } else {
            (c, Seq::empty())
        },
        None => (None, Seq::empty()),
    }
}

/// The effect of the title-refresh intent when `url` has finished loading.
pub open spec fn meta_step(m: Option<(Seq<char>, Seq<char>)>, url: Seq<char>) -> (
    Option<(Seq<char>, Seq<char>)>,
    Seq<ActionView>,
) {
    match m {
        Some((bv, req)) => if on_bili_host(url) {
            (None, seq![ActionView::EvalQuietly { script: ScriptView::VideoMeta { bvid: bv, request_id: req } }])
        } else {
            (m, Seq::empty())
        },
        None => (None, Seq::empty()),
    }
}

/// Whether the playback intent targets the page at `url`.
pub open spec fn playback_matches(s: BridgeView, url: Seq<char>) -> bool {
    s.pending_playback_url matches Some(t) && spec_same_list_page(t, url)
}

/// What a finished page load does: the page becomes current; a pending
/// capture runs on its list page, a pending title refresh on any Bilibili
/// page; a pending playback is carried out only on its own page (seek, then
/// play if asked, a little later; or play at once when there is no seek)
/// and is then cleared; otherwise every intent stays as it was. The page's
/// own playback settings are always switched off.
pub open spec fn spec_page_finished(s: BridgeView, url: Seq<char>) -> (BridgeView, Seq<ActionView>) {
    let (capture, a1) = capture_step(s.pending_capture, url);
    let (meta, a2) = meta_step(s.pending_meta, url);
    let settings = seq![ActionView::EvalQuietly { script: ScriptView::PlaybackSettings }];
    if playback_matches(s, url) {
        let a3 = match s.pending_seek {
            Some(p) => seq![ActionView::EvalLater { script: ScriptView::SeekAndPlay { position_seconds: p, play: s.pending_play } }],
            None => if s.pending_play {
                seq![ActionView::EvalQuietly { script: ScriptView::Play }]
            } else {
                Seq::empty()
            },
        };
        (
            BridgeView {
                current_url: Some(url),
                pending_capture: capture,
                pending_seek: None,
                pending_play: false,
                pending_playback_url: None,
                pending_meta: meta,
            },
            a1 + a2 + a3 + settings,
        )
    } else {
        (
            BridgeView {
                current_url: Some(url),
                pending_capture: capture,
                pending_seek: s.pending_seek,
                pending_play: s.pending_play,
                pending_playback_url: s.pending_playback_url,
                pending_meta: meta,
            },
            a1 + a2 + settings,
        )
    }
}

fn copy_string(s: &String) -> (r: String)
    ensures
        r@ == s@,
{
    s.clone()
}

/// Handles the end of a page load in the embedded view; see
/// [`spec_page_finished`].
pub fn on_page_finished(state: &mut BridgeState, url: &str) -> (actions: Vec<BridgeAction>)
    ensures
        (final(state)@, action_views(actions@)) == spec_page_finished(old(state)@, url@),
{
    let ghost s0 = state@;
    let url_s = String::from_str(url);
    state.current_url = Some(copy_string(&url_s));
    let mut actions: Vec<BridgeAction> = Vec::new();
    let pending = state.pending_capture.take();
    if let Some((src, req)) = pending {
        if same_list_page(src.as_str(), url) {
            actions.push(BridgeAction::EvalQuietly { script: Script::Capture { source_url: src, request_id: req } });
        } else {
            state.pending_capture = Some((src, req));
        }
    }
    let ghost a1 = action_views(actions@);
    let pending_meta = state.pending_meta.take();
    if let Some((bv, req)) = pending_meta {
        let on_bili = match parse_url(url) {
            Ok(u) => match &u.host {
                Some(h) => is_allowed_bili_host(h.as_str()),
                None => false,
            },
            Err(_) => false,
        };
        if on_bili {
            actions.push(BridgeAction::EvalQuietly { script: Script::VideoMeta { bvid: bv, request_id: req } });
        } else {
            state.pending_meta = Some((bv, req));
        }
    }
    let ghost a2 = action_views(actions@);
    let matches = match &state.pending_playback_url {
        Some(target) => same_list_page(target.as_str(), url),
        None => false,
    };
    if matches {
        state.pending_playback_url = None;
        let pending_seek = state.pending_seek.take();
        let should_play = state.pending_play;
        state.pending_play = false;
        if let Some(pos) = pending_seek {
            actions.push(BridgeAction::EvalLater { script: Script::SeekAndPlay { position_seconds: pos, play: should_play } });
        } else if should_play {
            actions.push(BridgeAction::EvalQuietly { script: Script::Play });
        }
    }
    let ghost a3 = action_views(actions@);
    actions.push(BridgeAction::EvalQuietly { script: Script::PlaybackSettings });
    proof {
        let (c, x1) = capture_step(s0.pending_capture, url@);
        let (m, x2) = meta_step(s0.pending_meta, url@);
        assert(a1 =~= x1);
        assert(a2 =~= x1 + x2);
    }
    assert(action_views(actions@) =~= a3.push(ActionView::EvalQuietly { script: ScriptView::PlaybackSettings }));
    actions
}


/// The refusal of a navigation outside Bilibili.
pub open spec fn off_site_message() -> Seq<char> {
    "仅允许 Bilibili 站内导航"@
}

/// The refusal of a request that needs the embedded view before it exists.
pub open spec fn not_open_message() -> Seq<char> {
    "Bilibili WebView 未打开"@
}

/// Whether the embedded view may navigate to `url`: the URL must parse (the
/// parse error text otherwise) and be on a Bilibili host.
pub open spec fn spec_check_navigation(url: Seq<char>) -> Result<(), Seq<char>> {
    match whatwg_url(url) {
        Err(e) => Err(e),
        Ok((h, _)) => if h matches Some(hh) && is_bili_host(hh) {
            Ok(())
        } else {
            Err(off_site_message())
        },
    }
}

/// Checks that the embedded view may navigate to `url`; see
/// [`spec_check_navigation`].
pub fn check_navigation(url: &str) -> (r: Result<(), String>)
    ensures
        match spec_check_navigation(url@) {
            Ok(()) => r is Ok,
            Err(e) => r matches Err(m) && m@ == e,
        },
{
    match parse_url(url) {
        Err(e) => Err(e),
        Ok(u) => {
            let allowed = match &u.host {
                Some(h) => is_allowed_bili_host(h.as_str()),
                None => false,
            };
            if allowed {
                Ok(())
            } else {
                Err(String::from_str("仅允许 Bilibili 站内导航"))
            }
        },
    }
}

/// The steps that reach `url`: navigate the view, creating it first when
/// it is not open.
pub open spec fn navigate_steps(open: bool, url: Seq<char>) -> Seq<ActionView> {
    if open {
        seq![ActionView::Navigate { url: url }]
    } else {
        seq![ActionView::OpenWebview, ActionView::Navigate { url: url }]
    }
}

/// What a playback command does. `Load` records the intent to seek to the
/// position and play once the video page has loaded, quietly pauses the
/// current video and navigates; `Play` while a load is pending only asks
/// that the loaded video play, otherwise plays now; `Pause` abandons a
/// pending load and pauses; `Seek` seeks now; `Next` and `Previous` leave
/// everything to the interface, which follows with a `Load`. A command that
/// needs the open view fails without it.
pub open spec fn spec_playback_command(s: BridgeView, cmd: PlaybackCommandDto, open: bool) -> (
    BridgeView,
    Result<Seq<ActionView>, Seq<char>>,
) {
    match cmd {
        PlaybackCommandDto::Load { url, position_seconds } => match spec_check_navigation(url@) {
            Err(e) => (s, Err(e)),
            Ok(()) => (
                BridgeView {
                    pending_seek: Some(position_seconds),
                    pending_play: true,
                    pending_playback_url: Some(url@),
                    ..s
                },
                Ok(
                    if open {
                        seq![ActionView::EvalQuietly { script: ScriptView::Pause }, ActionView::Navigate { url: url@ }]
                    } else {
                        navigate_steps(false, url@)
                    },
                ),
            ),
        },
        PlaybackCommandDto::Play => if s.pending_seek is Some {
            (BridgeView { pending_play: true, ..s }, Ok(Seq::empty()))
        } else if !open {
            (s, Err(not_open_message()))
        } else {
            (s, Ok(seq![ActionView::Eval { script: ScriptView::Play }]))
        },
        PlaybackCommandDto::Pause => {
            let s2 = if s.pending_playback_url is Some {
                BridgeView { pending_seek: None, pending_play: false, pending_playback_url: None, ..s }
            } else {
                s
            };
            if !open {
                (s2, Err(not_open_message()))
            } else {
                (s2, Ok(seq![ActionView::Eval { script: ScriptView::Pause }]))
            }
        },
        PlaybackCommandDto::Seek { position_seconds } => if !open {
            (s, Err(not_open_message()))
        } else {
            (s, Ok(seq![ActionView::Eval { script: ScriptView::Seek { position_seconds } }]))
        },
        PlaybackCommandDto::Next | PlaybackCommandDto::Previous => (s, Ok(Seq::empty())),
    }
}

/// The views of a handler's outcome.
pub open spec fn outcome_view(r: Result<Vec<BridgeAction>, String>) -> Result<Seq<ActionView>, Seq<char>> {
    match r {
        Ok(v) => Ok(action_views(v@)),
        Err(e) => Err(e@),
    }
}

fn not_open() -> (m: String)
    ensures
        m@ == not_open_message(),
{
    String::from_str("Bilibili WebView 未打开")
}

/// Handles a playback command; `webview_open` tells whether the embedded
/// view exists. See [`spec_playback_command`].
pub fn send_playback_command(state: &mut BridgeState, command: &PlaybackCommandDto, webview_open: bool) -> (r: Result<Vec<BridgeAction>, String>)
    ensures
        (final(state)@, outcome_view(r)) == spec_playback_command(old(state)@, *command, webview_open),
{
    match command {
        PlaybackCommandDto::Load { url, position_seconds } => {
            match check_navigation(url.as_str()) {
                Err(e) => return Err(e),
                Ok(()) => {},
            }
            state.pending_seek = Some(*position_seconds);
            state.pending_play = true;
            state.pending_playback_url = Some(copy_string(url));
            let mut actions: Vec<BridgeAction> = Vec::new();
            if webview_open {
                actions.push(BridgeAction::EvalQuietly { script: Script::Pause });
            } else {
                actions.push(BridgeAction::OpenWebview);
            }
            actions.push(BridgeAction::Navigate { url: copy_string(url) });
            assert(action_views(actions@) =~= if webview_open {
                seq![ActionView::EvalQuietly { script: ScriptView::Pause }, ActionView::Navigate { url: url@ }]
            } else {
                navigate_steps(false, url@)
            });
            Ok(actions)
        },
        PlaybackCommandDto::Play => {
            if state.pending_seek.is_some() {
                state.pending_play = true;
                let v: Vec<BridgeAction> = Vec::new();
                assert(action_views(v@) =~= Seq::<ActionView>::empty());
                return Ok(v);
            }
            if !webview_open {
                return Err(not_open());
            }
            let v = vec![BridgeAction::Eval { script: Script::Play }];
            assert(action_views(v@) =~= seq![ActionView::Eval { script: ScriptView::Play }]);
            Ok(v)
        },
        PlaybackCommandDto::Pause => {
            if state.pending_playback_url.is_some() {
                state.pending_seek = None;
                state.pending_play = false;
                state.pending_playback_url = None;
            }
            if !webview_open {
                return Err(not_open());
            }
            let v = vec![BridgeAction::Eval { script: Script::Pause }];
            assert(action_views(v@) =~= seq![ActionView::Eval { script: ScriptView::Pause }]);
            Ok(v)
        },
        PlaybackCommandDto::Seek { position_seconds } => {
            if !webview_open {
                return Err(not_open());
            }
            let v = vec![BridgeAction::Eval { script: Script::Seek { position_seconds: *position_seconds } }];
            assert(action_views(v@) =~= seq![ActionView::Eval { script: ScriptView::Seek { position_seconds: *position_seconds } }]);
            Ok(v)
        },
        PlaybackCommandDto::Next | PlaybackCommandDto::Previous => {
            let v: Vec<BridgeAction> = Vec::new();
            assert(action_views(v@) =~= Seq::<ActionView>::empty());
            Ok(v)
        },
    }
}


/// What a capture request does: the source URL must pass
/// `validate_list_url` (its message otherwise) and parse; when the view
/// already shows that list page the capture script runs now, otherwise the
/// capture waits for the page and the view navigates there.
pub open spec fn spec_capture_list_html(s: BridgeView, source_url: Seq<char>, request_id: Seq<char>, open: bool) -> (
    BridgeView,
    Result<Seq<ActionView>, Seq<char>>,
) {
    match spec_validate_list_url(source_url) {
        Err(e) => (s, Err(e.spec_message())),
        Ok(_) => match whatwg_url(source_url) {
            Err(e) => (s, Err(e)),
            Ok(_) => if s.current_url matches Some(c) && spec_same_list_page(c, source_url) {
                if !open {
                    (s, Err(not_open_message()))
                } else {
                    (
                        s,
                        Ok(seq![ActionView::Eval { script: ScriptView::Capture { source_url, request_id } }]),
                    )
                }
            } else {
                (
                    BridgeView { pending_capture: Some((source_url, request_id)), ..s },
                    Ok(navigate_steps(open, source_url)),
                )
            },
        },
    }
}

fn navigate_exec(open: bool, url: &String) -> (v: Vec<BridgeAction>)
    ensures
        action_views(v@) == navigate_steps(open, url@),
{
    let mut v: Vec<BridgeAction> = Vec::new();
    if !open {
        v.push(BridgeAction::OpenWebview);
    }
    v.push(BridgeAction::Navigate { url: copy_string(url) });
    assert(action_views(v@) =~= navigate_steps(open, url@));
    v
}

/// Handles a request to capture the list at `source_url`; see
/// [`spec_capture_list_html`].
pub fn capture_list_html(state: &mut BridgeState, source_url: &str, request_id: &str, webview_open: bool) -> (r: Result<Vec<BridgeAction>, String>)
    ensures
        (final(state)@, outcome_view(r)) == spec_capture_list_html(old(state)@, source_url@, request_id@, webview_open),
{
    match validate_list_url(source_url) {
        Err(e) => return Err(e.message()),
        Ok(_) => {},
    }
    match parse_url(source_url) {
        Err(e) => return Err(e),
        Ok(_) => {},
    }
    let src = String::from_str(source_url);
    let req = String::from_str(request_id);
    let same = match &state.current_url {
        Some(c) => same_list_page(c.as_str(), source_url),
        None => false,
    };
    if same {
        if !webview_open {
            return Err(not_open());
        }
        let v = vec![BridgeAction::Eval { script: Script::Capture { source_url: src, request_id: req } }];
        assert(action_views(v@) =~= seq![ActionView::Eval { script: ScriptView::Capture { source_url: source_url@, request_id: request_id@ } }]);
        Ok(v)
    } else {
        let v = navigate_exec(webview_open, &src);
        state.pending_capture = Some((src, req));
        Ok(v)
    }
}

/// The refusal of a title refresh for a text without a video id.
pub open spec fn invalid_id_message() -> Seq<char> {
    "无效的视频 id"@
}

/// What a title-refresh request does: `bvid` must hold a video id (a
/// refusal otherwise); when the view is open on a Bilibili page the title
/// script runs there now, without navigating; otherwise the refresh waits
/// and the view goes to the home page.
pub open spec fn spec_refresh_video_title(s: BridgeView, bvid: Seq<char>, request_id: Seq<char>, open: bool) -> (
    BridgeView,
    Result<Seq<ActionView>, Seq<char>>,
) {
    match spec_normalize_video_id(bvid) {
        None => (s, Err(invalid_id_message())),
        Some(bv) => if open && (s.current_url matches Some(u) && on_bili_host(u)) {
            (s, Ok(seq![ActionView::Eval { script: ScriptView::VideoMeta { bvid: bv, request_id } }]))
        } else {
            (
                BridgeView { pending_meta: Some((bv, request_id)), ..s },
                Ok(navigate_steps(open, BILI_HOME@)),
            )
        },
    }
}

/// Handles a request to refresh the title of video `bvid`; see
/// [`spec_refresh_video_title`].
pub fn refresh_video_title(state: &mut BridgeState, bvid: &str, request_id: &str, webview_open: bool) -> (r: Result<Vec<BridgeAction>, String>)
    ensures
        (final(state)@, outcome_view(r)) == spec_refresh_video_title(old(state)@, bvid@, request_id@, webview_open),
{
    let bv = match normalize_video_id(bvid) {
        Some(bv) => bv,
        None => return Err(String::from_str("无效的视频 id")),
    };
    let req = String::from_str(request_id);
    let on_bili = match &state.current_url {
        Some(u) => match parse_url(u.as_str()) {
            Ok(parts) => match &parts.host {
                Some(h) => is_allowed_bili_host(h.as_str()),
                None => false,
            },
            Err(_) => false,
        },
        None => false,
    };
    let ghost bvv = bv@;
    if webview_open && on_bili {
        let v = vec![BridgeAction::Eval { script: Script::VideoMeta { bvid: bv, request_id: req } }];
        assert(action_views(v@) =~= seq![ActionView::Eval { script: ScriptView::VideoMeta { bvid: bvv, request_id: request_id@ } }]);
        Ok(v)
    } else {
        state.pending_meta = Some((bv, req));
        let home = String::from_str(BILI_HOME);
        Ok(navigate_exec(webview_open, &home))
    }
}

} // verus!
