//! Rules of the embedded Bilibili page: which hosts it may show, when two
//! addresses are the same page, how text is embedded in injected scripts,
//! and the scripts themselves.

use vstd::prelude::*;
use crate::model::{opt_view, PlaybackCommandDto};
use crate::text::{chars_of, replace, replace_all, string_of};
use vstd::string::StringExecFns;
use crate::scripts::{
    BILI_MEDIALIST_API, CAPTURE_SCRIPT_TEMPLATE, PLAYBACK_SETTINGS_SCRIPT, PLAY_CONTROL_HELPERS,
    RESTORE_PLAYBACK_SETTINGS_SCRIPT, VIDEO_META_SCRIPT_TEMPLATE,
};

verus! {

broadcast use vstd::string::group_string_axioms;

/// The hosts the embedded page may navigate to.
pub open spec fn is_bili_host(h: Seq<char>) -> bool {
    h == "www.bilibili.com"@ || h == "bilibili.com"@ || h == "passport.bilibili.com"@
}

/// Whether the embedded page may show a page on `host`.
pub fn is_allowed_bili_host(host: &str) -> (b: bool)
    ensures
        b == is_bili_host(host@),
{
    let h = String::from_str(host);
    let www = String::from_str("www.bilibili.com");
    let bare = String::from_str("bilibili.com");
    let passport = String::from_str("passport.bilibili.com");
    h == www || h == bare || h == passport
}

/// The host and path of a parsed URL.
pub struct UrlParts {
    pub host: Option<String>,
    pub path: String,
}

/// What `url::Url::parse` makes of `s`: on success the host (if any) and the
/// path of the URL, otherwise the text of the parse error. A function of `s`
/// alone, as the WHATWG URL parser defines it.
pub uninterp spec fn whatwg_url(s: Seq<char>) -> Result<(Option<Seq<char>>, Seq<char>), Seq<char>>;

/// `url::Url::parse`, read through `host_str` and `path`; the error is given
/// by its `Display` text. The contract ties the result to [`whatwg_url`] of
/// the input and states nothing more of the parser.
#[verifier::external_body]
pub(crate) fn parse_url(s: &str) -> (r: Result<UrlParts, String>)
    ensures
        match whatwg_url(s@) {
            Ok((h, p)) => r matches Ok(u) && opt_view(u.host) == h && u.path@ == p,
            Err(e) => r matches Err(m) && m@ == e,
        },
{
    match url::Url::parse(s) {
        Ok(u) => Ok(UrlParts { host: u.host_str().map(str::to_owned), path: u.path().to_owned() }),
        Err(e) => Err(e.to_string()),
    }
}

/// Whether the page at `url` is Bilibili's passport (log-in or verification)
/// site.
pub open spec fn needs_verification(url: Seq<char>) -> bool {
    match whatwg_url(url) {
        Ok((Some(h), _)) => h == "passport.bilibili.com"@,
        _ => false,
    }
}

/// The access state of a loaded page: `verification-required` on the
/// passport host, `ready` everywhere else.
pub fn page_access_state(url: &str) -> (s: &'static str)
    ensures
        s@ == if needs_verification(url@) {
            "verification-required"@
        } else {
            "ready"@
        },
{
    let passport = String::from_str("passport.bilibili.com");
    match parse_url(url) {
        Ok(u) => match u.host {
            Some(h) => {
                if h == passport {
                    "verification-required"
                } else {
                    "ready"
                }
            },
            None => "ready",
        },
        Err(_) => "ready",
    }
}

/// `path` without one trailing `/`, the root `/` kept.
pub open spec fn spec_normalize_path(path: Seq<char>) -> Seq<char> {
    if path.len() > 1 && path.last() == '/' {
        path.drop_last()
    } else {
        path
    }
}

/// Drops a trailing `/` from a path, keeping the root `/`, so that
/// `/video/BV1` and `/video/BV1/` are the same page.
pub fn normalize_path(path: &str) -> (r: String)
    ensures
        r@ == spec_normalize_path(path@),
{
    let v = chars_of(path);
    let n = v.len();
    if n > 1 && v[n - 1] == '/' {
        let w = crate::text::slice_to_vec(v.as_slice(), 0, n - 1);
        assert(w@ =~= v@.drop_last());
        string_of(w.as_slice())
    } else {
        string_of(v.as_slice())
    }
}

/// Whether `a` and `b` address the same page: when both parse, same host
/// and same path up to a trailing `/`, query and fragment ignored;
/// otherwise the same text.
pub open spec fn spec_same_list_page(a: Seq<char>, b: Seq<char>) -> bool {
    match (whatwg_url(a), whatwg_url(b)) {
        (Ok((ha, pa)), Ok((hb, pb))) => ha == hb && spec_normalize_path(pa) == spec_normalize_path(pb),
        _ => a == b,
    }
}

fn opt_eq(a: &Option<String>, b: &Option<String>) -> (r: bool)
    ensures
        r == (opt_view(*a) == opt_view(*b)),
{
    match (a, b) {
        (Some(x), Some(y)) => *x == *y,
        (None, None) => true,
        _ => false,
    }
}

/// Compares two URLs as pages (host and path), ignoring query, fragment and
/// a trailing `/`; see [`spec_same_list_page`].
pub fn same_list_page(a: &str, b: &str) -> (r: bool)
    ensures
        r == spec_same_list_page(a@, b@),
{
    match (parse_url(a), parse_url(b)) {
        (Ok(x), Ok(y)) => opt_eq(&x.host, &y.host) && normalize_path(x.path.as_str())
            == normalize_path(y.path.as_str()),
        _ => {
            let sa = String::from_str(a);
            let sb = String::from_str(b);
            sa == sb
        },
    }
}

/// The escaped form of one character inside a single-quoted JavaScript
/// string.
pub open spec fn js_escape_char(c: char) -> Seq<char> {
    if c == '\\' {
        seq!['\\', '\\']
    } else if c == '\'' {
        seq!['\\', '\'']
    } else if c == '\n' {
        seq!['\\', 'n']
    } else if c == '\r' {
        seq!['\\', 'r']
    } else {
        seq![c]
    }
}

/// `s` escaped for a single-quoted JavaScript string: backslash, quote, line
/// feed and carriage return become two-character escapes.
pub open spec fn spec_escape_js(s: Seq<char>) -> Seq<char>
    decreases s.len(),
{
    if s.len() == 0 {
        Seq::empty()
    } else {
        spec_escape_js(s.drop_last()) + js_escape_char(s.last())
    }
}

/// Escapes `s` for a single-quoted JavaScript string literal.
pub fn escape_js_string(s: &str) -> (r: String)
    ensures
        r@ == spec_escape_js(s@),
{
    let v = chars_of(s);
    let mut out: Vec<char> = Vec::new();
    let mut i: usize = 0;
    while i < v.len()
        invariant
            i <= v@.len(),
            out@ == spec_escape_js(v@.take(i as int)),
        decreases v@.len() - i,
    {
        let c = v[i];
        let ghost before = out@;
        if c == '\\' {
            out.push('\\');
            out.push('\\');
        } else if c == '\'' {
            out.push('\\');
            out.push('\'');
        } else if c == '\n' {
            out.push('\\');
            out.push('n');
        } else if c == '\r' {
            out.push('\\');
            out.push('r');
        } else {
            out.push(c);
        }
        assert(v@.take(i + 1).drop_last() =~= v@.take(i as int));
        assert(out@ =~= before + js_escape_char(c));
        i += 1;
    }
    assert(v@.take(v@.len() as int) =~= v@);
    string_of(out.as_slice())
}


/// Fills the capture template for `source_url` and `request_id`.
pub fn capture_script(source_url: &str, request_id: &str) -> (r: String)
    ensures
        r@ == replace_all(
            replace_all(
                replace_all(CAPTURE_SCRIPT_TEMPLATE@, "__SOURCE__"@, spec_escape_js(source_url@)),
                "__REQ__"@,
                spec_escape_js(request_id@),
            ),
            "__BILI_MEDIALIST_API__"@,
            BILI_MEDIALIST_API@,
        ),
{
    let src = chars_of(escape_js_string(source_url).as_str());
    let req = chars_of(escape_js_string(request_id).as_str());
    let t = chars_of(CAPTURE_SCRIPT_TEMPLATE);
    let p1 = chars_of("__SOURCE__");
    let p2 = chars_of("__REQ__");
    let p3 = chars_of("__BILI_MEDIALIST_API__");
    let api = chars_of(BILI_MEDIALIST_API);
    proof {
        reveal_strlit("__SOURCE__");
        reveal_strlit("__REQ__");
        reveal_strlit("__BILI_MEDIALIST_API__");
    }
    let a = replace(t.as_slice(), p1.as_slice(), src.as_slice());
    let b = replace(a.as_slice(), p2.as_slice(), req.as_slice());
    let c = replace(b.as_slice(), p3.as_slice(), api.as_slice());
    string_of(c.as_slice())
}


/// Fills the title-fetch template for video `bvid` and `request_id`.
pub fn video_meta_script(bvid: &str, request_id: &str) -> (r: String)
    ensures
        r@ == replace_all(
            replace_all(VIDEO_META_SCRIPT_TEMPLATE@, "__BVID__"@, spec_escape_js(bvid@)),
            "__REQ__"@,
            spec_escape_js(request_id@),
        ),
{
    let bv = chars_of(escape_js_string(bvid).as_str());
    let req = chars_of(escape_js_string(request_id).as_str());
    let t = chars_of(VIDEO_META_SCRIPT_TEMPLATE);
    let p1 = chars_of("__BVID__");
    let p2 = chars_of("__REQ__");
    proof {
        reveal_strlit("__BVID__");
        reveal_strlit("__REQ__");
    }
    let a = replace(t.as_slice(), p1.as_slice(), bv.as_slice());
    let b = replace(a.as_slice(), p2.as_slice(), req.as_slice());
    string_of(b.as_slice())
}

/// The script that records and switches off the page's own playback
/// settings.
pub fn playback_settings_script() -> (s: &'static str)
    ensures
        s@ == PLAYBACK_SETTINGS_SCRIPT@,
{
    PLAYBACK_SETTINGS_SCRIPT
}

/// The script that restores the page's own playback settings.
pub fn restore_playback_settings_script() -> (s: &'static str)
    ensures
        s@ == RESTORE_PLAYBACK_SETTINGS_SCRIPT@,
{
    RESTORE_PLAYBACK_SETTINGS_SCRIPT
}

/// The control helpers followed by `tail`.
fn with_helpers(tail: &str) -> (r: String)
    ensures
        r@ == PLAY_CONTROL_HELPERS@ + tail@,
{
    let mut s = String::from_str(PLAY_CONTROL_HELPERS);
    s.append(tail);
    s
}

/// Waits for the video and plays it.
pub fn play_control_script() -> (r: String)
    ensures
        r@ == PLAY_CONTROL_HELPERS@ + "window.__BILI_CTRL__.poll(function(v){window.__BILI_CTRL__.play(v);});"@,
{
    with_helpers("window.__BILI_CTRL__.poll(function(v){window.__BILI_CTRL__.play(v);});")
}

/// Waits for the video and pauses it.
pub fn pause_control_script() -> (r: String)
    ensures
        r@ == PLAY_CONTROL_HELPERS@ + "window.__BILI_CTRL__.poll(function(v){window.__BILI_CTRL__.pause(v);});"@,
{
    with_helpers("window.__BILI_CTRL__.poll(function(v){window.__BILI_CTRL__.pause(v);});")
}

/// Waits for the video and seeks it to `position`, the decimal text of a
/// number of seconds.
pub fn seek_control_script(position: &str) -> (r: String)
    ensures
        r@ == PLAY_CONTROL_HELPERS@ + "window.__BILI_CTRL__.poll(function(v){window.__BILI_CTRL__.seekTo(v,"@
            + position@ + ");});"@,
{
    let mut s = with_helpers("window.__BILI_CTRL__.poll(function(v){window.__BILI_CTRL__.seekTo(v,");
    s.append(position);
    s.append(");});");
    s
}

/// Waits for the video, seeks it to `position` (the decimal text of a number
/// of seconds) and, when `should_play`, plays it once the seek is done.
pub fn seek_and_play_control_script(position: &str, should_play: bool) -> (r: String)
    ensures
        r@ == PLAY_CONTROL_HELPERS@ + "window.__BILI_CTRL__.poll(function(v){window.__BILI_CTRL__.seekTo(v,"@
            + position@ + ",function(){"@ + (if should_play {
            "window.__BILI_CTRL__.play(v);"@
        } else {
            ""@
        }) + "});});"@,
{
    let play = if should_play {
        "window.__BILI_CTRL__.play(v);"
    } else {
        ""
    };
    let mut s = with_helpers("window.__BILI_CTRL__.poll(function(v){window.__BILI_CTRL__.seekTo(v,");
    s.append(position);
    s.append(",function(){");
    s.append(play);
    s.append("});});");
    s
}

/// The script that carries out a playback command on the open page;
/// `position` is the decimal text of a `Seek`'s number of seconds. `Next`,
/// `Previous` and `Load` are not carried out by a script: their script is
/// empty.
pub fn control_script(cmd: &PlaybackCommandDto, position: &str) -> (r: String)
    ensures
        r@ == match *cmd {
            PlaybackCommandDto::Play => PLAY_CONTROL_HELPERS@
                + "window.__BILI_CTRL__.poll(function(v){window.__BILI_CTRL__.play(v);});"@,
            PlaybackCommandDto::Pause => PLAY_CONTROL_HELPERS@
                + "window.__BILI_CTRL__.poll(function(v){window.__BILI_CTRL__.pause(v);});"@,
            PlaybackCommandDto::Seek { .. } => PLAY_CONTROL_HELPERS@
                + "window.__BILI_CTRL__.poll(function(v){window.__BILI_CTRL__.seekTo(v,"@ + position@
                + ");});"@,
            _ => Seq::empty(),
        },
{
    match cmd {
        PlaybackCommandDto::Play => play_control_script(),
        PlaybackCommandDto::Pause => pause_control_script(),
        PlaybackCommandDto::Seek { .. } => seek_control_script(position),
        _ => String::new(),
    }
}

} // verus!
