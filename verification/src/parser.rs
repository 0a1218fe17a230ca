//! Bilibili list-page adapter: source-URL validation, video-id normalisation,
//! list-page scanning and de-duplication. Pure functions, no I/O.

use vstd::prelude::*;
use crate::html::{anchor_views, anchors, iter_anchors, resolve_url, spec_resolve_url};
use crate::model::{item_views, ItemStatus, ParsedItem, ParsedItemView};
use crate::text::{
    chars_of, find, find_from, find_marker, find_marker_in, lemma_find_marker_bounds, occurs_at, find_in, has_prefix, lemma_find_from_bounds, matches_at, scan, slice_to_vec,
    starts_with, string_of, take_until, trim, trim_range, Stop, ascii_lowercase, to_ascii_lowercase, to_lowercase,
    unicode_lowercase,
};

verus! {

broadcast use vstd::string::group_string_axioms;

/// Why a source URL was refused.
#[derive(Debug, Clone, Copy, PartialEq, Eq, Structural)]
pub enum ParseError {
    EmptyUrl,
    InvalidScheme,
    InvalidHost,
    InvalidPath,
}

impl ParseError {
    /// The user-facing text of the error.
    pub fn message(&self) -> (s: String)
        ensures
            s@ == self.spec_message(),
    {
        match self {
            ParseError::EmptyUrl => String::from_str("请输入有效的 Bilibili 列表或视频地址"),
            ParseError::InvalidScheme => String::from_str("列表地址必须为 https://"),
            ParseError::InvalidHost => String::from_str("仅支持 Bilibili 官方列表地址"),
            ParseError::InvalidPath => String::from_str("地址路径需为 /list/<id> 或 /video/<id> 形式"),
        }
    }

    pub open spec fn spec_message(&self) -> Seq<char> {
        match self {
            ParseError::EmptyUrl => "请输入有效的 Bilibili 列表或视频地址"@,
            ParseError::InvalidScheme => "列表地址必须为 https://"@,
            ParseError::InvalidHost => "仅支持 Bilibili 官方列表地址"@,
            ParseError::InvalidPath => "地址路径需为 /list/<id> 或 /video/<id> 形式"@,
        }
    }
}

/// The hosts from which lists and videos are accepted.
pub open spec fn is_list_host(h: Seq<char>) -> bool {
    h == "www.bilibili.com"@ || h == "bilibili.com"@
}

/// Splits the text after the scheme into host and the rest, which starts at
/// the first `/` (or is `/` when there is none).
pub open spec fn split_host(rest: Seq<char>) -> (Seq<char>, Seq<char>) {
    match find(rest, seq!['/']) {
        Some(i) => (rest.take(i), rest.skip(i)),
        None => (rest, seq!['/']),
    }
}

/// A source path: `/list/<id>` or `/video/<id>` with a non-empty id.
pub open spec fn is_source_path(path: Seq<char>) -> bool {
    ||| starts_with(path, "/list/"@) && path.len() > 6
    ||| starts_with(path, "/video/"@) && path.len() > 7
}

/// What `validate_list_url` gives for `url`: the trimmed URL must be
/// `https://`, on a listed host, with a path `/list/<id>` or `/video/<id>`
/// (a non-empty id); the result is the canonical `https://www.bilibili.com`
/// URL of that path, without query or fragment.
pub open spec fn spec_validate_list_url(url: Seq<char>) -> Result<Seq<char>, ParseError> {
    let t = trim(url);
    if t.len() == 0 {
        Err(ParseError::EmptyUrl)
    } else if !starts_with(t, "https://"@) {
        Err(ParseError::InvalidScheme)
    } else {
        let (host, after) = split_host(t.skip(8));
        let path = take_until(after, Stop::QueryOrFragment);
        if !is_list_host(host) {
            Err(ParseError::InvalidHost)
        } else if !is_source_path(path) {
            Err(ParseError::InvalidPath)
        } else {
            Ok("https://www.bilibili.com"@ + path)
        }
    }
}

fn seq_eq(a: &[char], b: &[char]) -> (r: bool)
    ensures
        r == (a@ == b@),
{
    if a.len() != b.len() {
        return false;
    }
    let r = matches_at(a, b, 0);
    assert(r ==> a@.subrange(0, b@.len() as int) =~= a@);
    assert(a@ == b@ ==> a@.subrange(0, b@.len() as int) =~= b@);
    r
}

fn is_list_host_exec(h: &[char]) -> (r: bool)
    ensures
        r == is_list_host(h@),
{
    let www = chars_of("www.bilibili.com");
    let bare = chars_of("bilibili.com");
    seq_eq(h, www.as_slice()) || seq_eq(h, bare.as_slice())
}

/// Checks and normalises a Bilibili list or video source URL. Accepts
/// `/list/<id>` and `/video/<id>` with a non-empty id; adds `www.` and drops
/// query and fragment.
pub fn validate_list_url(url: &str) -> (r: Result<String, ParseError>)
    ensures
        r matches Ok(s) ==> spec_validate_list_url(url@) == Ok::<Seq<char>, ParseError>(s@),
        r matches Err(e) ==> spec_validate_list_url(url@) == Err::<Seq<char>, ParseError>(e),
{
    let all = chars_of(url);
    let (b, e) = trim_range(all.as_slice());
    let t = slice_to_vec(all.as_slice(), b, e);
    if t.len() == 0 {
        return Err(ParseError::EmptyUrl);
    }
    let https = chars_of("https://");
    proof {
        reveal_strlit("https://");
    }
    if !has_prefix(t.as_slice(), https.as_slice()) {
        return Err(ParseError::InvalidScheme);
    }
    let rest = slice_to_vec(t.as_slice(), 8, t.len());
    assert(rest@ == t@.skip(8));
    let slash = vec!['/'];
    assert(slash@ =~= seq!['/']);
    let (host, after) = match find_in(rest.as_slice(), slash.as_slice(), 0) {
        Some(i) => {
            proof {
                lemma_find_from_bounds(rest@, slash@, 0);
            }
            (slice_to_vec(rest.as_slice(), 0, i), slice_to_vec(rest.as_slice(), i, rest.len()))
        },
        None => {
            let only_slash = vec!['/'];
            assert(only_slash@ =~= seq!['/']);
            (slice_to_vec(rest.as_slice(), 0, rest.len()), only_slash)
        },
    };
    assert(rest@.subrange(0, rest@.len() as int) =~= rest@);
    assert(host@ == split_host(t@.skip(8)).0);
    assert(after@ == split_host(t@.skip(8)).1);
    if !is_list_host_exec(host.as_slice()) {
        return Err(ParseError::InvalidHost);
    }
    let end = scan(after.as_slice(), Stop::QueryOrFragment, 0);
    let path = slice_to_vec(after.as_slice(), 0, end);
    assert(path@ == take_until(after@, Stop::QueryOrFragment));
    let list = chars_of("/list/");
    let video = chars_of("/video/");
    proof {
        reveal_strlit("/list/");
        reveal_strlit("/video/");
    }
    let listed = has_prefix(path.as_slice(), list.as_slice()) && path.len() > 6;
    let video_page = has_prefix(path.as_slice(), video.as_slice()) && path.len() > 7;
    if !(listed || video_page) {
        return Err(ParseError::InvalidPath);
    }
    let mut out = chars_of("https://www.bilibili.com");
    let mut p = path;
    out.append(&mut p);
    Ok(string_of(out.as_slice()))
}


/// The `BV` id of `s`: the first `BV` followed by an ASCII letter or digit,
/// with the run of ASCII letters and digits after it.
pub open spec fn bv_id(s: Seq<char>) -> Option<Seq<char>> {
    match find_marker(s, "BV"@, Stop::NotAsciiAlphanumeric, 0) {
        Some(p) => Some("BV"@ + take_until(s.skip(p + 2), Stop::NotAsciiAlphanumeric)),
        None => None,
    }
}

/// The `av` id of `s`: the first `av` (letters compared without regard to
/// ASCII case) followed by a digit, with the run of digits after it, in
/// small letters.
pub open spec fn av_id(s: Seq<char>) -> Option<Seq<char>> {
    let l = ascii_lowercase(s);
    match find_marker(l, "av"@, Stop::NotAsciiDigit, 0) {
        Some(p) => Some("av"@ + take_until(l.skip(p + 2), Stop::NotAsciiDigit)),
        None => None,
    }
}

/// The normalised video id in a path or URL: a `BV` id (case-sensitive)
/// first, else an `av` id in small letters.
pub open spec fn spec_normalize_video_id(s: Seq<char>) -> Option<Seq<char>> {
    match bv_id(s) {
        Some(id) => Some(id),
        None => av_id(s),
    }
}

/// The two-character marker `m` at its first occurrence in `s` that is
/// followed by a character at which a scan of kind `k` does not stop,
/// together with the run of characters after it up to where that scan
/// stops.
fn run_after(s: &[char], m: &[char], k: Stop) -> (r: Option<Vec<char>>)
    requires
        m@.len() == 2,
    ensures
        match find_marker(s@, m@, k, 0) {
            Some(p) => r matches Some(v) && v@ == m@ + take_until(s@.skip(p + 2), k),
            None => r is None,
        },
{
    let n = s.len();
    match find_marker_in(s, m, k) {
        Some(p) => {
            proof {
                lemma_find_marker_bounds(s@, m@, k, 0);
            }
            let tail = slice_to_vec(s, p + 2, n);
            let end = scan(tail.as_slice(), k, 0);
            let mut out = slice_to_vec(m, 0, 2);
            let mut run = slice_to_vec(tail.as_slice(), 0, end);
            assert(m@.subrange(0, 2) =~= m@);
            assert(tail@ =~= s@.skip(p + 2));
            out.append(&mut run);
            Some(out)
        },
        None => None,
    }
}

/// Character-level form of [`normalize_video_id`].
pub fn normalize_video_id_chars(s: &[char]) -> (r: Option<Vec<char>>)
    ensures
        r matches Some(v) ==> spec_normalize_video_id(s@) == Some(v@),
        r is None ==> spec_normalize_video_id(s@) is None,
{
    let bv = chars_of("BV");
    proof {
        reveal_strlit("BV");
    }
    if let Some(id) = run_after(s, bv.as_slice(), Stop::NotAsciiAlphanumeric) {
        return Some(id);
    }
    let lower = to_ascii_lowercase(s);
    let av = chars_of("av");
    proof {
        reveal_strlit("av");
    }
    run_after(lower.as_slice(), av.as_slice(), Stop::NotAsciiDigit)
}

/// Extracts and normalises the video id in a path or URL: the first `BV`
/// (case sensitive) followed by ASCII letters and digits, otherwise the
/// first `av` (any case) followed by digits, in small letters.
pub fn normalize_video_id(path_or_url: &str) -> (r: Option<String>)
    ensures
        r matches Some(v) ==> spec_normalize_video_id(path_or_url@) == Some(v@),
        r is None ==> spec_normalize_video_id(path_or_url@) is None,
{
    let s = chars_of(path_or_url);
    match normalize_video_id_chars(s.as_slice()) {
        Some(v) => Some(string_of(v.as_slice())),
        None => None,
    }
}


/// The page URL of the video `id`.
pub open spec fn video_url(id: Seq<char>) -> Seq<char> {
    "https://www.bilibili.com/video/"@ + id
}

/// The item for video `id` titled `title`.
pub open spec fn parsed_item(id: Seq<char>, title: Seq<char>, status: ItemStatus) -> ParsedItemView {
    ParsedItemView {
        id: id,
        title: title,
        url: video_url(id),
        cover_url: None,
        author: None,
        status: status,
    }
}

/// The item an anchor `(href, text)` gives, with the key it is de-duplicated
/// by: only links to `/video/<slug>` on a listed host count; a slug with a
/// `BV`/`av` id gives that id (playable when the text is not empty, pending
/// otherwise), any other slug is kept as invalid.
pub open spec fn anchor_item(href: Seq<char>, text: Seq<char>) -> Option<(Seq<char>, ParsedItemView)> {
    match spec_resolve_url(href) {
        None => None,
        Some((host, path)) => {
            if !is_list_host(host) || !starts_with(path, "/video/"@) {
                None
            } else {
                let slug = take_until(path.skip(7), Stop::SegmentEnd);
                if slug.len() == 0 {
                    None
                } else {
                    match spec_normalize_video_id(slug) {
                        Some(id) => Some(
                            (
                                unicode_lowercase(id),
                                parsed_item(
                                    id,
                                    text,
                                    if text.len() == 0 {
                                        ItemStatus::Pending
                                    } else {
                                        ItemStatus::Playable
                                    },
                                ),
                            ),
                        ),
                        None => Some(
                            (unicode_lowercase(slug), parsed_item(slug, text, ItemStatus::Invalid)),
                        ),
                    }
                }
            }
        },
    }
}

/// The items of `anchors` in order, each key kept at its first occurrence
/// only, given the keys already `seen`.
pub open spec fn collect_items(anchors: Seq<(Seq<char>, Seq<char>)>, seen: Seq<Seq<char>>) -> Seq<
    ParsedItemView,
>
    decreases anchors.len(),
{
    if anchors.len() == 0 {
        Seq::empty()
    } else {
        let rest = anchors.drop_first();
        match anchor_item(anchors[0].0, anchors[0].1) {
            None => collect_items(rest, seen),
            Some((k, it)) => {
                if seen.contains(k) {
                    collect_items(rest, seen)
                } else {
                    seq![it] + collect_items(rest, seen.push(k))
                }
            },
        }
    }
}

/// Whether the anchors of `html` can be scanned (see [`anchors`]).
pub open spec fn html_scannable(html: Seq<char>) -> bool {
    anchors(html) is Some
}

/// What `parse_list_html` gives: nothing for a refused source URL,
/// otherwise the items of the page's anchors, de-duplicated.
pub open spec fn spec_parse_list_html(source_url: Seq<char>, html: Seq<char>) -> Seq<ParsedItemView> {
    if spec_validate_list_url(source_url) is Err {
        Seq::empty()
    } else {
        collect_items(anchors(html)->0, Seq::empty())
    }
}

fn anchor_item_exec(href: &[char], text: &[char]) -> (r: Option<(String, ParsedItem)>)
    ensures
        match anchor_item(href@, text@) {
            Some((k, it)) => r matches Some((rk, ri)) && rk@ == k && ri@ == it,
            None => r is None,
        },
{
    let (host, path) = match resolve_url(href) {
        Some(hp) => hp,
        None => return None,
    };
    let video = chars_of("/video/");
    proof {
        reveal_strlit("/video/");
    }
    if !is_list_host_exec(host.as_slice()) || !has_prefix(path.as_slice(), video.as_slice()) {
        return None;
    }
    let tail = slice_to_vec(path.as_slice(), 7, path.len());
    assert(tail@ == path@.skip(7));
    let end = scan(tail.as_slice(), Stop::SegmentEnd, 0);
    let slug = slice_to_vec(tail.as_slice(), 0, end);
    if slug.len() == 0 {
        return None;
    }
    let title = string_of(text);
    let prefix = chars_of("https://www.bilibili.com/video/");
    match normalize_video_id_chars(slug.as_slice()) {
        Some(id) => {
            let id_s = string_of(id.as_slice());
            let key = to_lowercase(id_s.as_str());
            let status = if text.len() == 0 {
                ItemStatus::Pending
            } else {
                ItemStatus::Playable
            };
            let mut url = prefix;
            let mut idc = id;
            url.append(&mut idc);
            Some((key, ParsedItem {
                id: id_s,
                title,
                url: string_of(url.as_slice()),
                cover_url: None,
                author: None,
                status,
            }))
        },
        None => {
            let slug_s = string_of(slug.as_slice());
            let key = to_lowercase(slug_s.as_str());
            let mut url = prefix;
            let mut sc = slug;
            url.append(&mut sc);
            Some((key, ParsedItem {
                id: slug_s,
                title,
                url: string_of(url.as_slice()),
                cover_url: None,
                author: None,
                status: ItemStatus::Invalid,
            }))
        },
    }
}

/// The values of a list of strings.
pub open spec fn string_views(v: Seq<String>) -> Seq<Seq<char>> {
    v.map_values(|s: String| s@)
}

fn contains_string(v: &Vec<String>, k: &String) -> (b: bool)
    ensures
        b == string_views(v@).contains(k@),
{
    let mut j: usize = 0;
    while j < v.len()
        invariant
            j <= v@.len(),
            forall|m: int| 0 <= m < j ==> v@[m]@ != k@,
        decreases v@.len() - j,
    {
        if v[j] == *k {
            assert(string_views(v@)[j as int] == k@);
            return true;
        }
        j += 1;
    }
    assert(!string_views(v@).contains(k@)) by {
        if string_views(v@).contains(k@) {
            let m = choose|m: int| 0 <= m < string_views(v@).len() && string_views(v@)[m] == k@;
            assert(v@[m]@ == k@);
        }
    }
    false
}

/// Whether [`parse_list_html`] can scan `html`: false exactly where a
/// byte-level cut of an unquoted `href` value would fall inside a character.
pub fn html_is_scannable(html: &str) -> (b: bool)
    ensures
        b == html_scannable(html@),
{
    let s = chars_of(html);
    iter_anchors(s.as_slice()).is_some()
}

/// Parses a list page: collects the links to video pages (on a listed host,
/// path `/video/<slug>`), normalises them to `BV`/`av` ids, de-duplicates
/// them by id in small letters keeping the first, and marks them playable
/// (with a title), pending (without one) or invalid (no id in the slug).
/// Gives nothing when the source URL is refused.
pub fn parse_list_html(source_url: &str, html: &str) -> (r: Vec<ParsedItem>)
    requires
        spec_validate_list_url(source_url@) is Ok ==> html_scannable(html@),
    ensures
        item_views(r@) == spec_parse_list_html(source_url@, html@),
{
    if validate_list_url(source_url).is_err() {
        return Vec::new();
    }
    let s = chars_of(html);
    let found = match iter_anchors(s.as_slice()) {
        Some(found) => found,
        None => return Vec::new(),
    };
    let ghost all = anchor_views(found@);
    let mut items: Vec<ParsedItem> = Vec::new();
    // A set of keys is kept as a `Vec` with linear lookup: vstd specifies
    // `HashSet` lookups only for key types shown to obey its key model, and
    // `String` is not one of them.
    let mut seen: Vec<String> = Vec::new();
    let mut i: usize = 0;
    assert(all.skip(0) =~= all);
    assert(item_views(items@) =~= Seq::<ParsedItemView>::empty());
    assert(string_views(seen@) =~= Seq::<Seq<char>>::empty());
    assert(item_views(items@) + collect_items(all, Seq::empty()) =~= collect_items(all, Seq::empty()));
    while i < found.len()
        invariant
            i <= found@.len(),
            all == anchor_views(found@),
            spec_parse_list_html(source_url@, html@) == item_views(items@) + collect_items(
                all.skip(i as int),
                string_views(seen@),
            ),
        decreases found@.len() - i,
    {
        let ghost rest = all.skip(i as int);
        assert(rest.drop_first() =~= all.skip(i + 1));
        assert(rest[0] == (found@[i as int].0@, found@[i as int].1@));
        let ghost sv = string_views(seen@);
        let ghost iv0 = item_views(items@);
        assert(collect_items(rest, sv) == match anchor_item(rest[0].0, rest[0].1) {
            None => collect_items(rest.drop_first(), sv),
            Some((k, it)) => if sv.contains(k) {
                collect_items(rest.drop_first(), sv)
            } else {
                seq![it] + collect_items(rest.drop_first(), sv.push(k))
            },
        });
        match anchor_item_exec(found[i].0.as_slice(), found[i].1.as_slice()) {
            Some((key, item)) => {
                if !contains_string(&seen, &key) {
                    let ghost itv = item@;
                    let ghost k = key@;
                    let ghost tail = collect_items(all.skip(i + 1), sv.push(k));
                    items.push(item);
                    seen.push(key);
                    assert(item_views(items@) =~= iv0.push(itv));
                    assert(string_views(seen@) =~= sv.push(k));
                    assert(iv0 + (seq![itv] + tail) =~= iv0.push(itv) + tail);
                }
            },
            None => {},
        }
        i += 1;
    }
    assert(all.skip(i as int) =~= Seq::<(Seq<char>, Seq<char>)>::empty());
    assert(item_views(items@) + Seq::<ParsedItemView>::empty() =~= item_views(items@));
    items
}


/// The items of `items` whose id, in small letters, is not among the
/// `existing` ids in small letters; in order.
pub open spec fn spec_dedup_items(items: Seq<ParsedItemView>, existing: Seq<Seq<char>>) -> Seq<
    ParsedItemView,
>
    decreases items.len(),
{
    if items.len() == 0 {
        Seq::empty()
    } else {
        let last = items.last();
        let keep = !existing.map_values(|e: Seq<char>| unicode_lowercase(e)).contains(
            unicode_lowercase(last.id),
        );
        spec_dedup_items(items.drop_last(), existing) + if keep {
            seq![last]
        } else {
            Seq::empty()
        }
    }
}

fn copy_opt(o: &Option<String>) -> (r: Option<String>)
    ensures
        crate::model::opt_view(r) == crate::model::opt_view(*o),
{
    match o {
        Some(s) => Some(s.clone()),
        None => None,
    }
}

fn copy_item(it: &ParsedItem) -> (r: ParsedItem)
    ensures
        r@ == it@,
{
    ParsedItem {
        id: it.id.clone(),
        title: it.title.clone(),
        url: it.url.clone(),
        cover_url: copy_opt(&it.cover_url),
        author: copy_opt(&it.author),
        status: it.status,
    }
}

/// Drops from newly parsed items those whose id is already among
/// `existing_ids`, comparing ids in small letters.
pub fn dedup_items(new: Vec<ParsedItem>, existing_ids: &[String]) -> (r: Vec<ParsedItem>)
    ensures
        item_views(r@) == spec_dedup_items(item_views(new@), string_views(existing_ids@)),
{
    let ghost ex = string_views(existing_ids@);
    let ghost lowered = ex.map_values(|e: Seq<char>| unicode_lowercase(e));
    // A set of keys is kept as a `Vec` with linear lookup: vstd specifies
    // `HashSet` lookups only for key types shown to obey its key model, and
    // `String` is not one of them.
    let mut existing: Vec<String> = Vec::new();
    let mut j: usize = 0;
    while j < existing_ids.len()
        invariant
            j <= existing_ids@.len(),
            ex == string_views(existing_ids@),
            lowered == ex.map_values(|e: Seq<char>| unicode_lowercase(e)),
            string_views(existing@) == lowered.take(j as int),
        decreases existing_ids@.len() - j,
    {
        let l = to_lowercase(existing_ids[j].as_str());
        let ghost before = string_views(existing@);
        existing.push(l);
        assert(string_views(existing@) =~= before.push(l@));
        assert(lowered.take(j + 1) =~= lowered.take(j as int).push(lowered[j as int]));
        j += 1;
    }
    assert(lowered.take(j as int) =~= lowered);
    let ghost all = item_views(new@);
    let mut out: Vec<ParsedItem> = Vec::new();
    let mut i: usize = 0;
    assert(all.take(0) =~= Seq::<ParsedItemView>::empty());
    assert(item_views(out@) =~= Seq::<ParsedItemView>::empty());
    while i < new.len()
        invariant
            i <= new@.len(),
            all == item_views(new@),
            string_views(existing@) == lowered,
            lowered == ex.map_values(|e: Seq<char>| unicode_lowercase(e)),
            item_views(out@) == spec_dedup_items(all.take(i as int), ex),
        decreases new@.len() - i,
    {
        let key = to_lowercase(new[i].id.as_str());
        assert(all.take(i + 1).drop_last() =~= all.take(i as int));
        assert(all.take(i + 1).last() == new@[i as int]@);
        let ghost before = item_views(out@);
        if !contains_string(&existing, &key) {
            let item = copy_item(&new[i]);
            out.push(item);
            assert(item_views(out@) =~= before + seq![new@[i as int]@]);
        } else {
            assert(before + Seq::<ParsedItemView>::empty() =~= before);
        }
        i += 1;
    }
    assert(all.take(i as int) =~= all);
    out
}

} // verus!
