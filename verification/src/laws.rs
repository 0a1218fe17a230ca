//! Properties of the library that span calls or hold of every input.

use vstd::prelude::*;
use crate::bridge::{
    spec_page_finished, spec_playback_command, ActionView, BridgeView, ScriptView,
    playback_matches, spec_check_navigation, not_open_message, spec_capture_list_html,
    spec_refresh_video_title, on_bili_host, BILI_HOME,
};
use crate::model::{PlaybackCommandDto, PlaybackMode, Seconds};
use crate::tray::{spec_tray_menu_command, TrayCommand};
use crate::webview::{is_bili_host, js_escape_char, spec_escape_js, spec_same_list_page, whatwg_url};
use crate::parser::{
    anchor_item, av_id, bv_id, collect_items, spec_dedup_items, spec_normalize_video_id,
    spec_parse_list_html,
    spec_validate_list_url, split_host, video_url, ParseError,
};
use crate::model::{ItemStatus, ParsedItemView};
use crate::history::{
    digit_char, digits, join_lines, lines, lines_from, spec_event_id, spec_rotate_history, strip_cr,
};
use crate::html::{anchors, host_and_path, spec_resolve_url};
use crate::text::{
    ascii_lower_char, ascii_lowercase, find, lemma_find_from_bounds, lemma_find_from_none,
    lemma_stop_index_all, lemma_stop_index_bounds, occurs_at, take_until, unicode_lowercase, Stop,
    is_white_space, lemma_find_from_first, starts_with, stops_at, trim, trim_end, trim_start,
    find_from, lemma_find_from_none_absent, find_marker, marker_at, lemma_find_marker_bounds,
    lemma_find_marker_none, lemma_find_marker_none_absent, lemma_take_until_run, is_ascii_alphanumeric, is_ascii_digit,
};

verus! {

/// Every address is the same page as itself.
pub proof fn lemma_same_list_page_reflexive(a: Seq<char>)
    ensures
        spec_same_list_page(a, a),
{
}

/// Being the same page does not depend on the order of the two addresses.
pub proof fn lemma_same_list_page_symmetric(a: Seq<char>, b: Seq<char>)
    ensures
        spec_same_list_page(a, b) == spec_same_list_page(b, a),
{
}

/// A page that is not the one a pending playback targets leaves every
/// playback intent as it was.
pub proof fn lemma_other_pages_keep_playback_intent(s: BridgeView, url: Seq<char>)
    requires
        !playback_matches(s, url),
    ensures
        ({
            let (t, _) = spec_page_finished(s, url);
            &&& t.pending_seek == s.pending_seek
            &&& t.pending_play == s.pending_play
            &&& t.pending_playback_url == s.pending_playback_url
        }),
{
}

/// A pending capture waits through pages other than its list page.
pub proof fn lemma_other_pages_keep_capture(s: BridgeView, url: Seq<char>)
    requires
        s.pending_capture matches Some((src, _)) && !spec_same_list_page(src, url),
    ensures
        spec_page_finished(s, url).0.pending_capture == s.pending_capture,
{
}

/// An accepted `Load` followed by the load of its page (the same page, up
/// to query, fragment and a trailing `/`) seeks to the requested position
/// and plays, and clears the playback intent.
pub proof fn lemma_load_then_target_page_plays(
    s: BridgeView,
    url: String,
    position_seconds: Seconds,
    open: bool,
    loaded: Seq<char>,
)
    requires
        spec_check_navigation(url@) is Ok,
        spec_same_list_page(url@, loaded),
    ensures
        ({
            let (s1, r) = spec_playback_command(s, PlaybackCommandDto::Load { url, position_seconds }, open);
            let (s2, actions) = spec_page_finished(s1, loaded);
            &&& r is Ok
            &&& actions.contains(ActionView::EvalLater { script: ScriptView::SeekAndPlay { position_seconds, play: true } })
            &&& s2.pending_seek is None
            &&& !s2.pending_play
            &&& s2.pending_playback_url is None
        }),
{
    let (s1, r) = spec_playback_command(s, PlaybackCommandDto::Load { url, position_seconds }, open);
    let (c, a1) = crate::bridge::capture_step(s1.pending_capture, loaded);
    let (m, a2) = crate::bridge::meta_step(s1.pending_meta, loaded);
    let a3 = seq![ActionView::EvalLater { script: ScriptView::SeekAndPlay { position_seconds, play: true } }];
    let settings = seq![ActionView::EvalQuietly { script: ScriptView::PlaybackSettings }];
    let all = a1 + a2 + a3 + settings;
    assert(all[(a1.len() + a2.len()) as int] == a3[0]);
}

/// A `Pause` abandons a pending load, so that a following `Play` with the
/// view open plays at once instead of waiting for the load.
pub proof fn lemma_pause_unblocks_play(s: BridgeView)
    ensures
        ({
            let (s1, _) = spec_playback_command(s, PlaybackCommandDto::Pause, true);
            let (s2, r) = spec_playback_command(s1, PlaybackCommandDto::Play, true);
            s.pending_playback_url is Some ==> r == Ok::<Seq<ActionView>, Seq<char>>(
                seq![ActionView::Eval { script: ScriptView::Play }],
            )
        }),
{
}


/// The shape of a normalised id: `BV` followed by ASCII letters and digits,
/// or `av` followed by ASCII digits, with at least one after the marker.
pub open spec fn video_id_shape(id: Seq<char>) -> bool {
    &&& id.len() > 2
    &&& {
        ||| starts_with(id, "BV"@) && forall|m: int| 2 <= m < id.len() ==> is_ascii_alphanumeric(#[trigger] id[m])
        ||| starts_with(id, "av"@) && forall|m: int| 2 <= m < id.len() ==> is_ascii_digit(#[trigger] id[m])
    }
}

/// Where a normalised id comes from: a `BV` id occurs in the input as it
/// is; an `av` id occurs in the input with ASCII capitals made small.
pub proof fn lemma_normalize_video_id_found(s: Seq<char>)
    ensures
        spec_normalize_video_id(s) matches Some(id) ==> {
            &&& video_id_shape(id)
            &&& starts_with(id, "BV"@) ==> exists|i: int| occurs_at(s, id, i)
            &&& starts_with(id, "av"@) ==> exists|i: int| occurs_at(ascii_lowercase(s), id, i)
        },
{
    reveal_strlit("BV");
    reveal_strlit("av");
    match bv_id(s) {
        Some(id) => {
            lemma_find_marker_bounds(s, "BV"@, Stop::NotAsciiAlphanumeric, 0);
            let p = find_marker(s, "BV"@, Stop::NotAsciiAlphanumeric, 0)->0;
            let rest = s.skip(p + 2);
            let run = take_until(rest, Stop::NotAsciiAlphanumeric);
            lemma_take_until_run(rest, Stop::NotAsciiAlphanumeric);
            lemma_stop_index_bounds(rest, Stop::NotAsciiAlphanumeric, 0);
            assert(rest[0] == s[p + 2]);
            assert(id == "BV"@ + run);
            assert(id.take(2) =~= "BV"@);
            assert forall|m: int| 2 <= m < id.len() implies is_ascii_alphanumeric(#[trigger] id[m]) by {
                assert(id[m] == run[m - 2]);
            }
            assert(s.subrange(p, p + id.len()) =~= id) by {
                assert(s.subrange(p, p + 2) =~= "BV"@);
                assert forall|m: int| 0 <= m < id.len() implies s.subrange(p, p + id.len())[m] == id[m] by {
                    if m < 2 {
                        assert(s.subrange(p, p + 2)[m] == s[p + m]);
                    } else {
                        assert(run[m - 2] == rest[m - 2]);
                    }
                }
            }
            assert(occurs_at(s, id, p));
            assert(!starts_with(id, "av"@)) by {
                assert(id.take(2)[0] == 'B');
            }
        },
        None => {
            if let Some(id) = av_id(s) {
                let l = ascii_lowercase(s);
                lemma_find_marker_bounds(l, "av"@, Stop::NotAsciiDigit, 0);
                let p = find_marker(l, "av"@, Stop::NotAsciiDigit, 0)->0;
                let rest = l.skip(p + 2);
                let run = take_until(rest, Stop::NotAsciiDigit);
                lemma_take_until_run(rest, Stop::NotAsciiDigit);
                lemma_stop_index_bounds(rest, Stop::NotAsciiDigit, 0);
                assert(rest[0] == l[p + 2]);
                assert(id == "av"@ + run);
                assert(id.take(2) =~= "av"@);
                assert forall|m: int| 2 <= m < id.len() implies is_ascii_digit(#[trigger] id[m]) by {
                    assert(id[m] == run[m - 2]);
                }
                assert(l.subrange(p, p + id.len()) =~= id) by {
                    assert(l.subrange(p, p + 2) =~= "av"@);
                    assert forall|m: int| 0 <= m < id.len() implies l.subrange(p, p + id.len())[m] == id[m] by {
                        if m < 2 {
                            assert(l.subrange(p, p + 2)[m] == l[p + m]);
                        } else {
                            assert(run[m - 2] == rest[m - 2]);
                        }
                    }
                }
                assert(occurs_at(l, id, p));
                assert(!starts_with(id, "BV"@)) by {
                    assert(id.take(2)[0] == 'a');
                }
            }
        },
    }
}

/// A normalised video id normalises to itself.
pub proof fn lemma_normalize_video_id_idempotent(s: Seq<char>)
    ensures
        spec_normalize_video_id(s) matches Some(id) ==> spec_normalize_video_id(id) == Some(id),
{
    reveal_strlit("BV");
    reveal_strlit("av");
    lemma_normalize_video_id_found(s);
    if let Some(id) = spec_normalize_video_id(s) {
        let run = id.skip(2);
        if starts_with(id, "BV"@) {
            let k = Stop::NotAsciiAlphanumeric;
            assert(id.take(2) =~= "BV"@);
            assert(id.subrange(0, 2) =~= "BV"@);
            assert(id[2] == run[0]);
            assert(marker_at(id, "BV"@, k, 0));
            assert(find_marker(id, "BV"@, k, 0) == Some(0int));
            assert forall|m: int| 0 <= m < run.len() implies !stops_at(k, #[trigger] run[m]) by {
                assert(run[m] == id[m + 2]);
            }
            lemma_stop_index_all(run, k, 0);
            assert(take_until(run, k) =~= run);
            assert(id =~= "BV"@ + run);
        } else {
            let k = Stop::NotAsciiDigit;
            assert(id.take(2) =~= "av"@);
            assert forall|j: int| 0 <= j implies !marker_at(id, "BV"@, Stop::NotAsciiAlphanumeric, j) by {
                if occurs_at(id, "BV"@, j) {
                    assert(id.subrange(j, j + 2)[0] == 'B');
                    assert(id[j] == 'B');
                    if j < 2 {
                        assert(id.take(2)[j] == id[j]);
                    }
                }
            }
            lemma_find_marker_none(id, "BV"@, Stop::NotAsciiAlphanumeric, 0);
            assert(ascii_lowercase(id) =~= id) by {
                assert forall|m: int| 0 <= m < id.len() implies ascii_lower_char(#[trigger] id[m]) == id[m] by {
                    if m < 2 {
                        assert(id.take(2)[m] == id[m]);
                    }
                }
            }
            assert(id.subrange(0, 2) =~= "av"@);
            assert(id[2] == run[0]);
            assert(marker_at(id, "av"@, k, 0));
            assert(find_marker(id, "av"@, k, 0) == Some(0int));
            assert forall|m: int| 0 <= m < run.len() implies !stops_at(k, #[trigger] run[m]) by {
                assert(run[m] == id[m + 2]);
            }
            lemma_stop_index_all(run, k, 0);
            assert(take_until(run, k) =~= run);
            assert(id =~= "av"@ + run);
        }
    }
}


/// The facts every parsed item satisfies: it links to its own video page,
/// carries no cover or author, and is playable, pending or invalid.
pub open spec fn well_formed_item(it: ParsedItemView) -> bool {
    &&& it.url == video_url(it.id)
    &&& it.cover_url is None
    &&& it.author is None
    &&& it.status != ItemStatus::Deleted
}

proof fn lemma_anchor_item_key(href: Seq<char>, text: Seq<char>)
    ensures
        anchor_item(href, text) matches Some((k, it)) ==> k == unicode_lowercase(it.id)
            && well_formed_item(it),
{
}

proof fn lemma_collect_items(anchors: Seq<(Seq<char>, Seq<char>)>, seen: Seq<Seq<char>>)
    ensures
        ({
            let r = collect_items(anchors, seen);
            &&& forall|i: int| 0 <= i < r.len() ==> !seen.contains(unicode_lowercase(#[trigger] r[i].id))
            &&& forall|i: int, j: int| 0 <= i < j < r.len() ==> unicode_lowercase(#[trigger] r[i].id)
                != unicode_lowercase(#[trigger] r[j].id)
            &&& forall|i: int| 0 <= i < r.len() ==> well_formed_item(#[trigger] r[i])
        }),
    decreases anchors.len(),
{
    if anchors.len() > 0 {
        let rest = anchors.drop_first();
        lemma_anchor_item_key(anchors[0].0, anchors[0].1);
        match anchor_item(anchors[0].0, anchors[0].1) {
            None => {
                lemma_collect_items(rest, seen);
            },
            Some((k, it)) => {
                if seen.contains(k) {
                    lemma_collect_items(rest, seen);
                } else {
                    lemma_collect_items(rest, seen.push(k));
                    let tail = collect_items(rest, seen.push(k));
                    let r = seq![it] + tail;
                    assert forall|i: int| 0 <= i < r.len() implies !seen.contains(
                        unicode_lowercase(#[trigger] r[i].id),
                    ) by {
                        if i > 0 {
                            assert(r[i] == tail[i - 1]);
                            if seen.contains(unicode_lowercase(r[i].id)) {
                                let m = choose|m: int| 0 <= m < seen.len() && seen[m] == unicode_lowercase(r[i].id);
                                assert(seen.push(k)[m] == seen[m]);
                            }
                        }
                    }
                    assert forall|i: int, j: int| 0 <= i < j < r.len() implies unicode_lowercase(
                        #[trigger] r[i].id,
                    ) != unicode_lowercase(#[trigger] r[j].id) by {
                        assert(r[j] == tail[j - 1]);
                        if i == 0 {
                            assert(seen.push(k)[seen.len() as int] == k);
                        } else {
                            assert(r[i] == tail[i - 1]);
                        }
                    }
                    assert forall|i: int| 0 <= i < r.len() implies well_formed_item(#[trigger] r[i]) by {
                        if i > 0 {
                            assert(r[i] == tail[i - 1]);
                        }
                    }
                }
            },
        }
    }
}

/// The items of a list page link to their own video pages, never to a
/// stream, and no two share an id up to letter case.
pub proof fn lemma_parse_list_html_items(source_url: Seq<char>, html: Seq<char>)
    ensures
        ({
            let r = spec_parse_list_html(source_url, html);
            &&& forall|i: int, j: int| 0 <= i < j < r.len() ==> unicode_lowercase(#[trigger] r[i].id)
                != unicode_lowercase(#[trigger] r[j].id)
            &&& forall|i: int| 0 <= i < r.len() ==> well_formed_item(#[trigger] r[i])
        }),
{
    if spec_validate_list_url(source_url) is Ok {
        lemma_collect_items(anchors(html)->0, Seq::empty());
    }
}


/// The small-letter forms of ids.
pub open spec fn lowered(ids: Seq<Seq<char>>) -> Seq<Seq<char>> {
    ids.map_values(|e: Seq<char>| unicode_lowercase(e))
}

/// De-duplication keeps, in order, exactly the new items whose id is not
/// among the existing ids up to letter case: what it keeps is taken from
/// the new items and clashes with no existing id.
pub proof fn lemma_dedup_items(items: Seq<ParsedItemView>, existing: Seq<Seq<char>>)
    ensures
        ({
            let r = spec_dedup_items(items, existing);
            &&& r.len() <= items.len()
            &&& forall|i: int| 0 <= i < r.len() ==> items.contains(#[trigger] r[i])
            &&& forall|i: int| 0 <= i < r.len() ==> !lowered(existing).contains(
                unicode_lowercase(#[trigger] r[i].id),
            )
        }),
    decreases items.len(),
{
    if items.len() > 0 {
        let front = items.drop_last();
        lemma_dedup_items(front, existing);
        let r = spec_dedup_items(items, existing);
        let head = spec_dedup_items(front, existing);
        assert forall|i: int| 0 <= i < r.len() implies items.contains(#[trigger] r[i]) by {
            if i < head.len() {
                assert(r[i] == head[i]);
                let m = choose|m: int| 0 <= m < front.len() && front[m] == head[i];
                assert(items[m] == front[m]);
            } else {
                assert(r[i] == items.last());
                assert(items[items.len() - 1] == items.last());
            }
        }
        assert forall|i: int| 0 <= i < r.len() implies !lowered(existing).contains(
            unicode_lowercase(#[trigger] r[i].id),
        ) by {
            if i < head.len() {
                assert(r[i] == head[i]);
            }
        }
    }
}

/// With no existing ids, de-duplication keeps every new item.
pub proof fn lemma_dedup_items_none_existing(items: Seq<ParsedItemView>)
    ensures
        spec_dedup_items(items, Seq::empty()) == items,
    decreases items.len(),
{
    if items.len() > 0 {
        lemma_dedup_items_none_existing(items.drop_last());
        assert(lowered(Seq::empty()) =~= Seq::<Seq<char>>::empty());
        assert(items.drop_last() + seq![items.last()] =~= items);
    }
}

/// De-duplicating items against their own ids leaves nothing.
pub proof fn lemma_dedup_items_against_own_ids(items: Seq<ParsedItemView>)
    ensures
        spec_dedup_items(items, items.map_values(|it: ParsedItemView| it.id)).len() == 0,
{
    let ids = items.map_values(|it: ParsedItemView| it.id);
    lemma_dedup_items(items, ids);
    let r = spec_dedup_items(items, ids);
    if r.len() > 0 {
        let m = choose|m: int| 0 <= m < items.len() && items[m] == r[0];
        assert(lowered(ids)[m] == unicode_lowercase(r[0].id));
        assert(false);
    }
}


/// The text a single-quoted JavaScript string literal with body `e`
/// denotes, reading the escapes `\\`, `\'`, `\n` and `\r`; `None` when the
/// body would end the literal early or break the line (an unescaped quote,
/// line feed or carriage return) or ends inside an escape.
pub open spec fn js_read(e: Seq<char>) -> Option<Seq<char>>
    decreases e.len(),
{
    if e.len() == 0 {
        Some(Seq::empty())
    } else if e[0] == '\\' {
        if e.len() < 2 {
            None
        } else {
            let c = e[1];
            let d = if c == 'n' {
                '\n'
            } else if c == 'r' {
                '\r'
            } else {
                c
            };
            match js_read(e.skip(2)) {
                Some(rest) => Some(seq![d] + rest),
                None => None,
            }
        }
    } else if e[0] == '\'' || e[0] == '\n' || e[0] == '\r' {
        None
    } else {
        match js_read(e.drop_first()) {
            Some(rest) => Some(seq![e[0]] + rest),
            None => None,
        }
    }
}

proof fn lemma_escape_concat(a: Seq<char>, b: Seq<char>)
    ensures
        spec_escape_js(a + b) == spec_escape_js(a) + spec_escape_js(b),
    decreases b.len(),
{
    if b.len() == 0 {
        assert(a + b =~= a);
        assert(spec_escape_js(a) + Seq::<char>::empty() =~= spec_escape_js(a));
    } else {
        lemma_escape_concat(a, b.drop_last());
        assert((a + b).drop_last() =~= a + b.drop_last());
        assert((a + b).last() == b.last());
        assert(spec_escape_js(a) + spec_escape_js(b.drop_last()) + js_escape_char(b.last()) =~= spec_escape_js(a) + (spec_escape_js(b.drop_last()) + js_escape_char(b.last())));
    }
}

/// Text escaped for a single-quoted JavaScript string stays inside the
/// literal and reads back as the original text.
pub proof fn lemma_escape_js_round_trip(s: Seq<char>)
    ensures
        js_read(spec_escape_js(s)) == Some(s),
    decreases s.len(),
{
    if s.len() > 0 {
        let c = s[0];
        let rest = s.drop_first();
        lemma_escape_js_round_trip(rest);
        assert(s =~= seq![c] + rest);
        lemma_escape_concat(seq![c], rest);
        assert(seq![c].drop_last() =~= Seq::<char>::empty());
        assert(seq![c].last() == c);
        assert(spec_escape_js(Seq::<char>::empty()) =~= Seq::<char>::empty());
        assert(spec_escape_js(seq![c]) == spec_escape_js(seq![c].drop_last()) + js_escape_char(c));
        assert(spec_escape_js(seq![c]) =~= js_escape_char(c));
        let e = js_escape_char(c) + spec_escape_js(rest);
        if c == '\\' || c == '\'' || c == '\n' || c == '\r' {
            assert(e.skip(2) =~= spec_escape_js(rest));
        } else {
            assert(e.drop_first() =~= spec_escape_js(rest));
        }
        assert(seq![c] + rest =~= s);
    }
}


proof fn lemma_digit_char(d: nat)
    requires
        d < 16,
    ensures
        d < 10 ==> '0' <= digit_char(d) <= '9' && (digit_char(d) as u32) == ('0' as u32) + d,
        d >= 10 ==> 'a' <= digit_char(d) <= 'f' && (digit_char(d) as u32) == ('a' as u32) + d - 10,
{
}

proof fn lemma_digits_shape(n: nat, b: nat)
    requires
        b == 10 || b == 16,
    ensures
        digits(n, b).len() >= 1,
        digits(n, b).len() == 1 <==> n < b,
        forall|i: int| 0 <= i < digits(n, b).len() ==> #[trigger] digits(n, b)[i] != '-',
    decreases n,
{
    if n < b {
        lemma_digit_char(n % 16);
    } else {
        assert(n / b < n) by (nonlinear_arith)
            requires
                b >= 2,
                n >= b,
        ;
        lemma_digits_shape(n / b, b);
        lemma_digit_char(n % b);
        let d = digits(n, b);
        assert forall|i: int| 0 <= i < d.len() implies #[trigger] d[i] != '-' by {
            if i < d.len() - 1 {
                assert(d[i] == digits(n / b, b)[i]);
            }
        }
    }
}

proof fn lemma_digits_injective(x: nat, y: nat, b: nat)
    requires
        b == 10 || b == 16,
        digits(x, b) == digits(y, b),
    ensures
        x == y,
    decreases x,
{
    lemma_digits_shape(x, b);
    lemma_digits_shape(y, b);
    if x < b {
        assert(digits(x, b)[0] == digit_char(x % 16));
        assert(digits(y, b)[0] == digit_char(y % 16));
        lemma_digit_char(x % 16);
        lemma_digit_char(y % 16);
    } else {
        assert(x / b < x) by (nonlinear_arith)
            requires
                b >= 2,
                x >= b,
        ;
        let dx = digits(x, b);
        let dy = digits(y, b);
        assert(dx.drop_last() =~= digits(x / b, b));
        assert(dy.drop_last() =~= digits(y / b, b));
        lemma_digits_injective(x / b, y / b, b);
        assert(dx.last() == digit_char(x % b));
        assert(dy.last() == digit_char(y % b));
        lemma_digit_char(x % b);
        lemma_digit_char(y % b);
        assert(x % b == y % b);
        assert(x == b * (x / b) + x % b) by (nonlinear_arith)
            requires
                b >= 2,
        ;
        assert(y == b * (y / b) + y % b) by (nonlinear_arith)
            requires
                b >= 2,
        ;
    }
}

/// Splits `a + "-" + r` after the dash, for `a` without a dash.
proof fn lemma_dash_split(a1: Seq<char>, r1: Seq<char>, a2: Seq<char>, r2: Seq<char>)
    requires
        forall|i: int| 0 <= i < a1.len() ==> #[trigger] a1[i] != '-',
        forall|i: int| 0 <= i < a2.len() ==> #[trigger] a2[i] != '-',
        a1 + seq!['-'] + r1 == a2 + seq!['-'] + r2,
    ensures
        a1 == a2,
        r1 == r2,
{
    let e1 = a1 + seq!['-'] + r1;
    let e2 = a2 + seq!['-'] + r2;
    if a1.len() < a2.len() {
        assert(e1[a1.len() as int] == '-');
        assert(e2[a1.len() as int] == a2[a1.len() as int]);
    } else if a2.len() < a1.len() {
        assert(e2[a2.len() as int] == '-');
        assert(e1[a2.len() as int] == a1[a2.len() as int]);
    }
    assert(a1 =~= e1.take(a1.len() as int));
    assert(a2 =~= e2.take(a2.len() as int));
    assert(r1 =~= e1.skip(a1.len() as int + 1));
    assert(r2 =~= e2.skip(a2.len() as int + 1));
}

/// An event id determines its time stamp, sequence number and event type:
/// ids that differ in any of them differ, so ids drawn with distinct
/// sequence numbers are unique whatever their types.
pub proof fn lemma_event_id_unique(
    n1: u128,
    s1: u64,
    t1: Seq<char>,
    n2: u128,
    s2: u64,
    t2: Seq<char>,
)
    requires
        spec_event_id(n1, s1, t1) == spec_event_id(n2, s2, t2),
    ensures
        n1 == n2,
        s1 == s2,
        t1 == t2,
{
    let d1 = digits(n1 as nat, 10);
    let d2 = digits(n2 as nat, 10);
    let h1 = digits(s1 as nat, 16);
    let h2 = digits(s2 as nat, 16);
    lemma_digits_shape(n1 as nat, 10);
    lemma_digits_shape(n2 as nat, 10);
    lemma_digits_shape(s1 as nat, 16);
    lemma_digits_shape(s2 as nat, 16);
    assert(spec_event_id(n1, s1, t1) =~= d1 + seq!['-'] + (h1 + seq!['-'] + t1));
    assert(spec_event_id(n2, s2, t2) =~= d2 + seq!['-'] + (h2 + seq!['-'] + t2));
    lemma_dash_split(d1, h1 + seq!['-'] + t1, d2, h2 + seq!['-'] + t2);
    lemma_dash_split(h1, t1, h2, t2);
    lemma_digits_injective(n1 as nat, n2 as nat, 10);
    lemma_digits_injective(s1 as nat, s2 as nat, 16);
}


/// A canonical source URL is accepted as it is: validating the result of
/// `validate_list_url` again gives the same URL, unless that result ends in
/// white space (which validation trims).
pub proof fn lemma_validate_list_url_idempotent(url: Seq<char>)
    requires
        spec_validate_list_url(url) matches Ok(c) && !is_white_space(c.last()),
    ensures
        spec_validate_list_url(spec_validate_list_url(url)->Ok_0) == spec_validate_list_url(url),
{
    reveal_strlit("https://www.bilibili.com");
    reveal_strlit("https://");
    reveal_strlit("www.bilibili.com");
    reveal_strlit("/list/");
    reveal_strlit("/video/");
    let t = trim(url);
    let (host0, after0) = split_host(t.skip(8));
    let path = take_until(after0, Stop::QueryOrFragment);
    lemma_stop_index_bounds(after0, Stop::QueryOrFragment, 0);
    let h = "https://www.bilibili.com"@;
    let c = h + path;
    assert(spec_validate_list_url(url) == Ok::<Seq<char>, ParseError>(c));
    assert(path.len() >= 1 && path[0] == '/') by {
        if starts_with(path, "/list/"@) && path.len() > 6 {
            assert(path.take(6)[0] == '/');
        } else {
            assert(path.take(7)[0] == '/');
        }
    }
    // Trimming leaves `c` alone.
    assert(c[0] == 'h');
    assert(trim_start(c) == c);
    assert(c.last() == path.last());
    assert(trim_end(c) == c);
    assert(trim(c) == c);
    // The scheme.
    assert(c.take(8) =~= "https://"@);
    // Host and path.
    let rest = c.skip(8);
    assert(rest =~= "www.bilibili.com"@ + path);
    assert(occurs_at(rest, seq!['/'], 16)) by {
        assert(rest.subrange(16, 17) =~= seq!['/']);
    }
    assert forall|m: int| 0 <= m < 16 implies !occurs_at(rest, seq!['/'], m) by {
        assert(rest.subrange(m, m + 1)[0] == rest[m]);
    }
    lemma_find_from_first(rest, seq!['/'], 0, 16);
    assert(split_host(rest).0 =~= "www.bilibili.com"@);
    assert(split_host(rest).1 =~= path);
    // The path has no query or fragment left.
    assert forall|m: int| 0 <= m < path.len() implies !stops_at(Stop::QueryOrFragment, #[trigger] path[m]) by {
        assert(path[m] == after0[m]);
    }
    lemma_stop_index_all(path, Stop::QueryOrFragment, 0);
    assert(take_until(path, Stop::QueryOrFragment) =~= path);
}


/// Whether `l` holds no line feed.
pub open spec fn no_line_feed(l: Seq<char>) -> bool {
    forall|i: int| 0 <= i < l.len() ==> l[i] != '\n'
}

/// The lines `ls`, each followed by a line feed.
pub open spec fn terminated(ls: Seq<Seq<char>>) -> Seq<char>
    decreases ls.len(),
{
    if ls.len() == 0 {
        Seq::empty()
    } else {
        ls[0] + seq!['\n'] + terminated(ls.drop_first())
    }
}

proof fn lemma_lines_have_no_line_feed(s: Seq<char>, pos: int)
    ensures
        forall|k: int| 0 <= k < lines_from(s, pos).len() ==> no_line_feed(#[trigger] lines_from(s, pos)[k]),
    decreases s.len() - pos,
{
    if !(pos < 0 || pos >= s.len()) {
        lemma_find_from_bounds(s, seq!['\n'], pos);
        match find_from(s, seq!['\n'], pos) {
            Some(i) => {
                lemma_lines_have_no_line_feed(s, i + 1);
                let first = strip_cr(s.subrange(pos, i));
                assert forall|m: int| 0 <= m < first.len() implies first[m] != '\n' by {
                    assert(first[m] == s[pos + m]);
                    assert(!occurs_at(s, seq!['\n'], pos + m));
                    if s[pos + m] == '\n' {
                        assert(s.subrange(pos + m, pos + m + 1) =~= seq!['\n']);
                    }
                }
                let r = lines_from(s, pos);
                assert forall|k: int| 0 <= k < r.len() implies no_line_feed(#[trigger] r[k]) by {
                    if k > 0 {
                        assert(r[k] == lines_from(s, i + 1)[k - 1]);
                    }
                }
            },
            None => {
                let last = s.subrange(pos, s.len() as int);
                assert forall|m: int| 0 <= m < last.len() implies last[m] != '\n' by {
                    if s[pos + m] == '\n' {
                        assert(s.subrange(pos + m, pos + m + 1) =~= seq!['\n']);
                        assert(occurs_at(s, seq!['\n'], pos + m));
                        lemma_find_from_none_absent(s, seq!['\n'], pos, pos + m);
                    }
                }
            },
        }
    }
}

proof fn lemma_terminated_push(ls: Seq<Seq<char>>, x: Seq<char>)
    ensures
        terminated(ls.push(x)) == terminated(ls) + x + seq!['\n'],
    decreases ls.len(),
{
    if ls.len() == 0 {
        assert(ls.push(x).drop_first() =~= Seq::<Seq<char>>::empty());
        assert(terminated(Seq::<Seq<char>>::empty()) =~= Seq::<char>::empty());
        assert(terminated(ls) =~= Seq::<char>::empty());
        assert(terminated(ls.push(x)) =~= x + seq!['\n']);
    } else {
        assert(ls.push(x).drop_first() =~= ls.drop_first().push(x));
        lemma_terminated_push(ls.drop_first(), x);
        assert(terminated(ls.push(x)) =~= terminated(ls) + x + seq!['\n']);
    }
}

proof fn lemma_join_terminated(ls: Seq<Seq<char>>)
    requires
        ls.len() > 0,
    ensures
        join_lines(ls) + seq!['\n'] == terminated(ls),
    decreases ls.len(),
{
    if ls.len() == 1 {
        assert(ls.drop_first() =~= Seq::<Seq<char>>::empty());
        assert(terminated(Seq::<Seq<char>>::empty()) =~= Seq::<char>::empty());
        assert(terminated(ls) =~= ls[0] + seq!['\n']);
    } else {
        lemma_join_terminated(ls.drop_last());
        lemma_terminated_push(ls.drop_last(), ls.last());
        assert(ls.drop_last().push(ls.last()) =~= ls);
        assert(join_lines(ls) + seq!['\n'] =~= (join_lines(ls.drop_last()) + seq!['\n']) + ls.last()
            + seq!['\n']);
    }
}

proof fn lemma_lines_of_terminated(s: Seq<char>, pos: int, ls: Seq<Seq<char>>)
    requires
        0 <= pos <= s.len(),
        s.skip(pos) == terminated(ls),
        forall|k: int| 0 <= k < ls.len() ==> no_line_feed(#[trigger] ls[k]),
    ensures
        lines_from(s, pos).len() == ls.len(),
        (forall|k: int| 0 <= k < ls.len() ==> strip_cr(#[trigger] ls[k]) == ls[k]) ==> lines_from(s, pos)
            == ls,
    decreases ls.len(),
{
    if ls.len() == 0 {
        assert(s.skip(pos).len() == 0);
        assert(lines_from(s, pos) =~= ls);
    } else {
        let l0 = ls[0];
        let rest = ls.drop_first();
        let i = pos + l0.len();
        assert(s.skip(pos) =~= l0 + seq!['\n'] + terminated(rest));
        assert(s[i] == '\n') by {
            assert(s.skip(pos)[l0.len() as int] == '\n');
        }
        assert(occurs_at(s, seq!['\n'], i)) by {
            assert(s.subrange(i, i + 1) =~= seq!['\n']);
        }
        assert forall|m: int| pos <= m < i implies !occurs_at(s, seq!['\n'], m) by {
            assert(s[m] == s.skip(pos)[m - pos]);
            assert(s.skip(pos)[m - pos] == l0[m - pos]);
            assert(no_line_feed(ls[0]));
            assert(s.subrange(m, m + 1)[0] == s[m]);
        }
        lemma_find_from_first(s, seq!['\n'], pos, i);
        assert(s.skip(i + 1) =~= terminated(rest)) by {
            assert forall|m: int| 0 <= m < s.skip(i + 1).len() implies s.skip(i + 1)[m] == terminated(rest)[m] by {
                assert(s.skip(i + 1)[m] == s.skip(pos)[l0.len() + 1 + m]);
            }
        }
        assert forall|k: int| 0 <= k < rest.len() implies no_line_feed(#[trigger] rest[k]) by {
            assert(rest[k] == ls[k + 1]);
        }
        lemma_lines_of_terminated(s, i + 1, rest);
        assert(s.subrange(pos, i) =~= l0) by {
            assert forall|m: int| 0 <= m < l0.len() implies s.subrange(pos, i)[m] == l0[m] by {
                assert(s[pos + m] == s.skip(pos)[m]);
            }
        }
        if forall|k: int| 0 <= k < ls.len() ==> strip_cr(#[trigger] ls[k]) == ls[k] {
            assert(strip_cr(ls[0]) == ls[0]);
            assert forall|k: int| 0 <= k < rest.len() implies strip_cr(#[trigger] rest[k]) == rest[k] by {
                assert(rest[k] == ls[k + 1]);
            }
            assert(lines_from(s, pos) =~= seq![l0] + rest);
            assert(seq![l0] + rest =~= ls);
        }
    }
}

/// A rotated history file holds exactly `max` lines (for a positive
/// `max`).
pub proof fn lemma_rotate_history_keeps_max_lines(text: Seq<char>, max: usize)
    requires
        max > 0,
        spec_rotate_history(text, max) is Some,
    ensures
        lines(spec_rotate_history(text, max)->0).len() == max,
{
    let ls = lines(text);
    let kept = ls.skip(ls.len() - max);
    lemma_lines_have_no_line_feed(text, 0);
    assert forall|k: int| 0 <= k < kept.len() implies no_line_feed(#[trigger] kept[k]) by {
        assert(kept[k] == ls[ls.len() - max + k]);
    }
    lemma_join_terminated(kept);
    let out = join_lines(kept) + seq!['\n'];
    assert(out.skip(0) =~= out);
    lemma_lines_of_terminated(out, 0, kept);
}


/// A history line as it is written: one line, not ending in a carriage
/// return.
pub open spec fn history_line(l: Seq<char>) -> bool {
    no_line_feed(l) && strip_cr(l) == l
}

/// Appending a line to a history file and rotating it keeps the last
/// lines: when the file holds the lines `ls`, each ended by a line feed,
/// then after appending `line` (and its line feed) and rotating to `max`
/// lines, the file holds the last `min(|ls| + 1, max)` lines of `ls` followed
/// by `line`.
pub proof fn lemma_append_then_rotate(ls: Seq<Seq<char>>, line: Seq<char>, max: usize)
    requires
        max > 0,
        forall|k: int| 0 <= k < ls.len() ==> history_line(#[trigger] ls[k]),
        history_line(line),
    ensures
        ({
            let all = ls.push(line);
            let appended = terminated(ls) + line + seq!['\n'];
            let after = match spec_rotate_history(appended, max) {
                Some(t) => t,
                None => appended,
            };
            let keep = if all.len() > max { max as int } else { all.len() as int };
            lines(after) == all.skip(all.len() - keep)
        }),
{
    let all = ls.push(line);
    let appended = terminated(ls) + line + seq!['\n'];
    lemma_terminated_push(ls, line);
    assert forall|k: int| 0 <= k < all.len() implies no_line_feed(#[trigger] all[k]) && strip_cr(all[k]) == all[k] by {
        if k < ls.len() {
            assert(all[k] == ls[k]);
        }
    }
    assert(appended.skip(0) =~= appended);
    lemma_lines_of_terminated(appended, 0, all);
    assert(lines(appended) == all);
    if all.len() > max {
        let kept = all.skip(all.len() - max);
        assert forall|k: int| 0 <= k < kept.len() implies no_line_feed(#[trigger] kept[k]) && strip_cr(kept[k]) == kept[k] by {
            assert(kept[k] == all[all.len() - max + k]);
        }
        lemma_join_terminated(kept);
        let out = join_lines(kept) + seq!['\n'];
        assert(out.skip(0) =~= out);
        lemma_lines_of_terminated(out, 0, kept);
    } else {
        assert(all.skip(0) =~= all);
    }
}


/// A refused source URL gives no items, whatever the page holds.
pub proof fn lemma_refused_source_gives_nothing(source_url: Seq<char>, html: Seq<char>)
    requires
        spec_validate_list_url(source_url) is Err,
    ensures
        spec_parse_list_html(source_url, html).len() == 0,
{
}

/// The embedded view only navigates to Bilibili hosts: a navigation that
/// passes the check targets a URL whose host is one of them.
pub proof fn lemma_navigation_stays_on_bilibili(url: Seq<char>)
    requires
        spec_check_navigation(url) is Ok,
    ensures
        whatwg_url(url) matches Ok((Some(h), _)) && is_bili_host(h),
{
}

/// A refused `Load` changes nothing.
pub proof fn lemma_refused_load_changes_nothing(s: BridgeView, url: String, position_seconds: Seconds, open: bool)
    requires
        spec_check_navigation(url@) is Err,
    ensures
        spec_playback_command(s, PlaybackCommandDto::Load { url, position_seconds }, open).0 == s,
        spec_playback_command(s, PlaybackCommandDto::Load { url, position_seconds }, open).1 is Err,
{
}

/// Whether a tray command hands the interface `action` with `mode`.
pub open spec fn emits(r: TrayCommand, action: Seq<char>, mode: Option<PlaybackMode>) -> bool {
    r matches TrayCommand::Emit { action: a, mode: m } && a@ == action && m == mode
}

/// The tray menu: `show` brings the window back, `quit` leaves; `prev`,
/// `next` and `toggle-play` each reach the interface as the action of
/// their own name, with no mode; each `mode-…` item reaches it as the
/// `mode` action with its playback mode; every other id does nothing.
pub proof fn lemma_tray_menu_items(id: Seq<char>, r: TrayCommand)
    requires
        spec_tray_menu_command(id, r),
    ensures
        id == "show"@ <==> r == TrayCommand::ShowWindow,
        id == "quit"@ <==> r == TrayCommand::Quit,
        id == "prev"@ || id == "next"@ || id == "toggle-play"@ ==> emits(r, id, None),
        id == "mode-ordered"@ ==> emits(r, "mode"@, Some(PlaybackMode::Ordered)),
        id == "mode-list-loop"@ ==> emits(r, "mode"@, Some(PlaybackMode::ListLoop)),
        id == "mode-single-loop"@ ==> emits(r, "mode"@, Some(PlaybackMode::SingleLoop)),
        id == "mode-random"@ ==> emits(r, "mode"@, Some(PlaybackMode::Random)),
        r == TrayCommand::Ignore <==> !(id == "show"@ || id == "quit"@ || id == "prev"@ || id
            == "next"@ || id == "toggle-play"@ || id == "mode-ordered"@ || id == "mode-list-loop"@
            || id == "mode-single-loop"@ || id == "mode-random"@),
{
    reveal_strlit("show");
    reveal_strlit("quit");
    reveal_strlit("prev");
    reveal_strlit("next");
    reveal_strlit("toggle-play");
    reveal_strlit("mode");
    reveal_strlit("mode-ordered");
    reveal_strlit("mode-list-loop");
    reveal_strlit("mode-single-loop");
    reveal_strlit("mode-random");
    assert("show"@[0] == 's' && "quit"@[0] == 'q' && "prev"@[0] == 'p' && "next"@[0] == 'n');
    assert("toggle-play"@[0] == 't' && "mode-ordered"@[0] == 'm' && "mode-random"@[0] == 'm');
    assert("mode-ordered"@[5] == 'o' && "mode-list-loop"@[5] == 'l' && "mode-single-loop"@[5] == 's'
        && "mode-random"@[5] == 'r');
    assert("mode-list-loop"@[0] == 'm' && "mode-single-loop"@[0] == 'm');
}

/// Playback commands on the open view: `Seek` to `p` runs exactly the seek
/// script for `p` and changes nothing; `Pause` runs exactly the pause script
/// and drops any pending load; `Play` runs exactly the play script when no
/// load is pending. `Next` and `Previous` do nothing. Without the view, `Seek`
/// and `Pause` fail and change no intent but the dropped load.
pub proof fn lemma_open_view_commands(s: BridgeView, p: Seconds)
    ensures
        spec_playback_command(s, PlaybackCommandDto::Seek { position_seconds: p }, true) == (
            s,
            Ok::<Seq<ActionView>, Seq<char>>(seq![ActionView::Eval { script: ScriptView::Seek { position_seconds: p } }]),
        ),
        spec_playback_command(s, PlaybackCommandDto::Pause, true).1 == Ok::<Seq<ActionView>, Seq<char>>(
            seq![ActionView::Eval { script: ScriptView::Pause }],
        ),
        spec_playback_command(s, PlaybackCommandDto::Pause, true).0.pending_playback_url is None,
        s.pending_seek is None ==> spec_playback_command(s, PlaybackCommandDto::Play, true) == (
            s,
            Ok::<Seq<ActionView>, Seq<char>>(seq![ActionView::Eval { script: ScriptView::Play }]),
        ),
        spec_playback_command(s, PlaybackCommandDto::Next, true) == (s, Ok::<Seq<ActionView>, Seq<char>>(Seq::empty())),
        spec_playback_command(s, PlaybackCommandDto::Previous, true) == (s, Ok::<Seq<ActionView>, Seq<char>>(Seq::empty())),
        spec_playback_command(s, PlaybackCommandDto::Seek { position_seconds: p }, false) == (
            s,
            Err::<Seq<ActionView>, Seq<char>>(not_open_message()),
        ),
        spec_playback_command(s, PlaybackCommandDto::Pause, false).1 == Err::<Seq<ActionView>, Seq<char>>(
            not_open_message(),
        ),
{
}

/// An accepted `Load` of `url` on the open view pauses the current video
/// quietly and then navigates to `url`; on a closed view it opens the view
/// and navigates. Either way it asks for a seek to the position and for
/// play once `url` has loaded.
pub proof fn lemma_load_navigates(s: BridgeView, url: String, p: Seconds, open: bool)
    requires
        spec_check_navigation(url@) is Ok,
    ensures
        ({
            let (s1, r) = spec_playback_command(s, PlaybackCommandDto::Load { url, position_seconds: p }, open);
            &&& r matches Ok(a) && a.last() == (ActionView::Navigate { url: url@ }) && (open ==> a
                == seq![ActionView::EvalQuietly { script: ScriptView::Pause }, ActionView::Navigate { url: url@ }])
                && (!open ==> a == seq![ActionView::OpenWebview, ActionView::Navigate { url: url@ }])
            &&& s1.pending_seek == Some(p)
            &&& s1.pending_play
            &&& s1.pending_playback_url == Some(url@)
        }),
{
}

/// A capture request for an accepted source URL: when the view already
/// shows that list page (and is open), the capture script runs there at
/// once and nothing else changes; otherwise the capture is kept for that
/// page and the view navigates to the source URL, being opened first only
/// when it is closed. Once that page has finished loading, the capture runs
/// there and is no longer pending.
pub proof fn lemma_capture_goes_to_source(
    s: BridgeView,
    src: Seq<char>,
    req: Seq<char>,
    open: bool,
    loaded: Seq<char>,
)
    requires
        spec_validate_list_url(src) is Ok,
        whatwg_url(src) is Ok,
    ensures
        ({
            let (s1, r) = spec_capture_list_html(s, src, req, open);
            let on_page = s.current_url matches Some(c) && spec_same_list_page(c, src);
            &&& on_page && open ==> s1 == s && r == Ok::<Seq<ActionView>, Seq<char>>(
                seq![ActionView::Eval { script: ScriptView::Capture { source_url: src, request_id: req } }],
            )
            &&& !on_page ==> {
                &&& r matches Ok(a) && a.len() > 0 && a.last() == (ActionView::Navigate { url: src })
                &&& r matches Ok(a) && (open <==> a.len() == 1)
                &&& r matches Ok(a) && (!open ==> a[0] == ActionView::OpenWebview)
                &&& s1 == BridgeView { pending_capture: Some((src, req)), ..s }
                &&& spec_same_list_page(src, loaded) ==> {
                    let (s2, a2) = spec_page_finished(s1, loaded);
                    &&& s2.pending_capture is None
                    &&& a2[0] == ActionView::EvalQuietly {
                        script: ScriptView::Capture { source_url: src, request_id: req },
                    }
                }
            }
        }),
{
}

/// A title refresh for a text holding a video id: on an open view showing
/// a Bilibili page the title script for that id runs at once; otherwise
/// the refresh is kept and the view goes to the Bilibili home page, being
/// opened first only when it is closed. Once any Bilibili page has finished
/// loading, the kept refresh runs there.
pub proof fn lemma_refresh_goes_to_bilibili(
    s: BridgeView,
    bvid: Seq<char>,
    req: Seq<char>,
    open: bool,
    loaded: Seq<char>,
)
    requires
        spec_normalize_video_id(bvid) is Some,
    ensures
        ({
            let id = spec_normalize_video_id(bvid)->0;
            let (s1, r) = spec_refresh_video_title(s, bvid, req, open);
            let here = open && (s.current_url matches Some(u) && on_bili_host(u));
            &&& here ==> s1 == s && r == Ok::<Seq<ActionView>, Seq<char>>(
                seq![ActionView::Eval { script: ScriptView::VideoMeta { bvid: id, request_id: req } }],
            )
            &&& !here ==> {
                &&& r matches Ok(a) && a.len() > 0 && a.last() == (ActionView::Navigate { url: BILI_HOME@ })
                &&& r matches Ok(a) && (open <==> a.len() == 1)
                &&& s1 == BridgeView { pending_meta: Some((id, req)), ..s }
                &&& on_bili_host(loaded) ==> {
                    let (s2, a2) = spec_page_finished(s1, loaded);
                    &&& s2.pending_meta is None
                    &&& a2.contains(
                        ActionView::EvalQuietly { script: ScriptView::VideoMeta { bvid: id, request_id: req } },
                    )
                }
            }
        }),
{
    let id = spec_normalize_video_id(bvid)->0;
    let (s1, r) = spec_refresh_video_title(s, bvid, req, open);
    let here = open && (s.current_url matches Some(u) && on_bili_host(u));
    if !here && on_bili_host(loaded) {
        let (s2, a2) = spec_page_finished(s1, loaded);
        let (c, x1) = crate::bridge::capture_step(s1.pending_capture, loaded);
        assert(a2[x1.len() as int] == ActionView::EvalQuietly { script: ScriptView::VideoMeta { bvid: id, request_id: req } });
    }
}

proof fn lemma_trim_end_after(p: Seq<char>, x: Seq<char>)
    requires
        p.len() > 0,
        !is_white_space(p.last()),
    ensures
        trim_end(p + x) == p + trim_end(x),
    decreases x.len(),
{
    if x.len() == 0 {
        assert(p + x =~= p);
        assert(trim_end(p) == p);
        assert(p + trim_end(x) =~= p);
    } else if is_white_space(x.last()) {
        assert((p + x).last() == x.last());
        assert((p + x).drop_last() =~= p + x.drop_last());
        lemma_trim_end_after(p, x.drop_last());
    } else {
        assert((p + x).last() == x.last());
    }
}

proof fn lemma_trim_after_scheme(p: Seq<char>, x: Seq<char>)
    requires
        p.len() > 0,
        !is_white_space(p[0]),
        !is_white_space(p.last()),
    ensures
        trim(p + x) == p + trim_end(x),
{
    assert((p + x)[0] == p[0]);
    assert(trim_start(p + x) == p + x);
    lemma_trim_end_after(p, x);
}

/// A protocol-relative link `//x` resolves as its `https://x` form, so an
/// anchor to it gives the same item. For a host `h` without `/` and a path
/// `q` that starts with `/`, holds no `?` or `#` and does not end in white
/// space, both forms give exactly `(h, q)`.
pub proof fn lemma_protocol_relative_links(x: Seq<char>, text: Seq<char>, h: Seq<char>, q: Seq<char>)
    ensures
        spec_resolve_url("//"@ + x) == spec_resolve_url("https://"@ + x),
        anchor_item("//"@ + x, text) == anchor_item("https://"@ + x, text),
        (forall|i: int| 0 <= i < h.len() ==> h[i] != '/') && q.len() > 0 && q[0] == '/' && (forall|i: int|
            0 <= i < q.len() ==> q[i] != '?' && q[i] != '#') && !is_white_space(q.last()) ==> {
            &&& spec_resolve_url("https://"@ + (h + q)) == Some((h, q))
            &&& spec_resolve_url("//"@ + (h + q)) == Some((h, q))
        },
{
    reveal_strlit("//");
    reveal_strlit("https://");
    reveal_strlit("http://");
    let d = "//"@;
    let t = "https://"@;
    lemma_trim_after_scheme(d, x);
    lemma_trim_after_scheme(t, x);
    let te = trim_end(x);
    let h1 = d + te;
    let h2 = t + te;
    assert(h1.take(2) =~= d);
    assert(h2.take(8) =~= t);
    assert(!starts_with(h1, t)) by {
        if starts_with(h1, t) {
            assert(h1.take(8)[1] == h1[1]);
        }
    }
    assert(h1.skip(2) =~= te);
    assert(h2.skip(8) =~= te);
    if (forall|i: int| 0 <= i < h.len() ==> h[i] != '/') && q.len() > 0 && q[0] == '/' && (forall|i: int|
        0 <= i < q.len() ==> q[i] != '?' && q[i] != '#') && !is_white_space(q.last()) {
        let y = h + q;
        assert(y.last() == q.last());
        assert(trim_end(y) == y);
        assert(occurs_at(y, seq!['/'], h.len() as int)) by {
            assert(y.subrange(h.len() as int, h.len() as int + 1) =~= seq!['/']);
        }
        assert forall|m: int| 0 <= m < h.len() implies !occurs_at(y, seq!['/'], m) by {
            assert(y.subrange(m, m + 1)[0] == y[m]);
        }
        lemma_find_from_first(y, seq!['/'], 0, h.len() as int);
        assert(y.take(h.len() as int) =~= h);
        assert(y.skip(h.len() as int) =~= q);
        assert forall|m: int| 0 <= m < q.len() implies !stops_at(Stop::QueryOrFragment, #[trigger] q[m]) by {}
        lemma_stop_index_all(q, Stop::QueryOrFragment, 0);
        assert(q.take(q.len() as int) =~= q);
        assert(host_and_path(y) == (h, q));
        lemma_trim_after_scheme(t, y);
        lemma_trim_after_scheme(d, y);
        let g1 = d + y;
        let g2 = t + y;
        assert(g1.take(2) =~= d);
        assert(g2.take(8) =~= t);
        assert(!starts_with(g1, t)) by {
            if starts_with(g1, t) {
                assert(g1.take(8)[1] == g1[1]);
            }
        }
        assert(g1.skip(2) =~= y);
        assert(g2.skip(8) =~= y);
    }
}

/// A `BV` id starts at `j` in `s`: `BV` followed by an ASCII letter or digit.
pub open spec fn bv_start(s: Seq<char>, j: int) -> bool {
    occurs_at(s, "BV"@, j) && j + 2 < s.len() && is_ascii_alphanumeric(s[j + 2])
}

/// An `av` id starts at `j` in `l`: `av` followed by an ASCII digit.
pub open spec fn av_start(l: Seq<char>, j: int) -> bool {
    occurs_at(l, "av"@, j) && j + 2 < l.len() && is_ascii_digit(l[j + 2])
}

/// The normalised id is the whole id at the first place one starts: a `BV`
/// id whenever the text has one, taken at the first `BV` followed by a
/// letter or digit and running to the end of those letters and digits;
/// otherwise the same for `av` and digits in the text with ASCII capitals
/// made small; nothing when the text has neither.
pub proof fn lemma_normalize_video_id_exact(s: Seq<char>)
    ensures
        ({
            let l = ascii_lowercase(s);
            match spec_normalize_video_id(s) {
                Some(id) => if starts_with(id, "BV"@) {
                    exists|i: int| {
                        &&& #[trigger] bv_start(s, i)
                        &&& forall|j: int| 0 <= j < i ==> !bv_start(s, j)
                        &&& occurs_at(s, id, i)
                        &&& (i + id.len() == s.len() || !is_ascii_alphanumeric(s[i + id.len()]))
                    }
                } else {
                    &&& forall|j: int| !bv_start(s, j)
                    &&& exists|i: int| {
                        &&& #[trigger] av_start(l, i)
                        &&& forall|j: int| 0 <= j < i ==> !av_start(l, j)
                        &&& occurs_at(l, id, i)
                        &&& (i + id.len() == l.len() || !is_ascii_digit(l[i + id.len()]))
                    }
                },
                None => (forall|j: int| !bv_start(s, j)) && (forall|j: int| !av_start(l, j)),
            }
        }),
{
    reveal_strlit("BV");
    reveal_strlit("av");
    lemma_normalize_video_id_found(s);
    let l = ascii_lowercase(s);
    let ka = Stop::NotAsciiAlphanumeric;
    let kd = Stop::NotAsciiDigit;
    assert forall|j: int| bv_start(s, j) <==> marker_at(s, "BV"@, ka, j) by {}
    assert forall|j: int| av_start(l, j) <==> marker_at(l, "av"@, kd, j) by {}
    lemma_find_marker_bounds(s, "BV"@, ka, 0);
    lemma_find_marker_bounds(l, "av"@, kd, 0);
    match find_marker(s, "BV"@, ka, 0) {
        Some(p) => {
            let rest = s.skip(p + 2);
            let run = take_until(rest, ka);
            lemma_stop_index_bounds(rest, ka, 0);
            let id = "BV"@ + run;
            assert(spec_normalize_video_id(s) == Some(id));
            assert(id.take(2) =~= "BV"@);
            assert(s.subrange(p, p + id.len()) =~= id) by {
                assert(s.subrange(p, p + 2) =~= "BV"@);
                assert forall|m: int| 0 <= m < id.len() implies s.subrange(p, p + id.len())[m] == id[m] by {
                    if m < 2 {
                        assert(s.subrange(p, p + 2)[m] == s[p + m]);
                    } else {
                        assert(run[m - 2] == rest[m - 2]);
                    }
                }
            }
            if p + id.len() < s.len() {
                assert(rest[run.len() as int] == s[p + id.len()]);
            }
            assert(bv_start(s, p));
        },
        None => {
            assert forall|j: int| !bv_start(s, j) by {
                if bv_start(s, j) {
                    lemma_find_marker_none_absent(s, "BV"@, ka, 0, j);
                }
            }
            match find_marker(l, "av"@, kd, 0) {
                Some(p) => {
                    let rest = l.skip(p + 2);
                    let run = take_until(rest, kd);
                    lemma_stop_index_bounds(rest, kd, 0);
                    let id = "av"@ + run;
                    assert(spec_normalize_video_id(s) == Some(id));
                    assert(id.take(2) =~= "av"@);
                    assert(!starts_with(id, "BV"@)) by {
                        assert(id.take(2)[0] == 'a');
                    }
                    assert(l.subrange(p, p + id.len()) =~= id) by {
                        assert(l.subrange(p, p + 2) =~= "av"@);
                        assert forall|m: int| 0 <= m < id.len() implies l.subrange(p, p + id.len())[m] == id[m] by {
                            if m < 2 {
                                assert(l.subrange(p, p + 2)[m] == l[p + m]);
                            } else {
                                assert(run[m - 2] == rest[m - 2]);
                            }
                        }
                    }
                    if p + id.len() < l.len() {
                        assert(rest[run.len() as int] == l[p + id.len()]);
                    }
                    assert(av_start(l, p));
                },
                None => {
                    assert forall|j: int| !av_start(l, j) by {
                        if av_start(l, j) {
                            lemma_find_marker_none_absent(l, "av"@, kd, 0, j);
                        }
                    }
                },
            }
        },
    }
}

} // verus!
