//! Scanning of list-page HTML for `<a ...>text</a>` anchors: the `href`
//! value and the plain text of each, and the resolution of an `href` into
//! host and path.
//!
//! Attribute values are delimited as a byte-level scan of the UTF-8 text
//! does it: a byte counts as white space when, read as a Latin-1 character,
//! it is white space, so the trailing bytes `0x85` and `0xA0` of a
//! multi-byte character count too. Where such a byte would end an unquoted
//! value in the middle of a character, the scan cannot cut the text there;
//! [`anchors`] is then `None`.

use vstd::prelude::*;
use crate::text::{
    chars_of, find_from, find_in, has_prefix, is_white_space, lemma_find_from_bounds, occurs_at,
    scan, slice_to_vec, starts_with, take_until, trim, trim_range, white_space, Stop,
};
use crate::parser::split_host;

verus! {

broadcast use vstd::string::group_string_axioms;

/// ASCII white space: tab, line feed, vertical tab, form feed, carriage
/// return and space.
pub open spec fn is_ascii_space(c: char) -> bool {
    c == ' ' || ('\u{9}' <= c && c <= '\u{d}')
}

/// Whether the last UTF-8 byte of `c`, read as a Latin-1 character, is
/// white space.
pub open spec fn last_byte_is_space(c: char) -> bool {
    if (c as u32) < 0x80 {
        is_ascii_space(c)
    } else {
        (c as u32) % 64 == 5 || (c as u32) % 64 == 32
    }
}

/// Whether one of the trailing UTF-8 bytes of `c` is `0x85` or `0xA0`,
/// which a byte-level scan takes for white space.
pub open spec fn has_space_trailing_byte(c: char) -> bool {
    let v = c as u32;
    &&& v >= 0x80
    &&& {
        ||| v % 64 == 5
        ||| v % 64 == 32
        ||| (v >= 0x800 && ((v / 64) % 64 == 5 || (v / 64) % 64 == 32))
        ||| (v >= 0x10000 && ((v / 4096) % 64 == 5 || (v / 4096) % 64 == 32))
    }
}

/// The first index at or after `j` that is not ASCII white space.
pub open spec fn skip_space(s: Seq<char>, j: int) -> int
    decreases s.len() - j,
{
    if 0 <= j < s.len() && is_ascii_space(s[j]) {
        skip_space(s, j + 1)
    } else {
        j
    }
}

/// Whether a byte-level scan ends an unquoted value at `c`: an ASCII white
/// space or `>`, or a character one of whose trailing bytes looks like white
/// space.
pub open spec fn ends_unquoted(c: char) -> bool {
    ((c as u32) < 0x80 && (is_ascii_space(c) || c == '>')) || has_space_trailing_byte(c)
}

/// The first index at or after `k` where an unquoted value ends.
pub open spec fn unquoted_end(s: Seq<char>, k: int) -> int
    decreases s.len() - k,
{
    if k < 0 || k >= s.len() {
        s.len() as int
    } else if ends_unquoted(s[k]) {
        k
    } else {
        unquoted_end(s, k + 1)
    }
}

/// The first index at or after `k` holding `q`, or the length of `s`.
pub open spec fn quote_end(s: Seq<char>, q: char, k: int) -> int
    decreases s.len() - k,
{
    if k < 0 || k >= s.len() {
        s.len() as int
    } else if s[k] == q {
        k
    } else {
        quote_end(s, q, k + 1)
    }
}

/// The attribute value that starts at `k` (after `=` and white space):
/// quoted up to the closing quote (or the end), else unquoted. `Err` where
/// the unquoted value would end inside a character.
pub open spec fn value_at(s: Seq<char>, k: int) -> Result<Seq<char>, ()> {
    if 0 <= k < s.len() && (s[k] == '"' || s[k] == '\'') {
        Ok(s.subrange(k + 1, quote_end(s, s[k], k + 1)))
    } else {
        let e = unquoted_end(s, k);
        if e < s.len() && has_space_trailing_byte(s[e]) {
            Err(())
        } else {
            Ok(s.subrange(k, e))
        }
    }
}

/// Whether the attribute name `name` at index `i` of `tag` starts a name:
/// at the start, or after white space (as a byte-level scan sees it), `>`
/// or `/`.
pub open spec fn name_boundary(tag: Seq<char>, i: int) -> bool {
    i == 0 || last_byte_is_space(tag[i - 1]) || tag[i - 1] == '>' || tag[i - 1] == '/'
}

/// The value of attribute `name` when it is assigned at index `i`.
pub open spec fn attr_at(tag: Seq<char>, name: Seq<char>, i: int) -> Option<Result<Seq<char>, ()>> {
    if occurs_at(tag, name, i) && name_boundary(tag, i) {
        let j = skip_space(tag, i + name.len());
        if j < tag.len() && tag[j] == '=' {
            Some(value_at(tag, skip_space(tag, j + 1)))
        } else {
            None
        }
    } else {
        None
    }
}

/// The value of the first assignment of attribute `name` at or after `i`.
pub open spec fn attr_from(tag: Seq<char>, name: Seq<char>, i: int) -> Option<Result<Seq<char>, ()>>
    decreases tag.len() + 1 - i,
{
    if i < 0 || i + name.len() > tag.len() {
        None
    } else {
        match attr_at(tag, name, i) {
            Some(v) => Some(v),
            None => attr_from(tag, name, i + 1),
        }
    }
}

/// The value of attribute `name` in the opening tag `tag`.
pub open spec fn attr_value(tag: Seq<char>, name: Seq<char>) -> Option<Result<Seq<char>, ()>> {
    attr_from(tag, name, 0)
}

fn ascii_space(c: char) -> (b: bool)
    ensures
        b == is_ascii_space(c),
{
    c == ' ' || ('\u{9}' <= c && c <= '\u{d}')
}

fn space_trailing_byte(c: char) -> (b: bool)
    ensures
        b == has_space_trailing_byte(c),
{
    let v = c as u32;
    v >= 0x80 && (v % 64 == 5 || v % 64 == 32 || (v >= 0x800 && ((v / 64) % 64 == 5 || (v / 64)
        % 64 == 32)) || (v >= 0x10000 && ((v / 4096) % 64 == 5 || (v / 4096) % 64 == 32)))
}

fn skip_space_exec(s: &[char], j: usize) -> (r: usize)
    requires
        j <= s@.len(),
    ensures
        r as int == skip_space(s@, j as int),
        j <= r <= s@.len(),
{
    let mut k = j;
    while k < s.len() && ascii_space(s[k])
        invariant
            j <= k <= s@.len(),
            skip_space(s@, j as int) == skip_space(s@, k as int),
        decreases s@.len() - k,
    {
        k += 1;
    }
    k
}

fn value_exec(s: &[char], k: usize) -> (r: Result<Vec<char>, ()>)
    requires
        k <= s@.len(),
    ensures
        match value_at(s@, k as int) {
            Ok(v) => r matches Ok(w) && w@ == v,
            Err(()) => r is Err,
        },
{
    let n = s.len();
    if k < n && (s[k] == '"' || s[k] == '\'') {
        let q = s[k];
        let mut e = k + 1;
        while e < n && s[e] != q
            invariant
                n == s@.len(),
                k + 1 <= e <= n,
                quote_end(s@, q, k + 1) == quote_end(s@, q, e as int),
            decreases n - e,
        {
            e += 1;
        }
        Ok(slice_to_vec(s, k + 1, e))
    } else {
        let mut e = k;
        while e < n && !(((s[e] as u32) < 0x80 && (ascii_space(s[e]) || s[e] == '>'))
            || space_trailing_byte(s[e]))
            invariant
                n == s@.len(),
                k <= e <= n,
                unquoted_end(s@, k as int) == unquoted_end(s@, e as int),
            decreases n - e,
        {
            e += 1;
        }
        if e < n && space_trailing_byte(s[e]) {
            Err(())
        } else {
            Ok(slice_to_vec(s, k, e))
        }
    }
}

/// The value of attribute `name` in the opening tag `tag` (`None` when it
/// has none), delimited as a byte-level scan of the UTF-8 text would do.
/// `Err` where that scan would cut a character.
fn extract_attr(tag: &[char], name: &[char]) -> (r: Option<Result<Vec<char>, ()>>)
    requires
        name@.len() > 0,
    ensures
        match attr_value(tag@, name@) {
            Some(Ok(v)) => r matches Some(Ok(w)) && w@ == v,
            Some(Err(())) => r matches Some(Err(())),
            None => r is None,
        },
{
    let n = tag.len();
    let nb = name.len();
    let mut i: usize = 0;
    while nb <= n && i <= n - nb
        invariant
            n == tag@.len(),
            nb == name@.len(),
            nb > 0,
            attr_value(tag@, name@) == attr_from(tag@, name@, i as int),
        decreases n + 1 - i,
    {
        let before_ok = i == 0 || {
            let c = tag[i - 1];
            let space = if (c as u32) < 0x80 {
                ascii_space(c)
            } else {
                (c as u32) % 64 == 5 || (c as u32) % 64 == 32
            };
            space || c == '>' || c == '/'
        };
        if before_ok && crate::text::matches_at(tag, name, i) {
            let j = skip_space_exec(tag, i + nb);
            if j < n && tag[j] == '=' {
                let k = skip_space_exec(tag, j + 1);
                return Some(value_exec(tag, k));
            }
        }
        i += 1;
    }
    None
}

/// `s` with everything from each `<` up to the next `>` removed, both
/// included, starting outside a tag when `in_tag` is false.
pub open spec fn strip_tags_from(s: Seq<char>, in_tag: bool) -> Seq<char>
    decreases s.len(),
{
    if s.len() == 0 {
        s
    } else if s[0] == '<' {
        strip_tags_from(s.drop_first(), true)
    } else if s[0] == '>' {
        strip_tags_from(s.drop_first(), false)
    } else if !in_tag {
        seq![s[0]] + strip_tags_from(s.drop_first(), in_tag)
    } else {
        strip_tags_from(s.drop_first(), in_tag)
    }
}

/// The plain text of `s`: its tags removed.
pub open spec fn spec_strip_tags(s: Seq<char>) -> Seq<char> {
    strip_tags_from(s, false)
}

fn strip_tags(s: &[char]) -> (r: Vec<char>)
    ensures
        r@ == spec_strip_tags(s@),
{
    let mut out: Vec<char> = Vec::new();
    let mut in_tag = false;
    let mut i: usize = 0;
    assert(s@.skip(0) =~= s@);
    while i < s.len()
        invariant
            i <= s@.len(),
            out@ + strip_tags_from(s@.skip(i as int), in_tag) == spec_strip_tags(s@),
        decreases s@.len() - i,
    {
        let c = s[i];
        assert(s@.skip(i as int).drop_first() =~= s@.skip(i + 1));
        if c == '<' {
            in_tag = true;
        } else if c == '>' {
            in_tag = false;
        } else if !in_tag {
            out.push(c);
            assert(out@ + strip_tags_from(s@.skip(i + 1), in_tag) =~= out@.drop_last() + (seq![c]
                + strip_tags_from(s@.skip(i + 1), in_tag)));
        }
        i += 1;
    }
    assert(s@.skip(i as int) =~= Seq::<char>::empty());
    assert(out@ + Seq::<char>::empty() =~= out@);
    out
}


/// Host and path (without query or fragment) of the text after a scheme.
pub open spec fn host_and_path(rest: Seq<char>) -> (Seq<char>, Seq<char>) {
    let (host, path) = split_host(rest);
    (host, take_until(path, Stop::QueryOrFragment))
}

/// Resolves an `href` into `(host, path)`: `https://host/path` and
/// `//host/path` give their host and path (without query or fragment),
/// `/path` and a relative `path` are taken on `www.bilibili.com` (kept
/// whole); `http://` links, `#` anchors and links with another scheme give
/// nothing.
pub open spec fn spec_resolve_url(href: Seq<char>) -> Option<(Seq<char>, Seq<char>)> {
    let h = trim(href);
    if starts_with(h, "https://"@) {
        Some(host_and_path(h.skip(8)))
    } else if starts_with(h, "//"@) {
        Some(host_and_path(h.skip(2)))
    } else if starts_with(h, "http://"@) {
        None
    } else if starts_with(h, "/"@) {
        Some(("www.bilibili.com"@, h))
    } else if starts_with(h, "#"@) || find_from(h, seq![':'], 0) is Some {
        None
    } else {
        Some(("www.bilibili.com"@, seq!['/'] + h))
    }
}

fn host_and_path_exec(rest: &[char]) -> (r: (Vec<char>, Vec<char>))
    ensures
        (r.0@, r.1@) == host_and_path(rest@),
{
    let slash = vec!['/'];
    assert(slash@ =~= seq!['/']);
    let n = rest.len();
    let (host, path) = match find_in(rest, slash.as_slice(), 0) {
        Some(i) => {
            proof {
                lemma_find_from_bounds(rest@, slash@, 0);
            }
            (slice_to_vec(rest, 0, i), slice_to_vec(rest, i, n))
        },
        None => {
            let only_slash = vec!['/'];
            assert(only_slash@ =~= seq!['/']);
            assert(rest@.subrange(0, n as int) =~= rest@);
            (slice_to_vec(rest, 0, n), only_slash)
        },
    };
    let end = scan(path.as_slice(), Stop::QueryOrFragment, 0);
    (host, slice_to_vec(path.as_slice(), 0, end))
}

/// Resolves an `href` into `(host, path)`; see [`spec_resolve_url`].
pub(crate) fn resolve_url(href: &[char]) -> (r: Option<(Vec<char>, Vec<char>)>)
    ensures
        match spec_resolve_url(href@) {
            Some((h, p)) => r matches Some((rh, rp)) && rh@ == h && rp@ == p,
            None => r is None,
        },
{
    let (b, e) = trim_range(href);
    let h = slice_to_vec(href, b, e);
    let n = h.len();
    let https = chars_of("https://");
    let dslash = chars_of("//");
    let http = chars_of("http://");
    let slash = chars_of("/");
    let hash = chars_of("#");
    proof {
        reveal_strlit("https://");
        reveal_strlit("//");
    }
    if has_prefix(h.as_slice(), https.as_slice()) {
        let rest = slice_to_vec(h.as_slice(), 8, n);
        assert(rest@ =~= h@.skip(8));
        return Some(host_and_path_exec(rest.as_slice()));
    }
    if has_prefix(h.as_slice(), dslash.as_slice()) {
        let rest = slice_to_vec(h.as_slice(), 2, n);
        assert(rest@ =~= h@.skip(2));
        return Some(host_and_path_exec(rest.as_slice()));
    }
    if has_prefix(h.as_slice(), http.as_slice()) {
        return None;
    }
    let www = chars_of("www.bilibili.com");
    if has_prefix(h.as_slice(), slash.as_slice()) {
        return Some((www, h));
    }
    let colon = vec![':'];
    assert(colon@ =~= seq![':']);
    if has_prefix(h.as_slice(), hash.as_slice()) || find_in(h.as_slice(), colon.as_slice(), 0).is_some() {
        return None;
    }
    let mut path = vec!['/'];
    assert(path@ =~= seq!['/']);
    let mut tail = h;
    path.append(&mut tail);
    Some((www, path))
}


/// `front` followed by the anchors of `rest`, or `None` when `rest` is.
pub open spec fn prepend<T>(front: Seq<T>, rest: Option<Seq<T>>) -> Option<Seq<T>> {
    match rest {
        Some(l) => Some(front + l),
        None => None,
    }
}

/// The anchors of `s` from index `pos` on, as `(href, text)` pairs in page
/// order: each `<a` followed by white space or `>`, up to the next `>`
/// (the opening tag) and the next `</a>` after it (the content). Anchors
/// without `href` are skipped; the text is the content without tags,
/// trimmed. The scan stops at an `<a` opening tag that is not closed by `>`
/// or not followed by `</a>`. `None` when an `href` value cannot be cut
/// (see [`value_at`]).
pub open spec fn anchors_from(s: Seq<char>, pos: int) -> Option<Seq<(Seq<char>, Seq<char>)>>
    decreases s.len() - pos
    via anchors_from_decreases
{
    if pos < 0 || pos > s.len() {
        Some(Seq::empty())
    } else {
        match find_from(s, "<a"@, pos) {
            None => Some(Seq::empty()),
            Some(o) => {
                let a = o + 2;
                if !(a < s.len() && (is_white_space(s[a]) || s[a] == '>')) {
                    anchors_from(s, a)
                } else {
                    match find_from(s, seq!['>'], a) {
                        None => Some(Seq::empty()),
                        Some(g) => {
                            let href = attr_value(s.subrange(a, g + 1), "href"@);
                            if href matches Some(Err(_)) {
                                None
                            } else {
                                match find_from(s, "</a>"@, g + 1) {
                                    None => Some(Seq::empty()),
                                    Some(c) => {
                                        let text = trim(spec_strip_tags(s.subrange(g + 1, c)));
                                        let rest = anchors_from(s, c + 4);
                                        match href {
                                            Some(Ok(h)) => prepend(seq![(h, text)], rest),
                                            _ => rest,
                                        }
                                    },
                                }
                            }
                        },
                    }
                }
            },
        }
    }
}

#[via_fn]
proof fn anchors_from_decreases(s: Seq<char>, pos: int) {
    reveal_strlit("<a");
    reveal_strlit("</a>");
    lemma_find_from_bounds(s, "<a"@, pos);
    if let Some(o) = find_from(s, "<a"@, pos) {
        lemma_find_from_bounds(s, seq!['>'], o + 2);
        if let Some(g) = find_from(s, seq!['>'], o + 2) {
            lemma_find_from_bounds(s, "</a>"@, g + 1);
        }
    }
}

/// The anchors of a page; see [`anchors_from`].
pub open spec fn anchors(s: Seq<char>) -> Option<Seq<(Seq<char>, Seq<char>)>> {
    anchors_from(s, 0)
}

/// The views of scanned anchors.
pub open spec fn anchor_views(v: Seq<(Vec<char>, Vec<char>)>) -> Seq<(Seq<char>, Seq<char>)> {
    v.map_values(|p: (Vec<char>, Vec<char>)| (p.0@, p.1@))
}

/// Scans `s` for anchors; see [`anchors`].
pub fn iter_anchors(s: &[char]) -> (r: Option<Vec<(Vec<char>, Vec<char>)>>)
    ensures
        match anchors(s@) {
            Some(l) => r matches Some(v) && anchor_views(v@) == l,
            None => r is None,
        },
{
    let n = s.len();
    let open = chars_of("<a");
    let gt = vec!['>'];
    let close = chars_of("</a>");
    let href = chars_of("href");
    proof {
        reveal_strlit("<a");
        reveal_strlit("</a>");
        reveal_strlit("href");
    }
    assert(gt@ =~= seq!['>']);
    let mut out: Vec<(Vec<char>, Vec<char>)> = Vec::new();
    let mut pos: usize = 0;
    loop
        invariant
            n == s@.len(),
            pos <= n,
            open@ == "<a"@,
            open@.len() == 2,
            gt@ == seq!['>'],
            close@ == "</a>"@,
            close@.len() == 4,
            href@ == "href"@,
            href@.len() == 4,
            anchors(s@) == prepend(anchor_views(out@), anchors_from(s@, pos as int)),
        decreases n - pos,
    {
        let o = match find_in(s, open.as_slice(), pos) {
            None => {
                assert(anchor_views(out@) + Seq::empty() =~= anchor_views(out@));
                return Some(out);
            },
            Some(o) => o,
        };
        proof {
            lemma_find_from_bounds(s@, open@, pos as int);
        }
        let a = o + 2;
        if !(a < n && (white_space(s[a]) || s[a] == '>')) {
            pos = a;
            continue;
        }
        let g = match find_in(s, gt.as_slice(), a) {
            None => {
                assert(anchor_views(out@) + Seq::empty() =~= anchor_views(out@));
                return Some(out);
            },
            Some(g) => g,
        };
        proof {
            lemma_find_from_bounds(s@, gt@, a as int);
        }
        let opening = slice_to_vec(s, a, g + 1);
        let value = extract_attr(opening.as_slice(), href.as_slice());
        if let Some(Err(())) = value {
            return None;
        }
        let c = match find_in(s, close.as_slice(), g + 1) {
            None => {
                assert(anchor_views(out@) + Seq::empty() =~= anchor_views(out@));
                return Some(out);
            },
            Some(c) => c,
        };
        proof {
            lemma_find_from_bounds(s@, close@, (g + 1) as int);
        }
        let inner = slice_to_vec(s, g + 1, c);
        let stripped = strip_tags(inner.as_slice());
        let (tb, te) = trim_range(stripped.as_slice());
        let text = slice_to_vec(stripped.as_slice(), tb, te);
        if let Some(Ok(h)) = value {
            let ghost before = anchor_views(out@);
            let ghost item = (h@, text@);
            out.push((h, text));
            assert(anchor_views(out@) =~= before.push(item));
            assert(before + (seq![item] + anchors_from(s@, (c + 4) as int)->0) =~= before.push(item)
                + anchors_from(s@, (c + 4) as int)->0);
        }
        pos = c + 4;
    }
}

} // verus!
