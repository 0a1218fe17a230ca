//! Character-sequence helpers shared by the parsers: conversions between
//! `str`/`String` and `Vec<char>`, Unicode white space, trimming, prefix tests
//! and substring search, each with its specification.

use vstd::prelude::*;

verus! {

broadcast use vstd::string::group_string_axioms;

/// The characters of `s`, in order.
pub fn chars_of(s: &str) -> (v: Vec<char>)
    ensures
        v@ == s@,
{
    let mut v: Vec<char> = Vec::new();
    for c in it: s.chars()
        invariant
            v@ == it.seq().take(it.index()),
            it.seq() == s@,
    {
        v.push(c);
    }
    v
}

/// `String::push`: appends one character.
#[verifier::external_body]
fn push_char(s: &mut String, c: char)
    ensures
        final(s)@ == old(s)@.push(c),
{
    s.push(c);
}

/// The string made of the characters of `v`, in order.
pub fn string_of(v: &[char]) -> (s: String)
    ensures
        s@ == v@,
{
    let mut s = String::new();
    let mut i: usize = 0;
    while i < v.len()
        invariant
            i <= v@.len(),
            s@ == v@.take(i as int),
        decreases v@.len() - i,
    {
        push_char(&mut s, v[i]);
        assert(v@.take(i + 1) =~= v@.take(i as int).push(v@[i as int]));
        i += 1;
    }
    assert(v@.take(v@.len() as int) =~= v@);
    s
}

/// Unicode `White_Space` property, which `char::is_whitespace` tests.
pub open spec fn is_white_space(c: char) -> bool {
    ||| ('\u{9}' <= c && c <= '\u{d}')
    ||| c == ' '
    ||| c == '\u{85}'
    ||| c == '\u{a0}'
    ||| c == '\u{1680}'
    ||| ('\u{2000}' <= c && c <= '\u{200a}')
    ||| c == '\u{2028}'
    ||| c == '\u{2029}'
    ||| c == '\u{202f}'
    ||| c == '\u{205f}'
    ||| c == '\u{3000}'
}

/// Executable test of [`is_white_space`].
pub fn white_space(c: char) -> (b: bool)
    ensures
        b == is_white_space(c),
{
    ('\u{9}' <= c && c <= '\u{d}') || c == ' ' || c == '\u{85}' || c == '\u{a0}' || c
        == '\u{1680}' || ('\u{2000}' <= c && c <= '\u{200a}') || c == '\u{2028}' || c
        == '\u{2029}' || c == '\u{202f}' || c == '\u{205f}' || c == '\u{3000}'
}

/// `s` without its leading white space.
pub open spec fn trim_start(s: Seq<char>) -> Seq<char>
    decreases s.len(),
{
    if s.len() > 0 && is_white_space(s[0]) {
        trim_start(s.drop_first())
    } else {
        s
    }
}

/// `s` without its trailing white space.
pub open spec fn trim_end(s: Seq<char>) -> Seq<char>
    decreases s.len(),
{
    if s.len() > 0 && is_white_space(s.last()) {
        trim_end(s.drop_last())
    } else {
        s
    }
}

/// `s` without leading and trailing white space (`str::trim`).
pub open spec fn trim(s: Seq<char>) -> Seq<char> {
    trim_end(trim_start(s))
}

/// `s` starts with `p`.
pub open spec fn starts_with(s: Seq<char>, p: Seq<char>) -> bool {
    p.len() <= s.len() && s.take(p.len() as int) == p
}

/// `p` occurs in `s` at index `i`.
pub open spec fn occurs_at(s: Seq<char>, p: Seq<char>, i: int) -> bool {
    0 <= i && i + p.len() <= s.len() && s.subrange(i, i + p.len()) == p
}

/// The first index at or after `from` where `p` occurs in `s`.
pub open spec fn find_from(s: Seq<char>, p: Seq<char>, from: int) -> Option<int>
    decreases s.len() + 1 - from,
{
    if from < 0 || from + p.len() > s.len() {
        None
    } else if occurs_at(s, p, from) {
        Some(from)
    } else {
        find_from(s, p, from + 1)
    }
}

/// The first index where `p` occurs in `s` (`str::find`).
pub open spec fn find(s: Seq<char>, p: Seq<char>) -> Option<int> {
    find_from(s, p, 0)
}

/// The first index at or after `from` where `c` stands in `s`.
pub open spec fn find_char_from(s: Seq<char>, c: char, from: int) -> Option<int> {
    find_from(s, seq![c], from)
}

/// The trimmed part of `s`, as a range of indices.
pub fn trim_range(s: &[char]) -> (r: (usize, usize))
    ensures
        r.0 <= r.1 <= s@.len(),
        s@.subrange(r.0 as int, r.1 as int) == trim(s@),
{
    let mut i: usize = 0;
    assert(s@.skip(0) =~= s@);
    while i < s.len() && white_space(s[i])
        invariant
            i <= s@.len(),
            trim_start(s@) == trim_start(s@.skip(i as int)),
        decreases s@.len() - i,
    {
        assert(s@.skip(i as int).drop_first() =~= s@.skip(i + 1));
        i += 1;
    }
    assert(trim_start(s@) == s@.skip(i as int));
    let mut j: usize = s.len();
    while j > i && white_space(s[j - 1])
        invariant
            i <= j <= s@.len(),
            trim(s@) == trim_end(s@.subrange(i as int, j as int)),
        decreases j,
    {
        assert(s@.subrange(i as int, j as int).drop_last() =~= s@.subrange(i as int, j - 1));
        j -= 1;
    }
    (i, j)
}

/// The characters of `s` from `from` up to `to`.
pub fn slice_to_vec(s: &[char], from: usize, to: usize) -> (v: Vec<char>)
    requires
        from <= to <= s@.len(),
    ensures
        v@ == s@.subrange(from as int, to as int),
{
    let mut v: Vec<char> = Vec::new();
    let mut i: usize = from;
    while i < to
        invariant
            from <= i <= to <= s@.len(),
            v@ == s@.subrange(from as int, i as int),
        decreases to - i,
    {
        v.push(s[i]);
        assert(s@.subrange(from as int, i + 1) =~= s@.subrange(from as int, i as int).push(
            s@[i as int],
        ));
        i += 1;
    }
    v
}

/// Whether `p` occurs in `s` at index `at`.
pub fn matches_at(s: &[char], p: &[char], at: usize) -> (b: bool)
    ensures
        b == occurs_at(s@, p@, at as int),
{
    let n = s.len();
    if at > n || p.len() > n - at {
        return false;
    }
    let mut k: usize = 0;
    while k < p.len()
        invariant
            n == s@.len(),
            at + p@.len() <= n,
            k <= p@.len(),
            forall|m: int| 0 <= m < k ==> s@[at + m] == p@[m],
        decreases p@.len() - k,
    {
        if s[at + k] != p[k] {
            assert(s@.subrange(at as int, at + p@.len())[k as int] != p@[k as int]);
            return false;
        }
        k += 1;
    }
    assert(s@.subrange(at as int, at + p@.len()) =~= p@);
    true
}

/// Whether `s` starts with `p` (`str::starts_with`).
pub fn has_prefix(s: &[char], p: &[char]) -> (b: bool)
    ensures
        b == starts_with(s@, p@),
{
    let b = matches_at(s, p, 0);
    assert(s@.subrange(0, p@.len() as int) =~= s@.take(p@.len() as int));
    b
}

/// The first index at or after `from` where `p` occurs in `s`.
pub fn find_in(s: &[char], p: &[char], from: usize) -> (r: Option<usize>)
    requires
        p@.len() > 0,
    ensures
        r matches Some(i) ==> find_from(s@, p@, from as int) == Some(i as int),
        r is None ==> find_from(s@, p@, from as int) is None,
{
    let n = s.len();
    let mut i: usize = from;
    while i <= n && p.len() <= n - i
        invariant
            n == s@.len(),
            p@.len() > 0,
            from <= i,
            find_from(s@, p@, from as int) == find_from(s@, p@, i as int),
        decreases s@.len() + 1 - i,
    {
        if matches_at(s, p, i) {
            return Some(i);
        }
        i += 1;
    }
    None
}


/// Character classes at which a scan stops.
#[derive(Clone, Copy, PartialEq, Eq, Structural)]
pub enum Stop {
    /// `?` or `#`: the end of a URL path.
    QueryOrFragment,
    /// `/`, `?` or `#`: the end of one URL path segment.
    SegmentEnd,
    /// Any character that is not an ASCII letter or digit.
    NotAsciiAlphanumeric,
    /// Any character that is not an ASCII digit.
    NotAsciiDigit,
}

pub open spec fn is_ascii_digit(c: char) -> bool {
    '0' <= c && c <= '9'
}

pub open spec fn is_ascii_alphanumeric(c: char) -> bool {
    ||| is_ascii_digit(c)
    ||| ('a' <= c && c <= 'z')
    ||| ('A' <= c && c <= 'Z')
}

/// Whether a scan of kind `k` stops at `c`.
pub open spec fn stops_at(k: Stop, c: char) -> bool {
    match k {
        Stop::QueryOrFragment => c == '?' || c == '#',
        Stop::SegmentEnd => c == '/' || c == '?' || c == '#',
        Stop::NotAsciiAlphanumeric => !is_ascii_alphanumeric(c),
        Stop::NotAsciiDigit => !is_ascii_digit(c),
    }
}

/// The first index at or after `from` where a scan of kind `k` stops, or the
/// length of `s` when it never does.
pub open spec fn stop_index(s: Seq<char>, k: Stop, from: int) -> int
    decreases s.len() - from,
{
    if from < 0 || from >= s.len() {
        s.len() as int
    } else if stops_at(k, s[from]) {
        from
    } else {
        stop_index(s, k, from + 1)
    }
}

/// The longest prefix of `s` in which a scan of kind `k` does not stop.
pub open spec fn take_until(s: Seq<char>, k: Stop) -> Seq<char> {
    s.take(stop_index(s, k, 0))
}

pub proof fn lemma_stop_index_bounds(s: Seq<char>, k: Stop, from: int)
    requires
        0 <= from <= s.len(),
    ensures
        from <= stop_index(s, k, from) <= s.len(),
        forall|m: int| from <= m < stop_index(s, k, from) ==> !stops_at(k, #[trigger] s[m]),
        stop_index(s, k, from) < s.len() ==> stops_at(k, s[stop_index(s, k, from)]),
    decreases s.len() - from,
{
    if from < s.len() && !stops_at(k, s[from]) {
        lemma_stop_index_bounds(s, k, from + 1);
    }
}

/// The first index at or after `from` where a scan of kind `k` stops.
pub fn scan(s: &[char], k: Stop, from: usize) -> (r: usize)
    requires
        from <= s@.len(),
    ensures
        r as int == stop_index(s@, k, from as int),
        from <= r <= s@.len(),
{
    proof {
        lemma_stop_index_bounds(s@, k, from as int);
    }
    let mut i: usize = from;
    while i < s.len()
        invariant
            from <= i <= s@.len(),
            stop_index(s@, k, from as int) == stop_index(s@, k, i as int),
        decreases s@.len() - i,
    {
        if stops(k, s[i]) {
            return i;
        }
        i += 1;
    }
    i
}

/// Whether a scan of kind `k` stops at `c`.
pub fn stops(k: Stop, c: char) -> (b: bool)
    ensures
        b == stops_at(k, c),
{
    match k {
        Stop::QueryOrFragment => c == '?' || c == '#',
        Stop::SegmentEnd => c == '/' || c == '?' || c == '#',
        Stop::NotAsciiAlphanumeric => !(('0' <= c && c <= '9') || ('a' <= c && c <= 'z') || ('A' <= c
            && c <= 'Z')),
        Stop::NotAsciiDigit => !('0' <= c && c <= '9'),
    }
}

/// `m` occurs in `s` at `i` and is followed there by a character at which a
/// scan of kind `k` does not stop.
pub open spec fn marker_at(s: Seq<char>, m: Seq<char>, k: Stop, i: int) -> bool {
    &&& occurs_at(s, m, i)
    &&& i + m.len() < s.len()
    &&& !stops_at(k, s[i + m.len()])
}

/// The first index at or after `from` where `m` occurs followed by a
/// character at which a scan of kind `k` does not stop.
pub open spec fn find_marker(s: Seq<char>, m: Seq<char>, k: Stop, from: int) -> Option<int>
    decreases s.len() + 1 - from,
{
    if from < 0 || from + m.len() >= s.len() {
        None
    } else if marker_at(s, m, k, from) {
        Some(from)
    } else {
        find_marker(s, m, k, from + 1)
    }
}

pub proof fn lemma_find_marker_bounds(s: Seq<char>, m: Seq<char>, k: Stop, from: int)
    ensures
        find_marker(s, m, k, from) matches Some(i) ==> from <= i && marker_at(s, m, k, i) && forall|
            j: int,
        | from <= j < i ==> !marker_at(s, m, k, j),
    decreases s.len() + 1 - from,
{
    if !(from < 0 || from + m.len() >= s.len()) && !marker_at(s, m, k, from) {
        lemma_find_marker_bounds(s, m, k, from + 1);
    }
}

/// A search for a marker that occurs nowhere from `from` on finds nothing.
pub proof fn lemma_find_marker_none(s: Seq<char>, m: Seq<char>, k: Stop, from: int)
    requires
        forall|j: int| from <= j ==> !marker_at(s, m, k, j),
    ensures
        find_marker(s, m, k, from) is None,
    decreases s.len() + 1 - from,
{
    if !(from < 0 || from + m.len() >= s.len()) {
        lemma_find_marker_none(s, m, k, from + 1);
    }
}

/// The first index where `m` occurs in `s` followed by a character at which
/// a scan of kind `k` does not stop; see [`find_marker`].
pub fn find_marker_in(s: &[char], m: &[char], k: Stop) -> (r: Option<usize>)
    ensures
        r matches Some(i) ==> find_marker(s@, m@, k, 0) == Some(i as int),
        r is None ==> find_marker(s@, m@, k, 0) is None,
{
    let n = s.len();
    let mut i: usize = 0;
    while i < n && m.len() < n - i
        invariant
            n == s@.len(),
            find_marker(s@, m@, k, 0) == find_marker(s@, m@, k, i as int),
        decreases n - i,
    {
        if matches_at(s, m, i) && !stops(k, s[i + m.len()]) {
            return Some(i);
        }
        i += 1;
    }
    None
}


pub proof fn lemma_find_from_bounds(s: Seq<char>, p: Seq<char>, from: int)
    ensures
        find_from(s, p, from) matches Some(i) ==> from <= i && occurs_at(s, p, i) && forall|
            m: int,
        | from <= m < i ==> !occurs_at(s, p, m),
    decreases s.len() + 1 - from,
{
    if !(from < 0 || from + p.len() > s.len()) && !occurs_at(s, p, from) {
        lemma_find_from_bounds(s, p, from + 1);
    }
}


/// `c` with an ASCII capital letter replaced by its small letter.
pub open spec fn ascii_lower_char(c: char) -> char {
    if 'A' <= c && c <= 'Z' {
        ((c as u32) + 32) as char
    } else {
        c
    }
}

/// `str::to_ascii_lowercase`.
pub open spec fn ascii_lowercase(s: Seq<char>) -> Seq<char> {
    s.map_values(|c: char| ascii_lower_char(c))
}

/// The characters of `s` with ASCII capitals made small.
pub fn to_ascii_lowercase(s: &[char]) -> (v: Vec<char>)
    ensures
        v@ == ascii_lowercase(s@),
{
    let mut v: Vec<char> = Vec::new();
    let mut i: usize = 0;
    while i < s.len()
        invariant
            i <= s@.len(),
            v@ == ascii_lowercase(s@.take(i as int)),
        decreases s@.len() - i,
    {
        let c = s[i];
        let d = if 'A' <= c && c <= 'Z' {
            ((c as u8) + 32) as char
        } else {
            c
        };
        v.push(d);
        assert(ascii_lowercase(s@.take(i + 1)) =~= ascii_lowercase(s@.take(i as int)).push(
            ascii_lower_char(c),
        ));
        i += 1;
    }
    assert(s@.take(s@.len() as int) =~= s@);
    v
}


/// What `str::to_lowercase` gives for `s`: each character's Unicode
/// lower-case mapping.
pub uninterp spec fn unicode_lowercase(s: Seq<char>) -> Seq<char>;

/// Whether every character of `s` is ASCII.
pub open spec fn all_ascii(s: Seq<char>) -> bool {
    forall|i: int| 0 <= i < s.len() ==> (s[i] as u32) < 128
}

/// `str::to_lowercase`: the Unicode lower-case form of `s`, a function of
/// `s` alone (named [`unicode_lowercase`], not spelled out). On ASCII text
/// it is the ASCII lower-case form, as `str::to_ascii_lowercase` documents.
#[verifier::external_body]
pub(crate) fn to_lowercase(s: &str) -> (r: String)
    ensures
        r@ == unicode_lowercase(s@),
        all_ascii(s@) ==> r@ == ascii_lowercase(s@),
{
    s.to_lowercase()
}


/// `s` with every occurrence of `p` replaced by `r`, matched left to right
/// without overlap (`str::replace` for a non-empty `p`).
pub open spec fn replace_all(s: Seq<char>, p: Seq<char>, r: Seq<char>) -> Seq<char>
    decreases s.len(),
{
    if s.len() == 0 {
        s
    } else if p.len() > 0 && starts_with(s, p) {
        r + replace_all(s.skip(p.len() as int), p, r)
    } else {
        seq![s[0]] + replace_all(s.drop_first(), p, r)
    }
}

/// Replaces every occurrence of `p` in `s` by `r`; see [`replace_all`].
pub fn replace(s: &[char], p: &[char], r: &[char]) -> (out: Vec<char>)
    requires
        p@.len() > 0,
    ensures
        out@ == replace_all(s@, p@, r@),
{
    let n = s.len();
    let mut out: Vec<char> = Vec::new();
    let mut i: usize = 0;
    assert(s@.skip(0) =~= s@);
    while i < n
        invariant
            n == s@.len(),
            i <= n,
            p@.len() > 0,
            out@ + replace_all(s@.skip(i as int), p@, r@) == replace_all(s@, p@, r@),
        decreases n - i,
    {
        let ghost rest = s@.skip(i as int);
        if matches_at(s, p, i) {
            assert(rest.take(p@.len() as int) =~= s@.subrange(i as int, i + p@.len()));
            assert(rest.skip(p@.len() as int) =~= s@.skip(i + p@.len()));
            let ghost tail = replace_all(s@.skip(i + p@.len()), p@, r@);
            let mut k: usize = 0;
            let ghost out0 = out@;
            while k < r.len()
                invariant
                    k <= r@.len(),
                    out@ == out0 + r@.take(k as int),
                decreases r@.len() - k,
            {
                out.push(r[k]);
                assert(r@.take(k + 1) =~= r@.take(k as int).push(r@[k as int]));
                k += 1;
            }
            assert(r@.take(r@.len() as int) =~= r@);
            assert(out0 + (r@ + tail) =~= out@ + tail);
            i += p.len();
        } else {
            assert(!starts_with(rest, p@)) by {
                if starts_with(rest, p@) {
                    assert(rest.take(p@.len() as int) =~= s@.subrange(i as int, i + p@.len()));
                }
            }
            assert(rest.drop_first() =~= s@.skip(i + 1));
            let ghost out0 = out@;
            out.push(s[i]);
            assert(out0 + (seq![s@[i as int]] + replace_all(s@.skip(i + 1), p@, r@)) =~= out@
                + replace_all(s@.skip(i + 1), p@, r@));
            i += 1;
        }
    }
    assert(s@.skip(n as int) =~= Seq::<char>::empty());
    assert(out@ + Seq::<char>::empty() =~= out@);
    out
}


/// A scan that never stops runs to the end.
pub proof fn lemma_stop_index_all(s: Seq<char>, k: Stop, from: int)
    requires
        0 <= from <= s.len(),
        forall|m: int| from <= m < s.len() ==> !stops_at(k, #[trigger] s[m]),
    ensures
        stop_index(s, k, from) == s.len(),
    decreases s.len() - from,
{
    if from < s.len() {
        lemma_stop_index_all(s, k, from + 1);
    }
}

/// A search for a pattern that occurs nowhere from `from` on finds nothing.
pub proof fn lemma_find_from_none(s: Seq<char>, p: Seq<char>, from: int)
    requires
        forall|m: int| from <= m ==> !occurs_at(s, p, m),
    ensures
        find_from(s, p, from) is None,
    decreases s.len() + 1 - from,
{
    if !(from < 0 || from + p.len() > s.len()) {
        lemma_find_from_none(s, p, from + 1);
    }
}


/// The first occurrence at or after `from` is found.
pub proof fn lemma_find_from_first(s: Seq<char>, p: Seq<char>, from: int, i: int)
    requires
        0 <= from <= i,
        occurs_at(s, p, i),
        forall|m: int| from <= m < i ==> !occurs_at(s, p, m),
    ensures
        find_from(s, p, from) == Some(i),
    decreases i - from,
{
    if from < i {
        lemma_find_from_first(s, p, from + 1, i);
    }
}


/// A search that finds nothing from `from` on means no occurrence there.
pub proof fn lemma_find_from_none_absent(s: Seq<char>, p: Seq<char>, from: int, m: int)
    requires
        find_from(s, p, from) is None,
        0 <= from <= m,
    ensures
        !occurs_at(s, p, m),
    decreases m - from,
{
    if from < m && !(from + p.len() > s.len()) {
        lemma_find_from_none_absent(s, p, from + 1, m);
    }
}

/// A scan that does not stop at the first character takes at least that
/// character, and none of the characters it takes stops it.
pub proof fn lemma_take_until_run(s: Seq<char>, k: Stop)
    ensures
        take_until(s, k).len() <= s.len(),
        forall|m: int| 0 <= m < take_until(s, k).len() ==> !stops_at(k, #[trigger] take_until(s, k)[m]),
        s.len() > 0 && !stops_at(k, s[0]) ==> take_until(s, k).len() > 0,
{
    lemma_stop_index_bounds(s, k, 0);
    if s.len() > 0 && !stops_at(k, s[0]) {
        lemma_stop_index_bounds(s, k, 1);
    }
    assert forall|m: int| 0 <= m < take_until(s, k).len() implies !stops_at(k, #[trigger] take_until(s, k)[m]) by {
        assert(take_until(s, k)[m] == s[m]);
    }
}

/// A search for a marker that finds nothing from `from` on means no such
/// marker there.
pub proof fn lemma_find_marker_none_absent(s: Seq<char>, m: Seq<char>, k: Stop, from: int, j: int)
    requires
        find_marker(s, m, k, from) is None,
        0 <= from <= j,
    ensures
        !marker_at(s, m, k, j),
    decreases j - from,
{
    if from < j && !(from + m.len() >= s.len()) {
        lemma_find_marker_none_absent(s, m, k, from + 1, j);
    }
}

} // verus!
