//! Bookkeeping of the edit and playback history: event ids, the names of
//! the files kept beside the playlist document, and the rotation that
//! bounds a history file.

use vstd::prelude::*;
use crate::text::{chars_of, find_in, find_from, lemma_find_from_bounds, string_of, slice_to_vec};

verus! {

broadcast use vstd::string::group_string_axioms;

/// The character of digit `d` (below 16), small letters past 9.
pub open spec fn digit_char(d: nat) -> char {
    if d < 10 {
        (('0' as u32) + d) as char
    } else {
        (('a' as u32) + (d - 10)) as char
    }
}

/// `n` written in base `b` (10 or 16), without leading zeros; `0` is `"0"`.
pub open spec fn digits(n: nat, b: nat) -> Seq<char>
    decreases n,
{
    if b < 2 || n < b {
        seq![digit_char(n % 16)]
    } else {
        proof {
            assert(n / b < n) by (nonlinear_arith)
                requires
                    b >= 2,
                    n >= b,
            ;
        }
        digits(n / b, b).push(digit_char(n % b))
    }
}

fn push_digits(n: u128, b: u128, out: &mut Vec<char>)
    requires
        b == 10 || b == 16,
    ensures
        final(out)@ == old(out)@ + digits(n as nat, b as nat),
    decreases n,
{
    if n >= b {
        push_digits(n / b, b, out);
    }
    let d = n % b;
    let c = if d < 10 {
        (('0' as u8) + (d as u8)) as char
    } else {
        (('a' as u8) + ((d - 10) as u8)) as char
    };
    assert(c == digit_char((n % b) as nat));
    out.push(c);
    assert(n < b ==> n % 16 == n % b);
}

/// The decimal text of `n`.
pub fn decimal(n: u128) -> (s: String)
    ensures
        s@ == digits(n as nat, 10),
{
    let mut v: Vec<char> = Vec::new();
    push_digits(n, 10, &mut v);
    assert(v@ =~= digits(n as nat, 10));
    string_of(v.as_slice())
}

/// The event id made of a time stamp in nanoseconds, a sequence number and
/// the event type: `<nanos in decimal>-<sequence in hex>-<type>`.
pub open spec fn spec_event_id(nanos: u128, sequence: u64, event_type: Seq<char>) -> Seq<char> {
    digits(nanos as nat, 10) + seq!['-'] + digits(sequence as nat, 16) + seq!['-'] + event_type
}

/// An id for a history event, unique in the process when `sequence` is
/// drawn from a counter: the time stamp `nanos` (nanoseconds since the Unix
/// epoch), `sequence` and the event type.
pub fn generate_event_id(nanos: u128, sequence: u64, event_type: &str) -> (s: String)
    ensures
        s@ == spec_event_id(nanos, sequence, event_type@),
{
    let mut v: Vec<char> = Vec::new();
    push_digits(nanos, 10, &mut v);
    v.push('-');
    push_digits(sequence as u128, 16, &mut v);
    v.push('-');
    let mut t = chars_of(event_type);
    v.append(&mut t);
    assert(v@ =~= spec_event_id(nanos, sequence, event_type@));
    string_of(v.as_slice())
}


/// The playlist document.
pub const PLAYLIST_FILE: &'static str = "playlists.json";

/// The copy of the previous playlist document.
pub const BACKUP_FILE: &'static str = "playlists.json.backup";

/// The edit history, one JSON event per line.
pub const EDIT_HISTORY_FILE: &'static str = "edit-history.jsonl";

/// The playback history, one JSON event per line.
pub const PLAYBACK_HISTORY_FILE: &'static str = "playback-history.jsonl";

/// The most events a history file keeps.
pub const MAX_EVENTS: usize = 10000;

/// The name under which an unreadable playlist document is set aside.
pub fn corrupt_file_name(timestamp: u128) -> (s: String)
    ensures
        s@ == "playlists.json.corrupt."@ + digits(timestamp as nat, 10),
{
    let mut s = String::from_str("playlists.json.corrupt.");
    let d = decimal(timestamp);
    s.append(d.as_str());
    s
}

/// The name of the temporary file written before it replaces `name`.
pub fn temp_file_name(name: &str, timestamp: u128) -> (s: String)
    ensures
        s@ == name@ + ".tmp."@ + digits(timestamp as nat, 10),
{
    let mut s = String::from_str(name);
    s.append(".tmp.");
    let d = decimal(timestamp);
    s.append(d.as_str());
    s
}

/// `l` without one trailing carriage return.
pub open spec fn strip_cr(l: Seq<char>) -> Seq<char> {
    if l.len() > 0 && l.last() == '\r' {
        l.drop_last()
    } else {
        l
    }
}

/// The lines of `s` from index `pos` on (`str::lines`): split after each
/// line feed, which is dropped together with a carriage return before it;
/// a last line without a line feed is kept as it is.
pub open spec fn lines_from(s: Seq<char>, pos: int) -> Seq<Seq<char>>
    decreases s.len() - pos
    via lines_from_decreases
{
    if pos < 0 || pos >= s.len() {
        Seq::empty()
    } else {
        match find_from(s, seq!['\n'], pos) {
            Some(i) => seq![strip_cr(s.subrange(pos, i))] + lines_from(s, i + 1),
            None => seq![s.subrange(pos, s.len() as int)],
        }
    }
}

#[via_fn]
proof fn lines_from_decreases(s: Seq<char>, pos: int) {
    lemma_find_from_bounds(s, seq!['\n'], pos);
}

/// The lines of `s`; see [`lines_from`].
pub open spec fn lines(s: Seq<char>) -> Seq<Seq<char>> {
    lines_from(s, 0)
}

/// `ls` joined with line feeds between them.
pub open spec fn join_lines(ls: Seq<Seq<char>>) -> Seq<char>
    decreases ls.len(),
{
    if ls.len() == 0 {
        Seq::empty()
    } else if ls.len() == 1 {
        ls[0]
    } else {
        join_lines(ls.drop_last()) + seq!['\n'] + ls.last()
    }
}

/// What is left of a history file `text` holding more than `max` lines:
/// its last `max` lines, each ended by a line feed; nothing when it holds
/// at most `max` lines.
pub open spec fn spec_rotate_history(text: Seq<char>, max: usize) -> Option<Seq<char>> {
    let ls = lines(text);
    if ls.len() > max {
        Some(join_lines(ls.skip(ls.len() - max)) + seq!['\n'])
    } else {
        None
    }
}

/// The line ranges of `s`, in the form of index pairs.
pub open spec fn range_views(s: Seq<char>, r: Seq<(usize, usize)>) -> Seq<Seq<char>> {
    r.map_values(|p: (usize, usize)| s.subrange(p.0 as int, p.1 as int))
}

fn line_ranges(s: &[char]) -> (r: Vec<(usize, usize)>)
    ensures
        range_views(s@, r@) == lines(s@),
        forall|k: int| 0 <= k < r@.len() ==> (#[trigger] r@[k]).0 <= r@[k].1 <= s@.len(),
{
    let n = s.len();
    let nl = vec!['\n'];
    assert(nl@ =~= seq!['\n']);
    let mut r: Vec<(usize, usize)> = Vec::new();
    let mut pos: usize = 0;
    while pos < n
        invariant
            n == s@.len(),
            pos <= n,
            nl@ == seq!['\n'],
            lines(s@) == range_views(s@, r@) + lines_from(s@, pos as int),
            forall|k: int| 0 <= k < r@.len() ==> (#[trigger] r@[k]).0 <= r@[k].1 <= s@.len(),
        decreases n - pos,
    {
        let ghost before = range_views(s@, r@);
        match find_in(s, nl.as_slice(), pos) {
            Some(i) => {
                proof {
                    lemma_find_from_bounds(s@, nl@, pos as int);
                }
                let end = if i > pos && s[i - 1] == '\r' {
                    i - 1
                } else {
                    i
                };
                assert(s@.subrange(pos as int, end as int) =~= strip_cr(s@.subrange(pos as int, i as int)));
                r.push((pos, end));
                assert(range_views(s@, r@) =~= before.push(strip_cr(s@.subrange(pos as int, i as int))));
                assert(before + (seq![strip_cr(s@.subrange(pos as int, i as int))] + lines_from(s@, i + 1))
                    =~= range_views(s@, r@) + lines_from(s@, i + 1));
                pos = i + 1;
            },
            None => {
                r.push((pos, n));
                assert(range_views(s@, r@) =~= before.push(s@.subrange(pos as int, n as int)));
                assert(lines_from(s@, n as int) =~= Seq::<Seq<char>>::empty());
                assert(before + seq![s@.subrange(pos as int, n as int)] =~= range_views(s@, r@) + lines_from(s@, n as int));
                pos = n;
            },
        }
    }
    assert(lines_from(s@, pos as int) =~= Seq::<Seq<char>>::empty());
    assert(range_views(s@, r@) + Seq::<Seq<char>>::empty() =~= range_views(s@, r@));
    r
}

/// Rotates a history file's text: when it holds more than `max` lines,
/// gives its last `max` lines; see [`spec_rotate_history`].
pub fn rotate_history(text: &str, max: usize) -> (r: Option<String>)
    ensures
        match spec_rotate_history(text@, max) {
            Some(t) => r matches Some(s) && s@ == t,
            None => r is None,
        },
{
    let s = chars_of(text);
    let ranges = line_ranges(s.as_slice());
    let count = ranges.len();
    if count <= max {
        return None;
    }
    let start = count - max;
    let ghost all = range_views(s@, ranges@);
    let ghost kept = all.skip(start as int);
    let mut out: Vec<char> = Vec::new();
    let mut k: usize = start;
    assert(kept.take(0) =~= Seq::<Seq<char>>::empty());
    while k < count
        invariant
            start <= k <= count,
            count == ranges@.len(),
            all == range_views(s@, ranges@),
            kept == all.skip(start as int),
            out@ == join_lines(kept.take(k - start)),
            forall|m: int| 0 <= m < ranges@.len() ==> (#[trigger] ranges@[m]).0 <= ranges@[m].1 <= s@.len(),
        decreases count - k,
    {
        let (b, e) = ranges[k];
        let ghost prev = kept.take(k - start);
        assert(kept.take(k + 1 - start).drop_last() =~= prev);
        assert(kept.take(k + 1 - start).last() == s@.subrange(b as int, e as int));
        if k > start {
            out.push('\n');
        }
        let mut line = slice_to_vec(s.as_slice(), b, e);
        out.append(&mut line);
        if k == start {
            assert(kept.take(1).len() == 1);
            assert(out@ =~= join_lines(kept.take(1)));
        } else {
            assert(out@ =~= join_lines(prev) + seq!['\n'] + s@.subrange(b as int, e as int));
        }
        k += 1;
    }
    assert(kept.take(count - start) =~= kept);
    out.push('\n');
    Some(string_of(out.as_slice()))
}

} // verus!
