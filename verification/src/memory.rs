//! Sizing the bulk connection's page cache from the machine's physical
//! memory: an eighth of it, kept between 512 MiB and 8 GiB, and how the
//! total is read from a Linux `/proc/meminfo` text.

use vstd::prelude::*;

use crate::text::{chars_of, parse_i64, parse_i64_spec, parse_u64, parse_u64_spec, split_chars, split_spec, starts_with, has_prefix, pieces_match};

verus! {

/// The smallest cache, in KiB: 512 MiB.
pub const MIN_CACHE_KIB: i64 = 524_288;

/// The largest cache, in KiB: 8 GiB.
pub const MAX_CACHE_KIB: i64 = 8_388_608;

/// The cache-size pragma value (negative, in KiB) for a machine with
/// `total_memory` bytes: an eighth of the memory, kept between the floor
/// and the ceiling; a failed probe gets the floor.
pub open spec fn cache_kib_spec(total_memory: Option<u64>) -> i64 {
    let total_kib: int = match total_memory {
        Some(bytes) => bytes as int / 1024,
        None => 0,
    };
    let eighth = total_kib / 8;
    let kept = if eighth < MIN_CACHE_KIB {
        MIN_CACHE_KIB as int
    } else if eighth > MAX_CACHE_KIB {
        MAX_CACHE_KIB as int
    } else {
        eighth
    };
    (-kept) as i64
}

/// The cache-size pragma value for a machine with `total_memory` bytes.
pub fn bulk_cache_kib_for(total_memory: Option<u64>) -> (r: i64)
    ensures
        r == cache_kib_spec(total_memory),
        -MAX_CACHE_KIB <= r <= -MIN_CACHE_KIB,
{
    let total_kib: u64 = match total_memory {
        Some(bytes) => bytes / 1024,
        None => 0,
    };
    let eighth = total_kib / 8;
    let kept: i64 = if eighth < MIN_CACHE_KIB as u64 {
        MIN_CACHE_KIB
    } else if eighth > MAX_CACHE_KIB as u64 {
        MAX_CACHE_KIB
    } else {
        eighth as i64
    };
    -kept
}

/// The pragma value to use: an operator's override taken verbatim when
/// it parses as a signed integer (negative for KiB, positive for pages),
/// else the value sized from the probed memory.
pub open spec fn cache_size_spec(override_value: Option<Seq<char>>, total_memory: Option<u64>) -> i64 {
    match override_value {
        Some(text) => match parse_i64_spec(text) {
            Some(v) => v,
            None => cache_kib_spec(total_memory),
        },
        None => cache_kib_spec(total_memory),
    }
}

/// The cache-size pragma value, given the override's text (if the
/// variable is set) and the probed total memory.
pub fn bulk_cache_size_kib(override_value: Option<&str>, total_memory: Option<u64>) -> (r: i64)
    ensures
        r == cache_size_spec(
            match override_value {
                Some(t) => Some(t@),
                None => None,
            },
            total_memory,
        ),
{
    match override_value {
        Some(text) => {
            let cs = chars_of(text);
            match parse_i64(cs.as_slice()) {
                Some(v) => v,
                None => bulk_cache_kib_for(total_memory),
            }
        },
        None => bulk_cache_kib_for(total_memory),
    }
}

/// Whitespace as `char::is_whitespace` defines it.
pub open spec fn is_space(c: char) -> bool {
    ('\u{9}' <= c <= '\u{d}') || c == ' ' || c == '\u{85}' || c == '\u{a0}' || c == '\u{1680}'
        || ('\u{2000}' <= c <= '\u{200a}') || c == '\u{2028}' || c == '\u{2029}' || c == '\u{202f}'
        || c == '\u{205f}' || c == '\u{3000}'
}

fn space(c: char) -> (r: bool)
    ensures
        r == is_space(c),
{
    ('\u{9}' <= c && c <= '\u{d}') || c == ' ' || c == '\u{85}' || c == '\u{a0}' || c == '\u{1680}'
        || ('\u{2000}' <= c && c <= '\u{200a}') || c == '\u{2028}' || c == '\u{2029}' || c
        == '\u{202f}' || c == '\u{205f}' || c == '\u{3000}'
}

/// The whitespace-separated words of `s` from position `i` on, as
/// `split_whitespace` yields them.
pub open spec fn words_from(s: Seq<char>, i: int, current: Seq<char>) -> Seq<Seq<char>>
    decreases s.len() - i,
{
    if i < 0 || i >= s.len() {
        if current.len() > 0 {
            seq![current]
        } else {
            seq![]
        }
    } else if is_space(s[i]) {
        if current.len() > 0 {
            seq![current] + words_from(s, i + 1, seq![])
        } else {
            words_from(s, i + 1, seq![])
        }
    } else {
        words_from(s, i + 1, current.push(s[i]))
    }
}

/// The whitespace-separated words of `s`.
pub open spec fn words(s: Seq<char>) -> Seq<Seq<char>> {
    words_from(s, 0, seq![])
}

/// The second word of `s`, if it has one.
fn second_word(s: &[char]) -> (r: Option<Vec<char>>)
    ensures
        r is Some <==> words(s@).len() >= 2,
        r matches Some(w) ==> w@ == words(s@)[1],
{
    let mut found: usize = 0;
    let mut current: Vec<char> = Vec::new();
    let mut i: usize = 0;
    let ghost done: Seq<Seq<char>> = seq![];
    while i < s.len()
        invariant
            i <= s@.len(),
            found <= 1,
            done.len() == found,
            words(s@) == done + words_from(s@, i as int, current@),
            found == 1 ==> done[0] == words(s@)[0],
        decreases s@.len() - i,
    {
        let c = s[i];
        let ghost before = current@;
        if space(c) {
            if current.len() > 0 {
                if found == 1 {
                    proof {
                        assert(words_from(s@, i as int, current@) == seq![current@] + words_from(
                            s@,
                            i + 1,
                            seq![],
                        ));
                        assert((done + (seq![current@] + words_from(s@, i + 1, seq![])))[1]
                            == current@);
                    }
                    return Some(current);
                }
                proof {
                    assert(words(s@) == (done + seq![current@]) + words_from(s@, i + 1, seq![]));
                    done = done + seq![current@];
                }
                found = 1;
                current = Vec::new();
                assert(current@ =~= Seq::<char>::empty());
            } else {
                assert(words_from(s@, i as int, before) == words_from(s@, i + 1, seq![]));
                assert(current@ =~= Seq::<char>::empty());
            }
        } else {
            current.push(c);
            assert(words_from(s@, i as int, before) == words_from(s@, i + 1, before.push(c)));
        }
        i = i + 1;
    }
    if current.len() > 0 && found == 1 {
        proof {
            assert(words_from(s@, i as int, current@) == seq![current@]);
            assert((done + seq![current@])[1] == current@);
        }
        return Some(current);
    }
    proof {
        if current@.len() > 0 {
            assert(words_from(s@, i as int, current@) == seq![current@]);
        } else {
            assert(words_from(s@, i as int, current@) =~= Seq::<Seq<char>>::empty());
        }
        assert(words(s@).len() < 2);
    }
    None
}

/// The first line of `text` that begins with `MemTotal:`, as an index
/// into its `\n`-separated pieces.
pub open spec fn memtotal_line_from(lines: Seq<Seq<char>>, i: int) -> Option<int>
    decreases lines.len() - i,
{
    if i < 0 || i >= lines.len() {
        None
    } else if has_prefix(lines[i], "MemTotal:"@) {
        Some(i)
    } else {
        memtotal_line_from(lines, i + 1)
    }
}

/// The total memory a `/proc/meminfo` text reports, in bytes: the second
/// word of its first `MemTotal:` line, in KiB, times 1024; `None` when
/// there is no such line, the word is not a number, or the product does
/// not fit.
pub open spec fn meminfo_total_spec(text: Seq<char>) -> Option<u64> {
    let lines = split_spec(text, '\n');
    match memtotal_line_from(lines, 0) {
        None => None,
        Some(i) => {
            let ws = words(lines[i]);
            if ws.len() < 2 {
                None
            } else {
                match parse_u64_spec(ws[1]) {
                    Some(kib) => if kib * 1024 <= u64::MAX {
                        Some((kib * 1024) as u64)
                    } else {
                        None
                    },
                    None => None,
                }
            }
        },
    }
}

/// The total memory a Linux `/proc/meminfo` text reports, in bytes.
pub fn meminfo_total_bytes(text: &str) -> (r: Option<u64>)
    ensures
        r == meminfo_total_spec(text@),
{
    let cs = chars_of(text);
    let lines = split_chars(cs.as_slice(), '\n');
    let prefix = chars_of("MemTotal:");
    proof {
        reveal_strlit("MemTotal:");
    }
    let ghost pieces = split_spec(cs@, '\n');
    let mut i: usize = 0;
    while i < lines.len()
        invariant
            i <= lines@.len(),
            pieces_match(lines@, pieces),
            pieces == split_spec(text@, '\n'),
            prefix@ == "MemTotal:"@,
            memtotal_line_from(pieces, 0) == memtotal_line_from(pieces, i as int),
        decreases lines@.len() - i,
    {
        assert(lines@[i as int]@ == pieces[i as int]);
        if starts_with(lines[i].as_slice(), prefix.as_slice()) {
            assert(memtotal_line_from(pieces, i as int) == Some(i as int));
            let word = second_word(lines[i].as_slice());
            let ghost ws = words(pieces[i as int]);
            match word {
                None => {
                    assert(ws.len() < 2);
                    return None;
                },
                Some(w) => {
                    assert(w@ == ws[1]);
                    match parse_u64(w.as_slice()) {
                        Some(kib) => {
                            assert(parse_u64_spec(ws[1]) == Some(kib));
                            let r = kib.checked_mul(1024);
                            return r;
                        },
                        None => {
                            return None;
                        },
                    }
                },
            }
        }
        i = i + 1;
    }
    None
}

} // verus!
