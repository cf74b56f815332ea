use crate::api::{check_status, ApiError};
use crate::digest::{digest_hex, digest_of};
use crate::text::{
    append_chars, chars_of, join_range, join_with, lemma_join_split, lemma_split_on_nonempty,
    split_chars, split_on, string_of, views,
};
use vstd::prelude::*;

verus! {

/// Whether a character is a decimal digit.
pub open spec fn is_digit(c: char) -> bool {
    '0' <= c && c <= '9'
}

/// The value of a run of decimal digits.
pub open spec fn digits_value(s: Seq<char>) -> int
    decreases s.len(),
{
    if s.len() == 0 {
        0
    } else {
        digits_value(s.drop_last()) * 10 + ((s.last() as u32) as int - 48)
    }
}

/// A segment without the one leading `+` that an unsigned number may carry.
pub open spec fn unsigned_digits(s: Seq<char>) -> Seq<char> {
    if s.len() > 0 && s[0] == '+' {
        s.drop_first()
    } else {
        s
    }
}

/// Whether a segment reads as an unsigned 8-bit number: an optional `+`, then at least one
/// decimal digit and nothing else, with a value of at most 255 (leading zeros allowed).
pub open spec fn parses_as_u8(s: Seq<char>) -> bool {
    let d = unsigned_digits(s);
    &&& d.len() > 0
    &&& forall|i: int| 0 <= i < d.len() ==> is_digit(#[trigger] d[i])
    &&& digits_value(d) <= 255
}

/// Whether every dot-separated segment of an address reads as an unsigned 8-bit number.
pub open spec fn is_ipv4_literal(addr: Seq<char>) -> bool {
    forall|i: int|
        0 <= i < split_on(addr, '.').len() ==> parses_as_u8(#[trigger] split_on(addr, '.')[i])
}

/// Wildcard `i` of an address split into `parts`. For an IPv4 literal it keeps the first `i`
/// segments and ends in `.*`; with no segment kept it is `*` alone, which matches everything.
/// For a host name it is `*.` followed by the segments from `i` on.
pub open spec fn wildcard(parts: Seq<Seq<char>>, ipv4: bool, i: int) -> Seq<char> {
    if ipv4 {
        if i == 0 {
            seq!['*']
        } else {
            join_with(parts.take(i), '.') + seq!['.', '*']
        }
    } else {
        seq!['*', '.'] + join_with(parts.subrange(i, parts.len() as int), '.')
    }
}

/// The wildcard patterns of an address, one per dot-separated segment, in order.
pub open spec fn wildcards_of(addr: Seq<char>) -> Seq<Seq<char>> {
    let parts = split_on(addr, '.');
    Seq::new(parts.len(), |i: int| wildcard(parts, is_ipv4_literal(addr), i))
}

/// A line of the blocklist without the carriage return that may end it.
pub open spec fn strip_cr(l: Seq<char>) -> Seq<char> {
    if l.len() > 0 && l.last() == '\r' {
        l.drop_last()
    } else {
        l
    }
}

/// Whether the newline-separated blocklist `list` has `d` as one of its lines.
pub open spec fn listed(list: Seq<char>, d: Seq<char>) -> bool {
    exists|i: int|
        0 <= i < split_on(list, '\n').len() && strip_cr(#[trigger] split_on(list, '\n')[i]) == d
}

/// The first of the patterns `ws[i..]` whose digest is listed.
pub open spec fn first_listed(ws: Seq<Seq<char>>, list: Seq<char>, i: int) -> Option<Seq<char>>
    decreases ws.len() - i,
{
    if i < 0 || i >= ws.len() {
        None
    } else if listed(list, digest_of(ws[i])) {
        Some(ws[i])
    } else {
        first_listed(ws, list, i + 1)
    }
}

/// The pattern by which `addr` is blocked: the address itself where its own digest is listed,
/// else the first wildcard whose digest is listed, else none.
pub open spec fn blocked_pattern(addr: Seq<char>, list: Seq<char>) -> Option<Seq<char>> {
    if listed(list, digest_of(addr)) {
        Some(addr)
    } else {
        first_listed(wildcards_of(addr), list, 0)
    }
}

proof fn lemma_digits_value_nonneg(s: Seq<char>)
    requires
        forall|i: int| 0 <= i < s.len() ==> is_digit(#[trigger] s[i]),
    ensures
        digits_value(s) >= 0,
    decreases s.len(),
{
    if s.len() > 0 {
        lemma_digits_value_nonneg(s.drop_last());
    }
}

/// Whether the segment `p` reads as an unsigned 8-bit number.
fn parses_as_octet(p: &Vec<char>) -> (r: bool)
    ensures
        r == parses_as_u8(p@),
{
    let start: usize = if p.len() > 0 && p[0] == '+' { 1 } else { 0 };
    let ghost d = unsigned_digits(p@);
    assert(d =~= p@.subrange(start as int, p.len() as int));
    if start >= p.len() {
        return false;
    }
    let mut acc: u32 = 0;
    let mut k: usize = start;
    assert(d.take(0) =~= Seq::<char>::empty());
    while k < p.len()
        invariant
            start <= k <= p.len(),
            start < p.len(),
            d == p@.subrange(start as int, p.len() as int),
            d == unsigned_digits(p@),
            forall|i: int| 0 <= i < k - start ==> is_digit(#[trigger] d[i]),
            digits_value(d.take(k - start)) >= 0,
            acc == if digits_value(d.take(k - start)) > 255 {
                256
            } else {
                digits_value(d.take(k - start))
            },
        decreases p.len() - k,
    {
        let c = p[k];
        if !('0' <= c && c <= '9') {
            assert(d[k - start] == c);
            assert(!is_digit(d[k - start]));
            return false;
        }
        let v: u32 = (c as u32) - 48;
        assert(d.take(k - start + 1).drop_last() =~= d.take(k - start));
        assert(d.take(k - start + 1).last() == c);
        if acc > 255 || acc * 10 + v > 255 {
            acc = 256;
        } else {
            acc = acc * 10 + v;
        }
        k = k + 1;
    }
    assert(d.take(k - start) =~= d);
    acc <= 255
}

/// Whether every segment in `parts` reads as an unsigned 8-bit number.
fn all_octets(parts: &Vec<Vec<char>>) -> (r: bool)
    ensures
        r == (forall|i: int| 0 <= i < parts.len() ==> parses_as_u8(#[trigger] views(parts@)[i])),
{
    let mut i: usize = 0;
    while i < parts.len()
        invariant
            i <= parts.len(),
            forall|j: int| 0 <= j < i ==> parses_as_u8(#[trigger] views(parts@)[j]),
        decreases parts.len() - i,
    {
        if !parses_as_octet(&parts[i]) {
            assert(views(parts@)[i as int] == parts@[i as int]@);
            return false;
        }
        i = i + 1;
    }
    true
}

/// Whether `address` is taken for an IPv4 literal: every dot-separated segment reads as an
/// unsigned 8-bit number. The number of segments is not checked.
pub fn is_ipv4_address(address: &str) -> (r: bool)
    ensures
        r == is_ipv4_literal(address@),
{
    let cs = chars_of(address);
    let parts = split_chars(&cs, '.');
    all_octets(&parts)
}

/// The wildcard patterns that the blocklist may hold for `address`, in the order in which
/// they are tried.
pub fn wildcard_patterns(address: &str) -> (r: Vec<String>)
    ensures
        r.len() == wildcards_of(address@).len(),
        forall|i: int| 0 <= i < r.len() ==> (#[trigger] r@[i])@ == wildcards_of(address@)[i],
{
    let cs = chars_of(address);
    let parts = split_chars(&cs, '.');
    let ipv4 = all_octets(&parts);
    let ghost ws = wildcards_of(address@);
    let n = parts.len();
    let mut r: Vec<String> = Vec::new();
    let mut i: usize = 0;
    while i < n
        invariant
            n == parts.len() == ws.len(),
            views(parts@) == split_on(address@, '.'),
            ipv4 == is_ipv4_literal(address@),
            ws == wildcards_of(address@),
            i <= n,
            r.len() == i,
            forall|j: int| 0 <= j < i ==> (#[trigger] r@[j])@ == ws[j],
        decreases n - i,
    {
        let mut w: Vec<char> = Vec::new();
        if ipv4 {
            if i == 0 {
                w.push('*');
                assert(w@ =~= seq!['*']);
            } else {
                let head = join_range(&parts, 0, i, '.');
                assert(views(parts@).subrange(0, i as int) =~= views(parts@).take(i as int));
                append_chars(&mut w, &head);
                w.push('.');
                w.push('*');
                assert(w@ =~= join_with(views(parts@).take(i as int), '.') + seq!['.', '*']);
            }
        } else {
            w.push('*');
            w.push('.');
            let tail = join_range(&parts, i, n, '.');
            append_chars(&mut w, &tail);
            assert(w@ =~= seq!['*', '.'] + join_with(
                views(parts@).subrange(i as int, n as int),
                '.',
            ));
        }
        assert(w@ == ws[i as int]);
        r.push(string_of(&w));
        i = i + 1;
    }
    r
}

/// Whether the line `line` of the blocklist, without a final carriage return, is `d`.
fn line_is(line: &Vec<char>, d: &Vec<char>) -> (r: bool)
    ensures
        r == (strip_cr(line@) == d@),
{
    let n: usize = if line.len() > 0 && line[line.len() - 1] == '\r' {
        line.len() - 1
    } else {
        line.len()
    };
    assert(strip_cr(line@) =~= line@.take(n as int));
    if n != d.len() {
        return false;
    }
    let mut i: usize = 0;
    while i < n
        invariant
            i <= n <= line.len(),
            n == d.len(),
            line@.take(i as int) == d@.take(i as int),
        decreases n - i,
    {
        if line[i] != d[i] {
            assert(line@.take(n as int)[i as int] != d@[i as int]);
            return false;
        }
        i = i + 1;
        assert(line@.take(i as int) =~= line@.take(i - 1).push(line@[i - 1]));
        assert(d@.take(i as int) =~= d@.take(i - 1).push(d@[i - 1]));
    }
    assert(d@.take(n as int) =~= d@);
    true
}

/// Whether one of `lines`, without a final carriage return, is `d`.
fn any_line_is(lines: &Vec<Vec<char>>, d: &Vec<char>) -> (r: bool)
    ensures
        r == (exists|i: int| 0 <= i < lines.len() && strip_cr(#[trigger] views(lines@)[i]) == d@),
{
    let mut i: usize = 0;
    while i < lines.len()
        invariant
            i <= lines.len(),
            forall|j: int| 0 <= j < i ==> strip_cr(#[trigger] views(lines@)[j]) != d@,
        decreases lines.len() - i,
    {
        if line_is(&lines[i], d) {
            assert(strip_cr(views(lines@)[i as int]) == d@);
            return true;
        }
        i = i + 1;
    }
    false
}

/// Whether the digest of `text` is among `lines`.
fn digest_listed(lines: &Vec<Vec<char>>, text: &str, list: Ghost<Seq<char>>) -> (r: bool)
    requires
        views(lines@) == split_on(list@, '\n'),
    ensures
        r == listed(list@, digest_of(text@)),
{
    let d = digest_hex(text);
    let dc = chars_of(d.as_str());
    let r = any_line_is(lines, &dc);
    proof {
        if r {
            let i = choose|i: int| 0 <= i < lines.len() && strip_cr(#[trigger] views(lines@)[i]) == dc@;
            assert(strip_cr(split_on(list@, '\n')[i]) == digest_of(text@));
        }
        if listed(list@, digest_of(text@)) {
            let i = choose|i: int|
                0 <= i < split_on(list@, '\n').len() && strip_cr(#[trigger] split_on(list@, '\n')[i])
                    == digest_of(text@);
            assert(strip_cr(views(lines@)[i]) == dc@);
        }
    }
    r
}

/// The pattern by which `address` is blocked, given the blocklist text: one lowercase hex SHA-1
/// digest per line. The address itself comes first where its own digest is listed; else the
/// first of its wildcard patterns, in the order of `wildcard_patterns`, whose digest is listed.
pub fn find_blocked_pattern(address: &str, blocklist: &str) -> (r: Option<String>)
    ensures
        match r {
            Some(p) => blocked_pattern(address@, blocklist@) == Some(p@),
            None => blocked_pattern(address@, blocklist@) is None,
        },
{
    let list_chars = chars_of(blocklist);
    let lines = split_chars(&list_chars, '\n');
    if digest_listed(&lines, address, Ghost(blocklist@)) {
        let own = chars_of(address);
        return Some(string_of(&own));
    }
    let patterns = wildcard_patterns(address);
    let ghost ws = wildcards_of(address@);
    let mut i: usize = 0;
    while i < patterns.len()
        invariant
            i <= patterns.len() == ws.len(),
            ws == wildcards_of(address@),
            views(lines@) == split_on(blocklist@, '\n'),
            forall|j: int| 0 <= j < patterns.len() ==> (#[trigger] patterns@[j])@ == ws[j],
            !listed(blocklist@, digest_of(address@)),
            first_listed(ws, blocklist@, 0) == first_listed(ws, blocklist@, i as int),
        decreases patterns.len() - i,
    {
        assert(patterns@[i as int]@ == ws[i as int]);
        if digest_listed(&lines, patterns[i].as_str(), Ghost(blocklist@)) {
            return Some(patterns[i].clone());
        }
        i = i + 1;
    }
    None
}

/// The answer to a blocklist request, given its status, reason phrase and body: a status other
/// than 200 is a `Request` error with that status and reason, whatever the body; else the
/// pattern by which `address` is blocked, as `find_blocked_pattern` gives it.
pub fn blocked_pattern_in_response(
    address: &str,
    status_code: i32,
    reason_phrase: String,
    body: &str,
) -> (r: Result<Option<String>, ApiError>)
    ensures
        match r {
            Ok(Some(p)) => status_code == 200 && blocked_pattern(address@, body@) == Some(p@),
            Ok(None) => status_code == 200 && blocked_pattern(address@, body@) is None,
            Err(ApiError::Request { status, reason }) => status_code != 200 && status == status_code
                && reason@ == reason_phrase@,
            Err(_) => false,
        },
{
    match check_status(status_code, reason_phrase) {
        Ok(()) => Ok(find_blocked_pattern(address, body)),
        Err(e) => Err(e),
    }
}

} // verus!

verus! {

/// An IPv4 literal of four segments has four wildcard patterns: the first is `*`, and the last
/// is its first three segments followed by `.*`.
pub proof fn lemma_ipv4_wildcards(addr: Seq<char>)
    requires
        is_ipv4_literal(addr),
        split_on(addr, '.').len() == 4,
    ensures
        wildcards_of(addr).len() == 4,
        wildcards_of(addr)[0] == seq!['*'],
        wildcards_of(addr)[3] == split_on(addr, '.')[0] + seq!['.'] + split_on(addr, '.')[1]
            + seq!['.'] + split_on(addr, '.')[2] + seq!['.', '*'],
{
    let p = split_on(addr, '.');
    assert(p.take(3).drop_last() =~= p.take(2));
    assert(p.take(2).drop_last() =~= p.take(1));
    assert(join_with(p.take(1), '.') == p[0]);
    assert(join_with(p.take(2), '.') == p[0] + seq!['.'] + p[1]);
    assert(join_with(p.take(3), '.') == p[0] + seq!['.'] + p[1] + seq!['.'] + p[2]);
    assert(wildcards_of(addr)[3] =~= p[0] + seq!['.'] + p[1] + seq!['.'] + p[2] + seq!['.', '*']);
}

/// A host name of `n` dot-separated labels has `n` wildcard patterns: the first is `*.`
/// followed by the whole name, the last is `*.` followed by its last label.
pub proof fn lemma_hostname_wildcards(addr: Seq<char>)
    requires
        !is_ipv4_literal(addr),
    ensures
        wildcards_of(addr).len() == split_on(addr, '.').len(),
        wildcards_of(addr)[0] == seq!['*', '.'] + addr,
        wildcards_of(addr)[wildcards_of(addr).len() - 1] == seq!['*', '.'] + split_on(
            addr,
            '.',
        ).last(),
{
    let p = split_on(addr, '.');
    let n = p.len() as int;
    lemma_split_on_nonempty(addr, '.');
    lemma_join_split(addr, '.');
    assert(p.subrange(0, n) =~= p);
    assert(p.subrange(n - 1, n) =~= seq![p.last()]);
}

} // verus!
