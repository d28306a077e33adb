//! Bounded, panic-free byte scanning for the forward path.
//!
//! The forward path peeks at untrusted byte streams: it locates line breaks,
//! reads hexadecimal chunk sizes of HTTP chunked encoding, and walks
//! header-like lines. Every scan here is total and bounded: chunk sizes
//! above [`MAX_CHUNK_BYTES`] are rejected, a zero-size chunk ends the body,
//! header scans stop at [`MAX_HEADER_LINES`] lines or [`MAX_HEADER_LINE_BYTES`]
//! bytes per line, and the chunked scan stops after [`MAX_PARSE_BYTES`] bytes
//! of payload, so no input can drive it into an unbounded loop.

use vstd::prelude::*;
use vstd::slice::slice_subrange;

verus! {

/// Largest chunk size the scanner accepts, in bytes.
pub const MAX_CHUNK_BYTES: usize = 1048576;

/// Payload bytes the chunked scan will visit before yielding control.
pub const MAX_PARSE_BYTES: usize = 1000000;

/// Header lines a scan will visit before stopping.
pub const MAX_HEADER_LINES: usize = 100;

/// Longest header line, in bytes, a scan will accept.
pub const MAX_HEADER_LINE_BYTES: usize = 8192;

/// Carriage return.
pub const CR: u8 = 13;

/// Line feed.
pub const LF: u8 = 10;

/// The numeric value of an ASCII hexadecimal digit, if `b` is one.
pub open spec fn spec_hex_val(b: u8) -> Option<u8> {
    if 48 <= b <= 57 {
        Some((b - 48) as u8)
    } else if 97 <= b <= 102 {
        Some((b - 97 + 10) as u8)
    } else if 65 <= b <= 70 {
        Some((b - 65 + 10) as u8)
    } else {
        None
    }
}

/// Every byte of `s` is an ASCII hexadecimal digit.
pub open spec fn all_hex_digits(s: Seq<u8>) -> bool {
    forall|i: int| 0 <= i < s.len() ==> (#[trigger] spec_hex_val(s[i])) is Some
}

/// The value of `s` read as a big-endian hexadecimal numeral.
pub open spec fn spec_hex_value(s: Seq<u8>) -> nat
    decreases s.len(),
{
    if s.len() == 0 {
        0
    } else {
        16 * spec_hex_value(s.drop_last()) + (match spec_hex_val(s.last()) {
            Some(d) => d as nat,
            None => 0,
        })
    }
}

/// The position of the first CRLF pair at or after `from`.
pub open spec fn spec_find_crlf(data: Seq<u8>, from: int) -> Option<int>
    decreases data.len() - from,
{
    if from < 0 || from + 1 >= data.len() {
        None
    } else if data[from] == CR && data[from + 1] == LF {
        Some(from)
    } else {
        spec_find_crlf(data, from + 1)
    }
}

/// The position of the first `target` byte at or after `from`.
pub open spec fn spec_find_byte(data: Seq<u8>, from: int, target: u8) -> Option<int>
    decreases data.len() - from,
{
    if from < 0 || from >= data.len() {
        None
    } else if data[from] == target {
        Some(from)
    } else {
        spec_find_byte(data, from + 1, target)
    }
}

/// ASCII whitespace, as far as the chunk-size scanner strips it.
pub open spec fn is_ws(b: u8) -> bool {
    b == 32 || b == 9 || b == CR || b == LF
}

/// `s` without its leading whitespace.
pub open spec fn spec_trim_start(s: Seq<u8>) -> Seq<u8>
    decreases s.len(),
{
    if s.len() > 0 && is_ws(s[0]) {
        spec_trim_start(s.subrange(1, s.len() as int))
    } else {
        s
    }
}

/// `s` without its trailing whitespace.
pub open spec fn spec_trim_end(s: Seq<u8>) -> Seq<u8>
    decreases s.len(),
{
    if s.len() > 0 && is_ws(s.last()) {
        spec_trim_end(s.drop_last())
    } else {
        s
    }
}

/// `s` without leading and trailing whitespace.
pub open spec fn spec_trim(s: Seq<u8>) -> Seq<u8> {
    spec_trim_end(spec_trim_start(s))
}

/// The size a chunk-size line denotes: its trimmed bytes read as a
/// hexadecimal numeral, accepted only when nonempty, wholly hexadecimal,
/// and at most [`MAX_CHUNK_BYTES`].
pub open spec fn spec_chunk_size(line: Seq<u8>) -> Option<nat> {
    let t = spec_trim(line);
    if t.len() > 0 && all_hex_digits(t) && spec_hex_value(t) <= MAX_CHUNK_BYTES {
        Some(spec_hex_value(t))
    } else {
        None
    }
}

proof fn lemma_hex_value_prefix_le(s: Seq<u8>, i: int)
    requires
        0 <= i <= s.len(),
    ensures
        spec_hex_value(s.take(i)) <= spec_hex_value(s),
    decreases s.len() - i,
{
    if i == s.len() {
        assert(s.take(i) =~= s);
    } else {
        assert(s.take(i + 1).drop_last() =~= s.take(i));
        assert(s.take(i + 1).last() == s[i]);
        lemma_hex_value_prefix_le(s, i + 1);
    }
}

proof fn lemma_find_crlf_props(data: Seq<u8>, from: int)
    ensures
        spec_find_crlf(data, from) matches Some(p) ==> from <= p && p + 2 <= data.len()
            && data[p] == CR && data[p + 1] == LF,
    decreases data.len() - from,
{
    if 0 <= from && from + 1 < data.len() && !(data[from] == CR && data[from + 1] == LF) {
        lemma_find_crlf_props(data, from + 1);
    }
}

proof fn lemma_find_byte_props(data: Seq<u8>, from: int, target: u8)
    ensures
        spec_find_byte(data, from, target) matches Some(p) ==> from <= p && p < data.len()
            && data[p] == target,
    decreases data.len() - from,
{
    if 0 <= from && from < data.len() && data[from] != target {
        lemma_find_byte_props(data, from + 1, target);
    }
}

proof fn lemma_trim_start_range(s: Seq<u8>, a: int)
    requires
        0 <= a <= s.len(),
        forall|j: int| 0 <= j < a ==> is_ws(#[trigger] s[j]),
        a < s.len() ==> !is_ws(s[a]),
    ensures
        spec_trim_start(s) == s.subrange(a, s.len() as int),
    decreases a,
{
    if a == 0 {
        assert(s.subrange(0, s.len() as int) =~= s);
    } else {
        let s1 = s.subrange(1, s.len() as int);
        lemma_trim_start_range(s1, a - 1);
        assert(s1.subrange(a - 1, s1.len() as int) =~= s.subrange(a, s.len() as int));
    }
}

proof fn lemma_trim_end_range(s: Seq<u8>, b: int)
    requires
        0 <= b <= s.len(),
        forall|j: int| b <= j < s.len() ==> is_ws(#[trigger] s[j]),
        b > 0 ==> !is_ws(s[b - 1]),
    ensures
        spec_trim_end(s) == s.subrange(0, b),
    decreases s.len() - b,
{
    if b == s.len() {
        assert(s.subrange(0, b) =~= s);
    } else {
        lemma_trim_end_range(s.drop_last(), b);
        assert(s.drop_last().subrange(0, b) =~= s.subrange(0, b));
    }
}

/// The numeric value of an ASCII hexadecimal digit, if `b` is one.
pub fn hex_val(b: u8) -> (r: Option<u8>)
    ensures
        r == spec_hex_val(b),
{
    if 48 <= b && b <= 57 {
        Some(b - 48)
    } else if 97 <= b && b <= 102 {
        Some(b - 97 + 10)
    } else if 65 <= b && b <= 70 {
        Some(b - 65 + 10)
    } else {
        None
    }
}

/// The position of the first CRLF pair at or after `from`, if any.
pub fn find_crlf(data: &[u8], from: usize) -> (r: Option<usize>)
    ensures
        r == match spec_find_crlf(data@, from as int) {
            Some(p) => Some(p as usize),
            None => None::<usize>,
        },
{
    let n = data.len();
    if from >= n {
        return None;
    }
    let mut i: usize = from;
    while i + 1 < n
        invariant
            from <= i < n,
            n == data@.len(),
            spec_find_crlf(data@, from as int) == spec_find_crlf(data@, i as int),
        decreases n - i,
    {
        if data[i] == CR && data[i + 1] == LF {
            return Some(i);
        }
        i = i + 1;
    }
    None
}

/// The position of the first `target` byte at or after `from`, if any.
pub fn find_byte(data: &[u8], from: usize, target: u8) -> (r: Option<usize>)
    ensures
        r == match spec_find_byte(data@, from as int, target) {
            Some(p) => Some(p as usize),
            None => None::<usize>,
        },
{
    let n = data.len();
    let mut i: usize = from;
    while i < n
        invariant
            from <= i,
            n == data@.len(),
            spec_find_byte(data@, from as int, target) == spec_find_byte(data@, i as int, target),
        decreases n - i,
    {
        if data[i] == target {
            return Some(i);
        }
        i = i + 1;
    }
    None
}

fn byte_is_ws(b: u8) -> (r: bool)
    ensures
        r == is_ws(b),
{
    b == 32 || b == 9 || b == CR || b == LF
}

/// `data` without leading and trailing ASCII whitespace.
pub fn trim_bytes<'a>(data: &'a [u8]) -> (out: &'a [u8])
    ensures
        out@ == spec_trim(data@),
{
    let n = data.len();
    let mut a: usize = 0;
    while a < n && byte_is_ws(data[a])
        invariant
            0 <= a <= n,
            n == data@.len(),
            forall|j: int| 0 <= j < a ==> is_ws(#[trigger] data@[j]),
        decreases n - a,
    {
        a = a + 1;
    }
    let mut b: usize = n;
    while b > a && byte_is_ws(data[b - 1])
        invariant
            a <= b <= n,
            n == data@.len(),
            forall|j: int| b <= j < n ==> is_ws(#[trigger] data@[j]),
        decreases b,
    {
        b = b - 1;
    }
    proof {
        lemma_trim_start_range(data@, a as int);
        let s1 = data@.subrange(a as int, n as int);
        lemma_trim_end_range(s1, b - a);
        assert(s1.subrange(0, b - a) =~= data@.subrange(a as int, b as int));
    }
    slice_subrange(data, a, b)
}

/// Reads `digits` as a hexadecimal numeral of value at most `max`.
pub fn parse_hex_bounded(digits: &[u8], max: usize) -> (r: Option<usize>)
    ensures
        r == (if digits@.len() > 0 && all_hex_digits(digits@) && spec_hex_value(digits@) <= max {
            Some(spec_hex_value(digits@) as usize)
        } else {
            None::<usize>
        }),
{
    let n = digits.len();
    if n == 0 {
        return None;
    }
    let mut acc: usize = 0;
    let mut i: usize = 0;
    while i < n
        invariant
            0 <= i <= n,
            n == digits@.len(),
            forall|j: int| 0 <= j < i ==> (#[trigger] spec_hex_val(digits@[j])) is Some,
            acc == spec_hex_value(digits@.take(i as int)),
            acc <= max,
        decreases n - i,
    {
        match hex_val(digits[i]) {
            None => {
                assert(!all_hex_digits(digits@));
                return None;
            },
            Some(d8) => {
                let d = d8 as usize;
                proof {
                    assert(digits@.take(i + 1).drop_last() =~= digits@.take(i as int));
                    assert(digits@.take(i + 1).last() == digits@[i as int]);
                }
                if d > max || acc > (max - d) / 16 {
                    proof {
                        vstd::arithmetic::div_mod::lemma_fundamental_div_mod(
                            (max - d) as int, 16);
                        assert(spec_hex_value(digits@.take(i + 1)) > max);
                        lemma_hex_value_prefix_le(digits@, i + 1);
                    }
                    return None;
                }
                proof {
                    vstd::arithmetic::div_mod::lemma_fundamental_div_mod((max - d) as int, 16);
                }
                acc = 16 * acc + d;
                i = i + 1;
            },
        }
    }
    proof {
        assert(digits@.take(n as int) =~= digits@);
    }
    Some(acc)
}

/// The size denoted by a chunk-size line: trimmed, hexadecimal, and at most
/// [`MAX_CHUNK_BYTES`].
pub fn parse_chunk_size(line: &[u8]) -> (r: Option<usize>)
    ensures
        r == match spec_chunk_size(line@) {
            Some(v) => Some(v as usize),
            None => None::<usize>,
        },
{
    let t = trim_bytes(line);
    parse_hex_bounded(t, MAX_CHUNK_BYTES)
}

/// The payload bytes visited by a bounded scan of `data` as HTTP chunked
/// encoding, starting at `pos` with `total` bytes already scanned.
///
/// The scan stops at the first malformed or oversized chunk size, at a
/// zero-size chunk, at the end of the input, and once `total` reaches
/// [`MAX_PARSE_BYTES`].
pub open spec fn spec_scan_chunked(data: Seq<u8>, pos: int, total: int) -> int
    decreases data.len() - pos,
    via spec_scan_chunked_decreases
{
    if pos < 0 || pos >= data.len() || total >= MAX_PARSE_BYTES {
        total
    } else {
        match spec_find_crlf(data, pos) {
            None => total,
            Some(p) => {
                match spec_chunk_size(data.subrange(pos, p)) {
                    None => total,
                    Some(size) => {
                        if size == 0 {
                            total
                        } else {
                            let body_start = p + 2;
                            let avail = data.len() - body_start;
                            let to_read = if size <= avail { size as int } else { avail };
                            let after_body = body_start + to_read;
                            let next = if after_body + 2 <= data.len() && data[after_body] == CR
                                && data[after_body + 1] == LF {
                                after_body + 2
                            } else {
                                after_body
                            };
                            spec_scan_chunked(data, next, total + to_read)
                        }
                    },
                }
            },
        }
    }
}

#[via_fn]
proof fn spec_scan_chunked_decreases(data: Seq<u8>, pos: int, total: int) {
    lemma_find_crlf_props(data, pos);
    match spec_find_crlf(data, pos) {
        Some(p) => {
            assert(pos <= p && p + 2 <= data.len());
        },
        None => (),
    }
}

fn scan_chunked_from(data: &[u8], pos: usize, total: usize) -> (r: usize)
    requires
        total <= MAX_PARSE_BYTES + MAX_CHUNK_BYTES,
    ensures
        r == spec_scan_chunked(data@, pos as int, total as int),
    decreases data@.len() - pos,
{
    if pos >= data.len() || total >= MAX_PARSE_BYTES {
        return total;
    }
    proof {
        lemma_find_crlf_props(data@, pos as int);
    }
    match find_crlf(data, pos) {
        None => total,
        Some(p) => {
            let line = slice_subrange(data, pos, p);
            match parse_chunk_size(line) {
                None => total,
                Some(size) => {
                    if size == 0 {
                        total
                    } else {
                        let body_start = p + 2;
                        let avail = data.len() - body_start;
                        let to_read = if size <= avail { size } else { avail };
                        let after_body = body_start + to_read;
                        let next = if after_body <= data.len() - 2 && data[after_body] == CR
                            && data[after_body + 1] == LF {
                            after_body + 2
                        } else {
                            after_body
                        };
                        scan_chunked_from(data, next, total + to_read)
                    }
                },
            }
        },
    }
}

/// Scans `data` as HTTP chunked encoding and returns how many payload bytes
/// the scan visited before stopping.
///
/// The scan accepts hexadecimal chunk sizes only, rejects sizes above
/// [`MAX_CHUNK_BYTES`], treats a zero-size chunk as end of body, and stops
/// once [`MAX_PARSE_BYTES`] payload bytes were visited, so it terminates on
/// every input without panicking.
pub fn scan_chunked(data: &[u8]) -> (total: usize)
    ensures
        total == spec_scan_chunked(data@, 0, 0),
{
    scan_chunked_from(data, 0, 0)
}

/// The number of header lines a bounded scan of `data` visits, having
/// already visited `lines` lines at position `pos`.
///
/// The scan stops at [`MAX_HEADER_LINES`] lines and at the first line longer
/// than [`MAX_HEADER_LINE_BYTES`] bytes.
pub open spec fn spec_scan_header_lines(data: Seq<u8>, pos: int, lines: int) -> int
    decreases data.len() - pos,
    via spec_scan_header_lines_decreases
{
    if pos < 0 || pos >= data.len() || lines >= MAX_HEADER_LINES {
        lines
    } else {
        let line_end = match spec_find_byte(data, pos, LF) {
            Some(p) => p,
            None => data.len() as int,
        };
        if line_end - pos > MAX_HEADER_LINE_BYTES {
            lines
        } else if line_end == data.len() {
            lines + 1
        } else {
            spec_scan_header_lines(data, line_end + 1, lines + 1)
        }
    }
}

#[via_fn]
proof fn spec_scan_header_lines_decreases(data: Seq<u8>, pos: int, lines: int) {
    lemma_find_byte_props(data, pos, LF);
}

fn scan_header_lines_from(data: &[u8], pos: usize, lines: usize) -> (r: usize)
    requires
        lines <= MAX_HEADER_LINES,
    ensures
        r == spec_scan_header_lines(data@, pos as int, lines as int),
    decreases data@.len() - pos,
{
    if pos >= data.len() || lines >= MAX_HEADER_LINES {
        return lines;
    }
    proof {
        lemma_find_byte_props(data@, pos as int, LF);
    }
    let line_end = match find_byte(data, pos, LF) {
        Some(p) => p,
        None => data.len(),
    };
    if line_end - pos > MAX_HEADER_LINE_BYTES {
        lines
    } else if line_end == data.len() {
        lines + 1
    } else {
        scan_header_lines_from(data, line_end + 1, lines + 1)
    }
}

/// Walks `data` as header-like lines separated by LF and returns how many
/// lines the scan visited: at most [`MAX_HEADER_LINES`], stopping early at
/// the first line longer than [`MAX_HEADER_LINE_BYTES`] bytes.
pub fn scan_header_lines(data: &[u8]) -> (lines: usize)
    ensures
        lines == spec_scan_header_lines(data@, 0, 0),
{
    scan_header_lines_from(data, 0, 0)
}

} // verus!
