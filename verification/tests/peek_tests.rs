use thoughtgate::peek::{
    find_byte, find_crlf, hex_val, parse_chunk_size, parse_hex_bounded, scan_chunked,
    scan_header_lines, trim_bytes, MAX_CHUNK_BYTES, MAX_HEADER_LINES,
};

#[test]
fn test_hex_val_digits() {
    assert_eq!(hex_val(b'0'), Some(0));
    assert_eq!(hex_val(b'9'), Some(9));
    assert_eq!(hex_val(b'a'), Some(10));
    assert_eq!(hex_val(b'f'), Some(15));
    assert_eq!(hex_val(b'A'), Some(10));
    assert_eq!(hex_val(b'F'), Some(15));
    assert_eq!(hex_val(b'g'), None);
    assert_eq!(hex_val(b' '), None);
}

#[test]
fn test_parse_hex_bounded_exact_value() {
    assert_eq!(parse_hex_bounded(b"1a", usize::MAX), Some(26));
    assert_eq!(parse_hex_bounded(b"FF", usize::MAX), Some(255));
    assert_eq!(parse_hex_bounded(b"0", usize::MAX), Some(0));
    assert_eq!(parse_hex_bounded(b"10000", usize::MAX), Some(65536));
}

#[test]
fn test_parse_hex_bounded_rejects() {
    assert_eq!(parse_hex_bounded(b"", usize::MAX), None);
    assert_eq!(parse_hex_bounded(b"xyz", usize::MAX), None);
    assert_eq!(parse_hex_bounded(b"1 2", usize::MAX), None);
    assert_eq!(parse_hex_bounded(b"ff", 100), None);
    assert_eq!(parse_hex_bounded(b"64", 100), Some(100));
}

#[test]
fn test_trim_bytes() {
    assert_eq!(trim_bytes(b"  ff \r\n"), &b"ff"[..]);
    assert_eq!(trim_bytes(b"ff"), &b"ff"[..]);
    assert_eq!(trim_bytes(b"   "), &b""[..]);
    assert_eq!(trim_bytes(b""), &b""[..]);
}

#[test]
fn test_parse_chunk_size_accepts_hex_only() {
    assert_eq!(parse_chunk_size(b"1A"), Some(26));
    assert_eq!(parse_chunk_size(b" ff "), Some(255));
    assert_eq!(parse_chunk_size(b"0"), Some(0));
    assert_eq!(parse_chunk_size(b"not-hex"), None);
    assert_eq!(parse_chunk_size(b""), None);
}

#[test]
fn test_parse_chunk_size_rejects_oversized() {
    // 1 MiB exactly is accepted; one byte more is not.
    assert_eq!(parse_chunk_size(b"100000"), Some(MAX_CHUNK_BYTES));
    assert_eq!(parse_chunk_size(b"100001"), None);
    assert_eq!(parse_chunk_size(b"ffffffffff"), None);
}

#[test]
fn test_find_crlf_positions() {
    assert_eq!(find_crlf(b"ab\r\ncd", 0), Some(2));
    assert_eq!(find_crlf(b"ab\r\ncd", 3), None);
    assert_eq!(find_crlf(b"\r\n", 0), Some(0));
    assert_eq!(find_crlf(b"no newline", 0), None);
    assert_eq!(find_crlf(b"", 0), None);
}

#[test]
fn test_find_byte_positions() {
    assert_eq!(find_byte(b"a\nb\n", 0, b'\n'), Some(1));
    assert_eq!(find_byte(b"a\nb\n", 2, b'\n'), Some(3));
    assert_eq!(find_byte(b"abc", 0, b'\n'), None);
}

#[test]
fn test_scan_chunked_well_formed() {
    // Two chunks of 4 and 5 payload bytes, then the zero-size terminator.
    let data = b"4\r\nWiki\r\n5\r\npedia\r\n0\r\n\r\n";
    assert_eq!(scan_chunked(data), 9);
}

#[test]
fn test_scan_chunked_stops_on_malformed_size() {
    assert_eq!(scan_chunked(b"zz\r\ndata\r\n"), 0);
    assert_eq!(scan_chunked(b"4 4\r\ndata\r\n"), 0);
}

#[test]
fn test_scan_chunked_zero_size_ends_body() {
    assert_eq!(scan_chunked(b"0\r\nWiki\r\n"), 0);
}

#[test]
fn test_scan_chunked_rejects_oversized_chunk() {
    // 0x200000 = 2 MiB exceeds the chunk cap, so nothing is scanned.
    assert_eq!(scan_chunked(b"200000\r\ndata\r\n"), 0);
}

#[test]
fn test_scan_chunked_truncated_payload() {
    // The size line promises 10 bytes but only 4 arrive before EOF.
    assert_eq!(scan_chunked(b"a\r\nWiki"), 4);
}

#[test]
fn test_scan_chunked_no_crlf() {
    assert_eq!(scan_chunked(b"4"), 0);
    assert_eq!(scan_chunked(b""), 0);
}

#[test]
fn test_scan_header_lines_counts() {
    assert_eq!(scan_header_lines(b"a: 1\nb: 2\nc: 3"), 3);
    assert_eq!(scan_header_lines(b"one line no newline"), 1);
    assert_eq!(scan_header_lines(b""), 0);
}

#[test]
fn test_scan_header_lines_caps_line_length() {
    // A single line longer than 8 KiB stops the scan before counting it.
    let long = vec![b'x'; 9000];
    assert_eq!(scan_header_lines(&long), 0);
}

#[test]
fn test_scan_header_lines_caps_line_count() {
    let mut data = Vec::new();
    for _ in 0..300 {
        data.extend_from_slice(b"h: v\n");
    }
    assert_eq!(scan_header_lines(&data), MAX_HEADER_LINES);
}

#[test]
fn test_scan_chunked_progress_cap() {
    // Two full-size chunks: after the first, more than the progress cap of
    // payload has been visited, and the scan yields control there.
    let mut data = Vec::new();
    for _ in 0..2 {
        data.extend_from_slice(b"100000\r\n");
        data.extend_from_slice(&vec![b'x'; 1048576]);
        data.extend_from_slice(b"\r\n");
    }
    data.extend_from_slice(b"0\r\n\r\n");
    assert_eq!(scan_chunked(&data), 1048576);
}

#[test]
fn test_scans_survive_arbitrary_bytes() {
    // 64 KiB of pseudo-random noise: every scanner must return, not panic.
    let mut state: u64 = 0x243f_6a88_85a3_08d3;
    let mut data = Vec::with_capacity(65536);
    for _ in 0..65536 {
        state = state.wrapping_mul(6364136223846793005).wrapping_add(1442695040888963407);
        data.push((state >> 33) as u8);
    }
    let total = scan_chunked(&data);
    assert!(total <= data.len());
    let lines = scan_header_lines(&data);
    assert!(lines <= MAX_HEADER_LINES);
    let _ = parse_chunk_size(&data);
    let _ = find_crlf(&data, 0);
}

#[test]
fn test_scans_survive_crlf_noise() {
    // Interleaved CR/LF and partial chunk headers, as a hostile peer might
    // send them.
    let data = b"\r\n\r\nff\r\r\n\n4\r\nab";
    let total = scan_chunked(data);
    assert!(total <= data.len());
    let _ = scan_header_lines(data);
}
