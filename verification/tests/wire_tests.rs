use rachel::wire::{
    encode_request_frame, encode_response_frame, find_nul, parse_length, push_decimal,
    take_delimited, take_prefixed, FrameError, FrameStatus,
};

#[test]
fn request_frame_ends_with_nul() {
    assert_eq!(
        encode_request_frame(b"GET / HTTP/1.1\r\n\r\n"),
        b"GET / HTTP/1.1\r\n\r\n\0".to_vec()
    );
    assert_eq!(encode_request_frame(b""), vec![0u8]);
}

#[test]
fn response_frame_has_decimal_length() {
    assert_eq!(encode_response_frame(b"hello world!"), b"12\0hello world!".to_vec());
    assert_eq!(encode_response_frame(b""), b"0\0".to_vec());
    assert_eq!(encode_response_frame(b"\0\0"), b"2\0\0\0".to_vec());
}

#[test]
fn push_decimal_writes_shortest_form() {
    let mut out = b"n=".to_vec();
    push_decimal(&mut out, 0);
    push_decimal(&mut out, 9);
    push_decimal(&mut out, 10);
    push_decimal(&mut out, 4096);
    assert_eq!(out, b"n=09104096".to_vec());
    let mut max = Vec::new();
    push_decimal(&mut max, usize::MAX);
    assert_eq!(max, format!("{}", usize::MAX).into_bytes());
}

#[test]
fn find_nul_gives_first_or_length() {
    assert_eq!(find_nul(b""), 0);
    assert_eq!(find_nul(b"abc"), 3);
    assert_eq!(find_nul(b"ab\0c\0"), 2);
    assert_eq!(find_nul(b"\0"), 0);
}

#[test]
fn parse_length_reads_digits() {
    assert_eq!(parse_length(b"120", 1000), Ok(120));
    assert_eq!(parse_length(b"0", 0), Ok(0));
    assert_eq!(parse_length(b"+7", 1000), Ok(7));
    assert_eq!(parse_length(b"007", 1000), Ok(7));
    assert_eq!(parse_length(b"1000", 1000), Ok(1000));
}

#[test]
fn parse_length_refuses_what_is_not_a_number() {
    assert_eq!(parse_length(b"", 1000), Err(FrameError::BadLength));
    assert_eq!(parse_length(b"+", 1000), Err(FrameError::BadLength));
    assert_eq!(parse_length(b"12a", 1000), Err(FrameError::BadLength));
    assert_eq!(parse_length(b"-1", 1000), Err(FrameError::BadLength));
    assert_eq!(parse_length(b" 1", 1000), Err(FrameError::BadLength));
    assert_eq!(parse_length(b"++1", 1000), Err(FrameError::BadLength));
    assert_eq!(parse_length(b"1+", 1000), Err(FrameError::BadLength));
    assert_eq!(parse_length(b"\xff", 1000), Err(FrameError::BadLength));
    // Malformed wins over oversized.
    assert_eq!(parse_length(b"99999x", 10), Err(FrameError::BadLength));
}

#[test]
fn parse_length_refuses_what_is_over_the_cap() {
    assert_eq!(parse_length(b"1001", 1000), Err(FrameError::TooLong));
    assert_eq!(parse_length(b"1", 0), Err(FrameError::TooLong));
    assert_eq!(
        parse_length(b"99999999999999999999999999", usize::MAX),
        Err(FrameError::TooLong)
    );
    let max = format!("{}", usize::MAX).into_bytes();
    assert_eq!(parse_length(&max, usize::MAX), Ok(usize::MAX));
}

#[test]
fn take_delimited_splits_at_first_nul() {
    let mut rx = b"first\0second\0tail".to_vec();
    assert_eq!(take_delimited(&mut rx), FrameStatus::Ready(b"first".to_vec()));
    assert_eq!(rx, b"second\0tail".to_vec());
    assert_eq!(take_delimited(&mut rx), FrameStatus::Ready(b"second".to_vec()));
    assert_eq!(rx, b"tail".to_vec());
    assert_eq!(take_delimited(&mut rx), FrameStatus::Incomplete);
    assert_eq!(rx, b"tail".to_vec());
}

#[test]
fn take_delimited_on_empty_buffer_and_empty_frame() {
    let mut rx: Vec<u8> = Vec::new();
    assert_eq!(take_delimited(&mut rx), FrameStatus::Incomplete);
    let mut rx = vec![0u8];
    assert_eq!(take_delimited(&mut rx), FrameStatus::Ready(Vec::new()));
    assert!(rx.is_empty());
}

#[test]
fn take_prefixed_waits_for_the_whole_payload() {
    let mut rx = b"5".to_vec();
    assert_eq!(take_prefixed(&mut rx, 100), FrameStatus::Incomplete);
    rx.extend_from_slice(b"\0hel");
    assert_eq!(take_prefixed(&mut rx, 100), FrameStatus::Incomplete);
    assert_eq!(rx, b"5\0hel".to_vec());
    rx.extend_from_slice(b"lo7\0x");
    assert_eq!(take_prefixed(&mut rx, 100), FrameStatus::Ready(b"hello".to_vec()));
    assert_eq!(rx, b"7\0x".to_vec());
    assert_eq!(take_prefixed(&mut rx, 100), FrameStatus::Incomplete);
}

#[test]
fn take_prefixed_passes_binary_payloads() {
    let mut rx = b"4\0\0\x01\0\xff".to_vec();
    assert_eq!(take_prefixed(&mut rx, 4), FrameStatus::Ready(vec![0, 1, 0, 255]));
    assert!(rx.is_empty());
}

#[test]
fn take_prefixed_reports_malformed_prefixes() {
    let mut rx = b"five\0hello".to_vec();
    assert_eq!(take_prefixed(&mut rx, 100), FrameStatus::Malformed(FrameError::BadLength));
    assert_eq!(rx, b"five\0hello".to_vec());
    let mut rx = b"\0hello".to_vec();
    assert_eq!(take_prefixed(&mut rx, 100), FrameStatus::Malformed(FrameError::BadLength));
    let mut rx = b"101\0".to_vec();
    assert_eq!(take_prefixed(&mut rx, 100), FrameStatus::Malformed(FrameError::TooLong));
    assert_eq!(rx, b"101\0".to_vec());
}

#[test]
fn response_frame_round_trip_on_concrete_bytes() {
    let payload = b"HTTP/1.1 200 OK\r\n\r\n\0binary\0".to_vec();
    let mut rx = encode_response_frame(&payload);
    rx.extend_from_slice(b"next");
    assert_eq!(take_prefixed(&mut rx, 1 << 20), FrameStatus::Ready(payload));
    assert_eq!(rx, b"next".to_vec());
}

#[test]
fn request_frame_round_trip_on_concrete_bytes() {
    let text = b"POST /a HTTP/1.1\r\nHost: x\r\n\r\nbody".to_vec();
    let mut rx = encode_request_frame(&text);
    rx.extend_from_slice(b"more");
    assert_eq!(take_delimited(&mut rx), FrameStatus::Ready(text));
    assert_eq!(rx, b"more".to_vec());
}

#[test]
fn request_text_with_nul_is_cut_short() {
    // The documented limit of the delimiter framing.
    let mut rx = encode_request_frame(b"ab\0cd");
    assert_eq!(take_delimited(&mut rx), FrameStatus::Ready(b"ab".to_vec()));
    assert_eq!(rx, b"cd\0".to_vec());
}
