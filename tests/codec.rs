use sg::codec::{decode_frame, encode_frame, frame_body_text, scan_header_line, FrameReader, FramingError, HeaderStep};
use sg::decimal::{decimal_bytes, parse_digits, parse_number, push_decimal};

#[test]
fn encode_frame_exact_bytes() {
    assert_eq!(encode_frame("hello"), b"Content-Length: 5\r\n\r\nhello".to_vec());
}

#[test]
fn encode_frame_counts_utf8_bytes() {
    assert_eq!(encode_frame("h\u{e9}"), b"Content-Length: 3\r\n\r\nh\xc3\xa9".to_vec());
}

#[test]
fn decode_round_trip_with_following_bytes() {
    let text = r#"{"jsonrpc":"2.0","id":1,"result":null}"#;
    let mut wire = encode_frame(text);
    let len = wire.len();
    wire.extend_from_slice(b"Content-Length: 2\r\n\r\n{}");
    let frame = decode_frame(&wire).unwrap().unwrap();
    assert_eq!(frame.body, text);
    assert_eq!(frame.consumed, len);
    let second = decode_frame(&wire[len..]).unwrap().unwrap();
    assert_eq!(second.body, "{}");
}

#[test]
fn decode_empty_input_is_end_of_stream() {
    assert!(decode_frame(b"").unwrap().is_none());
}

#[test]
fn decode_ignores_unknown_headers() {
    let frame = decode_frame(b"Content-Type: json\r\nContent-Length: 2\r\nX-Other: 1\r\n\r\nok").unwrap().unwrap();
    assert_eq!(frame.body, "ok");
    assert_eq!(frame.consumed, 55);
}

#[test]
fn decode_accepts_signed_length() {
    let frame = decode_frame(b"Content-Length: +2\r\n\r\nok").unwrap().unwrap();
    assert_eq!(frame.body, "ok");
}

#[test]
fn decode_rejects_header_without_crlf() {
    assert_eq!(decode_frame(b"Content-Length: 5\nhello").err(), Some(FramingError::MissingCrlf));
}

#[test]
fn decode_rejects_header_without_separator() {
    assert_eq!(decode_frame(b"Content-Length 5\r\n\r\nhello").err(), Some(FramingError::MissingSeparator));
}

#[test]
fn decode_rejects_missing_content_length() {
    assert_eq!(decode_frame(b"X-Other: 1\r\n\r\nhello").err(), Some(FramingError::MissingContentLength));
}

#[test]
fn decode_rejects_short_body() {
    assert_eq!(decode_frame(b"Content-Length: 10\r\n\r\nabc").err(), Some(FramingError::Truncated));
}

#[test]
fn decode_rejects_end_inside_headers() {
    assert_eq!(decode_frame(b"Content-Length: 3\r\n").err(), Some(FramingError::Truncated));
}

#[test]
fn decode_rejects_bad_length() {
    assert_eq!(decode_frame(b"Content-Length: abc\r\n\r\n").err(), Some(FramingError::InvalidContentLength));
    assert_eq!(
        decode_frame(b"Content-Length: 99999999999999999999999\r\n\r\n").err(),
        Some(FramingError::InvalidContentLength)
    );
}

#[test]
fn decode_rejects_invalid_utf8() {
    assert_eq!(decode_frame(b"Content-Length: 2\r\n\r\n\xff\xfe").err(), Some(FramingError::InvalidUtf8));
}

#[test]
fn scan_header_line_steps() {
    assert_eq!(scan_header_line(b"Content-Length: 12\r\n", None), Ok(HeaderStep::Next(Some(12))));
    assert_eq!(scan_header_line(b"Other: x\r\n", Some(4)), Ok(HeaderStep::Next(Some(4))));
    assert_eq!(scan_header_line(b"\r\n", Some(4)), Ok(HeaderStep::Body(4)));
    assert_eq!(scan_header_line(b"\r\n", None), Err(FramingError::MissingContentLength));
    assert_eq!(scan_header_line(b"Other\r\n", None), Err(FramingError::MissingSeparator));
    assert_eq!(scan_header_line(b"Other: x", None), Err(FramingError::MissingCrlf));
}

#[test]
fn body_text_checks_utf8() {
    assert_eq!(frame_body_text(vec![104, 105]), Ok("hi".to_string()));
    assert_eq!(frame_body_text(vec![0xc3]), Err(FramingError::InvalidUtf8));
}

#[test]
fn decimal_numerals() {
    assert_eq!(decimal_bytes(0), b"0".to_vec());
    assert_eq!(decimal_bytes(1907), b"1907".to_vec());
    assert_eq!(parse_digits(b"0042"), Some(42));
    assert_eq!(parse_digits(b"+2"), Some(2));
    assert_eq!(parse_digits(b"+"), None);
    assert_eq!(parse_digits(b"-2"), None);
    assert_eq!(parse_digits(b""), None);
    assert_eq!(parse_digits(b"4a"), None);
    assert_eq!(parse_digits(b"18446744073709551615"), Some(usize::MAX));
    assert_eq!(parse_digits(b"18446744073709551616"), None);
    assert_eq!(parse_number("137"), Some(137));
    assert_eq!(parse_number("-1"), None);
    let mut s = String::from("L");
    push_decimal(&mut s, 29);
    assert_eq!(s, "L29");
}

#[test]
fn frame_reader_tracks_headers() {
    let mut r = FrameReader::new();
    assert_eq!(r.on_end_of_input(), None);
    assert_eq!(r.on_line(b"Content-Length: 7\r\n"), Ok(HeaderStep::Next(Some(7))));
    assert_eq!(r.on_end_of_input(), Some(FramingError::Truncated));
    assert_eq!(r.on_line(b"X: y\r\n"), Ok(HeaderStep::Next(Some(7))));
    assert_eq!(r.on_line(b"\r\n"), Ok(HeaderStep::Body(7)));
}
