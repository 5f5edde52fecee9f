use lsp_runtime::framing::{FrameStep, FramingError, decode_frame, encode_frame, end_of_stream};

fn bytes(s: &str) -> Vec<u8> {
    s.as_bytes().to_vec()
}

#[test]
fn encode_produces_header_and_body() {
    let out = encode_frame(&bytes("{}"));
    assert_eq!(out, bytes("Content-Length: 2\r\n\r\n{}"));
}

#[test]
fn encode_empty_body() {
    let out = encode_frame(&bytes(""));
    assert_eq!(out, bytes("Content-Length: 0\r\n\r\n"));
}

#[test]
fn encode_multi_digit_length() {
    let body = bytes("0123456789012");
    let out = encode_frame(&body);
    assert_eq!(out, bytes("Content-Length: 13\r\n\r\n0123456789012"));
}

#[test]
fn decode_complete_frame() {
    let buf = bytes("Content-Length: 5\r\n\r\nhello");
    match decode_frame(&buf) {
        FrameStep::Frame { consumed, body } => {
            assert_eq!(consumed, 26);
            assert_eq!(body, bytes("hello"));
        }
        other => panic!("expected a frame, got {:?}", other),
    }
}

#[test]
fn decode_frame_with_extra_header() {
    let buf = bytes("Content-Type: application/json\r\nContent-Length: 2\r\n\r\n{}");
    match decode_frame(&buf) {
        FrameStep::Frame { consumed, body } => {
            assert_eq!(consumed, buf.len());
            assert_eq!(body, bytes("{}"));
        }
        other => panic!("expected a frame, got {:?}", other),
    }
}

#[test]
fn decode_round_trips_encode() {
    let body = bytes("{\"id\":1,\"method\":\"initialize\"}");
    let framed = encode_frame(&body);
    match decode_frame(&framed) {
        FrameStep::Frame { consumed, body: out } => {
            assert_eq!(consumed, framed.len());
            assert_eq!(out, body);
        }
        other => panic!("expected a frame, got {:?}", other),
    }
}

#[test]
fn decode_waits_for_header() {
    let buf = bytes("Content-Length: 5\r\n");
    assert!(matches!(decode_frame(&buf), FrameStep::Wait));
}

#[test]
fn decode_waits_for_body() {
    let buf = bytes("Content-Length: 5\r\n\r\nhe");
    assert!(matches!(decode_frame(&buf), FrameStep::Wait));
}

#[test]
fn truncated_frame_at_stream_end_is_an_error() {
    // A header declaring 42 bytes, followed by fewer before the end.
    let buf = bytes("Content-Length: 42\r\n\r\nonly ten b");
    assert!(matches!(decode_frame(&buf), FrameStep::Wait));
    assert_eq!(end_of_stream(&buf), Some(FramingError::Truncated));
}

#[test]
fn clean_end_between_frames() {
    let buf: Vec<u8> = Vec::new();
    assert_eq!(end_of_stream(&buf), None);
}

#[test]
fn missing_length_is_an_error() {
    let buf = bytes("Content-Type: application/json\r\n\r\n{}");
    assert!(matches!(decode_frame(&buf), FrameStep::Fail(FramingError::MissingLength)));
}

#[test]
fn non_numeric_length_is_an_error() {
    let buf = bytes("Content-Length: abc\r\n\r\n{}");
    assert!(matches!(decode_frame(&buf), FrameStep::Fail(FramingError::BadLength)));
}

#[test]
fn oversized_length_is_an_error() {
    let buf = bytes("Content-Length: 1234567890\r\n\r\n{}");
    assert!(matches!(decode_frame(&buf), FrameStep::Fail(FramingError::BadLength)));
}

#[test]
fn header_line_without_colon_is_an_error() {
    let buf = bytes("NoColonHere\r\nContent-Length: 2\r\n\r\n{}");
    assert!(matches!(decode_frame(&buf), FrameStep::Fail(FramingError::MalformedHeader)));
}

#[test]
fn repeated_length_line_is_an_error() {
    let buf = bytes("Content-Length: 2\r\nContent-Length: 2\r\n\r\n{}");
    assert!(matches!(decode_frame(&buf), FrameStep::Fail(FramingError::MalformedHeader)));
}
