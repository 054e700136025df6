use litespeed_ide::framing::{end_of_stream, frame, next_frame, Frame, FramingError};

#[test]
fn frame_writes_header_then_body() {
    let out = frame(b"{}");
    assert_eq!(out, b"Content-Length: 2\r\n\r\n{}".to_vec());
    let big = vec![b'x'; 1234];
    let out = frame(&big);
    assert!(out.starts_with(b"Content-Length: 1234\r\n\r\n"));
    assert_eq!(out.len(), 24 + 1234);
}

#[test]
fn next_frame_reads_a_framed_body() {
    let out = frame(b"{\"id\":1}");
    match next_frame(&out) {
        Frame::Complete { body_start, body_len } => {
            assert_eq!(&out[body_start..body_start + body_len], b"{\"id\":1}");
        }
        other => panic!("unexpected {:?}", other),
    }
}

#[test]
fn other_headers_are_ignored() {
    let buf = b"Content-Type: application/json\r\nContent-Length:  3\r\n\r\nabcNEXT";
    assert_eq!(next_frame(buf), Frame::Complete { body_start: 54, body_len: 3 });
}

#[test]
fn partial_input_needs_more() {
    assert_eq!(next_frame(b""), Frame::NeedMore);
    assert_eq!(next_frame(b"Content-Length: 5\r\n"), Frame::NeedMore);
    assert_eq!(next_frame(b"Content-Length: 5\r\n\r\nab"), Frame::NeedMore);
}

#[test]
fn malformed_headers_are_errors() {
    assert_eq!(next_frame(b"garbage\r\n\r\n"), Frame::Invalid(FramingError::MalformedHeader));
    assert_eq!(next_frame(b"Content-Length: -1\r\n\r\n"), Frame::Invalid(FramingError::BadLength));
    assert_eq!(next_frame(b"Content-Length: \r\n\r\n"), Frame::Invalid(FramingError::BadLength));
    assert_eq!(
        next_frame(b"Content-Length: 99999999999999999999999\r\n\r\n"),
        Frame::Invalid(FramingError::BadLength)
    );
    assert_eq!(next_frame(b"X-Other: 1\r\n\r\n"), Frame::Invalid(FramingError::MissingLength));
}

#[test]
fn stream_end_inside_a_message_is_truncation() {
    assert_eq!(end_of_stream(b""), Ok(()));
    assert_eq!(end_of_stream(b"Content-Len"), Err(FramingError::Truncated));
}
