use bytes::{BufMut, BytesMut};
use serial_console::codec::{DecodeError, LineCodec};

#[test]
fn round_trip_single_line() {
    let mut codec = LineCodec;
    let mut buf = BytesMut::new();
    codec.encode("hello", &mut buf);
    assert_eq!(buf.as_ref(), b"hello\n");
    let frame = codec.decode(&mut buf).unwrap().unwrap();
    assert_eq!(frame, "hello\n");
    assert_eq!(buf.len(), 0);
}

#[test]
fn round_trip_multibyte_line() {
    let mut codec = LineCodec;
    let mut buf = BytesMut::new();
    let line = "caf\u{e9} \u{2603} \u{1f680}";
    codec.encode(line, &mut buf);
    let frame = codec.decode(&mut buf).unwrap().unwrap();
    assert_eq!(frame, format!("{}\n", line));
    assert_eq!(buf.len(), 0);
}

#[test]
fn incomplete_then_complete() {
    let mut codec = LineCodec;
    let mut buf = BytesMut::new();
    buf.put_slice(b"ab");
    assert_eq!(codec.decode(&mut buf), Ok(None));
    assert_eq!(buf.as_ref(), b"ab");
    buf.put_slice(b"c\n");
    assert_eq!(codec.decode(&mut buf), Ok(Some(String::from("abc\n"))));
    assert_eq!(buf.len(), 0);
}

#[test]
fn two_frames_in_one_buffer() {
    let mut codec = LineCodec;
    let mut buf = BytesMut::new();
    buf.put_slice(b"a\nb\n");
    assert_eq!(codec.decode(&mut buf), Ok(Some(String::from("a\n"))));
    assert_eq!(buf.as_ref(), b"b\n");
    assert_eq!(codec.decode(&mut buf), Ok(Some(String::from("b\n"))));
    assert_eq!(buf.len(), 0);
    assert_eq!(codec.decode(&mut buf), Ok(None));
}

#[test]
fn empty_line_is_a_frame() {
    let mut codec = LineCodec;
    let mut buf = BytesMut::new();
    buf.put_slice(b"\nrest");
    assert_eq!(codec.decode(&mut buf), Ok(Some(String::from("\n"))));
    assert_eq!(buf.as_ref(), b"rest");
}

#[test]
fn invalid_utf8_line_fails() {
    let mut codec = LineCodec;
    let mut buf = BytesMut::new();
    buf.put_slice(&[0xff, 0x0a]);
    assert_eq!(codec.decode(&mut buf), Err(DecodeError::InvalidEncoding));
    assert_eq!(buf.len(), 0);
}

#[test]
fn invalid_bytes_without_line_feed_stay_pending() {
    let mut codec = LineCodec;
    let mut buf = BytesMut::new();
    buf.put_slice(&[0xff, 0xfe]);
    assert_eq!(codec.decode(&mut buf), Ok(None));
    assert_eq!(buf.as_ref(), &[0xff, 0xfe][..]);
}

#[test]
fn truncated_multibyte_sequence_before_line_feed_fails() {
    let mut codec = LineCodec;
    let mut buf = BytesMut::new();
    // 0xc3 opens a two-byte sequence that the line feed cuts short.
    buf.put_slice(&[b'a', 0xc3, 0x0a]);
    assert_eq!(codec.decode(&mut buf), Err(DecodeError::InvalidEncoding));
}

#[test]
fn encode_appends_to_existing_bytes() {
    let mut codec = LineCodec;
    let mut buf = BytesMut::new();
    buf.put_slice(b"already");
    codec.encode("more", &mut buf);
    assert_eq!(buf.as_ref(), b"alreadymore\n");
}

#[test]
fn encode_performs_no_validation_of_content() {
    let mut codec = LineCodec;
    let mut buf = BytesMut::new();
    codec.encode("with\ninside", &mut buf);
    assert_eq!(buf.as_ref(), b"with\ninside\n");
    // The embedded terminator frames the first part on decode.
    assert_eq!(codec.decode(&mut buf), Ok(Some(String::from("with\n"))));
    assert_eq!(codec.decode(&mut buf), Ok(Some(String::from("inside\n"))));
}
