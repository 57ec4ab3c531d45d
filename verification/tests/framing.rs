use magazine_core::framing::{
    canonical_json, frame_bytes, frame_payload, read_frame, write_frame, FrameCursor, FrameError, MAX_FRAME,
};
use magazine_core::json::Json;

#[test]
fn round_trip() {
    let mut buf = Vec::new();
    write_frame(&mut buf, "{\"a\":1}").unwrap();
    let mut cur = FrameCursor::new(buf);
    assert_eq!(read_frame(&mut cur).unwrap(), "{\"a\":1}");
    assert!(matches!(read_frame(&mut cur), Err(FrameError::Eof)));
}

#[test]
fn oversized_length_rejected_on_read() {
    let mut bytes = (MAX_FRAME as u32 + 1).to_be_bytes().to_vec();
    bytes.push(b'x');
    let mut cur = FrameCursor::new(bytes);
    assert!(matches!(read_frame(&mut cur), Err(FrameError::TooLarge(_))));
}

#[test]
fn partial_length_prefix_is_truncated_not_eof() {
    // 2 of 4 length bytes, then EOF.
    let mut cur = FrameCursor::new(vec![0u8, 0u8]);
    assert!(matches!(read_frame(&mut cur), Err(FrameError::Truncated)));
}

#[test]
fn short_body_is_truncated() {
    // length says 5, only 2 body bytes follow.
    let mut bytes = 5u32.to_be_bytes().to_vec();
    bytes.extend_from_slice(b"ab");
    let mut cur = FrameCursor::new(bytes);
    assert!(matches!(read_frame(&mut cur), Err(FrameError::Truncated)));
}

#[test]
fn header_without_body_is_truncated_not_eof() {
    let bytes = 3u32.to_be_bytes().to_vec();
    let mut cur = FrameCursor::new(bytes);
    assert!(matches!(read_frame(&mut cur), Err(FrameError::Truncated)));
    assert_eq!(cur.remaining(), 0);
}

#[test]
fn two_frames_read_back_in_order() {
    let mut buf = Vec::new();
    write_frame(&mut buf, "first").unwrap();
    write_frame(&mut buf, "日本語").unwrap();
    write_frame(&mut buf, "").unwrap();
    let mut cur = FrameCursor::new(buf);
    assert_eq!(read_frame(&mut cur).unwrap(), "first");
    assert_eq!(read_frame(&mut cur).unwrap(), "日本語");
    assert_eq!(read_frame(&mut cur).unwrap(), "");
    assert!(matches!(read_frame(&mut cur), Err(FrameError::Eof)));
}

#[test]
fn frame_is_big_endian_length_then_payload() {
    let frame = frame_payload("{\"a\":1}").unwrap();
    assert_eq!(&frame[..4], &[0, 0, 0, 7]);
    assert_eq!(&frame[4..], b"{\"a\":1}");
}

#[test]
fn invalid_utf8_body_is_rejected_and_consumed() {
    let mut bytes = 2u32.to_be_bytes().to_vec();
    bytes.extend_from_slice(&[0xff, 0xfe]);
    bytes.extend_from_slice(&frame_payload("ok").unwrap());
    let mut cur = FrameCursor::new(bytes);
    assert!(matches!(read_frame(&mut cur), Err(FrameError::Utf8)));
    assert_eq!(read_frame(&mut cur).unwrap(), "ok");
}

#[test]
fn oversized_payload_rejected_on_write() {
    let payload = "a".repeat(MAX_FRAME + 1);
    let mut buf = vec![1u8];
    assert!(matches!(write_frame(&mut buf, &payload), Err(FrameError::TooLarge(n)) if n == MAX_FRAME + 1));
    assert_eq!(buf, vec![1u8]);
}

fn obj(members: Vec<(&str, Json)>) -> Json {
    Json::Object(members.into_iter().map(|(k, v)| (k.to_string(), v)).collect())
}

#[test]
fn canonical_sorts_keys_no_whitespace() {
    let v = obj(vec![("b", Json::PosInt(1)), ("a", obj(vec![("d", Json::PosInt(2)), ("c", Json::PosInt(3))]))]);
    assert_eq!(canonical_json(&v), "{\"a\":{\"c\":3,\"d\":2},\"b\":1}");
}

#[test]
fn canonical_json_sorts_objects_inside_arrays_and_keeps_scalars() {
    let v = Json::Array(vec![
        obj(vec![("z", Json::Null), ("y", Json::Bool(true))]),
        Json::NegInt(-7),
        Json::Float("1.5".to_string()),
        Json::String("q\"x".to_string()),
    ]);
    assert_eq!(canonical_json(&v), "[{\"y\":true,\"z\":null},-7,1.5,\"q\\\"x\"]");
}

#[test]
fn frame_bytes_prefixes_the_canonical_payload() {
    let v = obj(vec![("b", Json::PosInt(1)), ("a", Json::String("x".to_string()))]);
    let bytes = frame_bytes(&v).unwrap();
    let payload = "{\"a\":\"x\",\"b\":1}";
    assert_eq!(&bytes[..4], &(payload.len() as u32).to_be_bytes());
    assert_eq!(&bytes[4..], payload.as_bytes());
    let mut cur = FrameCursor::new(bytes);
    assert_eq!(read_frame(&mut cur).unwrap(), payload);
}
