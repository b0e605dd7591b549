use amulet_core::framing::{Frame, FrameError, encode_frame, decode_frame};

#[test]
fn test_frame_round_trip_preserves_reserved() {
    let frame = Frame { body: vec![1, 2, 3, 4], reserved: vec![0xDE, 0xAD, 0xBE] };
    let encoded = encode_frame(&frame);
    let decoded = decode_frame(&encoded).expect("decoding an encoded frame failed");
    assert_eq!(decoded.body, vec![1, 2, 3, 4]);
    assert_eq!(decoded.reserved, vec![0xDE, 0xAD, 0xBE], "reserved bytes must round-trip bit-exact");
    assert_eq!(decoded, frame);

    // Re-encoding reproduces the original bytes exactly.
    assert_eq!(encode_frame(&decoded), encoded);
}

#[test]
fn test_frame_round_trip_empty() {
    let frame = Frame { body: Vec::new(), reserved: Vec::new() };
    let encoded = encode_frame(&frame);
    assert_eq!(encoded, vec![0, 0, 0, 0, 0, 0, 0, 0]);
    let decoded = decode_frame(&encoded).unwrap();
    assert_eq!(decoded, frame);
}

#[test]
fn test_frame_exact_layout() {
    let frame = Frame { body: vec![9], reserved: vec![7, 8] };
    let encoded = encode_frame(&frame);
    assert_eq!(encoded, vec![1, 0, 0, 0, 9, 2, 0, 0, 0, 7, 8]);
}

#[test]
fn test_frame_decode_truncated() {
    assert_eq!(decode_frame(&[]), Err(FrameError::Truncated));
    assert_eq!(decode_frame(&[1, 0, 0]), Err(FrameError::Truncated));
    // Declared body length 5 with no body bytes.
    assert_eq!(decode_frame(&[5, 0, 0, 0]), Err(FrameError::Truncated));
    // Declared reserved length 2 with only one reserved byte.
    assert_eq!(decode_frame(&[1, 0, 0, 0, 9, 2, 0, 0, 0, 7]), Err(FrameError::Truncated));
}

#[test]
fn test_frame_decode_trailing_bytes() {
    // One byte beyond the declared lengths.
    assert_eq!(
        decode_frame(&[1, 0, 0, 0, 9, 2, 0, 0, 0, 7, 8, 99]),
        Err(FrameError::TrailingBytes)
    );
}
