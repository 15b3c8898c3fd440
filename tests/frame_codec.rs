use salix::frame::{decode_frame, encode_frame, read_length_prefix, FrameError, MAX_FRAME_LEN};

#[test]
fn encode_frame_prefixes_big_endian_length() {
    assert_eq!(encode_frame(&[1, 2, 3]).unwrap(), vec![0, 0, 0, 3, 1, 2, 3]);
    let payload = vec![7u8; 300];
    let framed = encode_frame(&payload).unwrap();
    assert_eq!(&framed[..4], &[0, 0, 1, 0x2c]);
    assert_eq!(&framed[4..], &payload[..]);
}

#[test]
fn empty_payload_frames_and_reads_back() {
    let framed = encode_frame(&[]).unwrap();
    assert_eq!(framed, vec![0, 0, 0, 0]);
    assert_eq!(decode_frame(&framed).unwrap(), Vec::<u8>::new());
}

#[test]
fn frame_round_trip_ignores_trailing_bytes() {
    let payload = vec![9u8, 8, 7, 6, 5];
    let mut framed = encode_frame(&payload).unwrap();
    framed.extend_from_slice(&[1, 1, 1]);
    assert_eq!(decode_frame(&framed).unwrap(), payload);
}

#[test]
fn oversized_prefix_is_refused_without_payload() {
    // 10_000_001 = 0x00989681
    assert_eq!(decode_frame(&[0x00, 0x98, 0x96, 0x81]), Err(FrameError::MessageTooLarge));
    assert_eq!(decode_frame(&[0xff, 0xff, 0xff, 0xff, 1, 2]), Err(FrameError::MessageTooLarge));
    assert_eq!(read_length_prefix(&[0x00, 0x98, 0x96, 0x81]), Err(FrameError::MessageTooLarge));
}

#[test]
fn largest_prefix_is_accepted() {
    // 10_000_000 = 0x00989680
    assert_eq!(read_length_prefix(&[0x00, 0x98, 0x96, 0x80]), Ok(MAX_FRAME_LEN as usize));
    assert_eq!(decode_frame(&[0x00, 0x98, 0x96, 0x80, 1]), Err(FrameError::UnexpectedEof));
}

#[test]
fn truncated_payload_is_unexpected_eof() {
    assert_eq!(decode_frame(&[0, 0, 0, 5, 1, 2, 3]), Err(FrameError::UnexpectedEof));
}

#[test]
fn truncated_prefix_is_unexpected_eof() {
    assert_eq!(decode_frame(&[]), Err(FrameError::UnexpectedEof));
    assert_eq!(decode_frame(&[0, 0, 1]), Err(FrameError::UnexpectedEof));
}

#[test]
fn encode_frame_refuses_oversized_payload() {
    let payload = vec![0u8; MAX_FRAME_LEN as usize + 1];
    assert_eq!(encode_frame(&payload), Err(FrameError::MessageTooLarge));
}
