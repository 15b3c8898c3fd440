use salix::envelope::{
    decode_envelope, decode_registration, encode_envelope, encode_registration, Envelope,
    MessageRequest, RegistrationRequest,
};

fn sample() -> RegistrationRequest {
    RegistrationRequest {
        agent_id: b"ab".to_vec(),
        hostname: b"h".to_vec(),
        version: b"1".to_vec(),
        timestamp: 300,
    }
}

#[test]
fn registration_encodes_as_protobuf_fields() {
    let expected = vec![
        0x0a, 0x02, b'a', b'b', 0x12, 0x01, b'h', 0x1a, 0x01, b'1', 0x20, 0xac, 0x02,
    ];
    assert_eq!(encode_registration(&sample()), expected);
    let mut env = vec![0x0a, 0x0d];
    env.extend_from_slice(&expected);
    assert_eq!(encode_envelope(&Envelope::Registration(sample())), env);
}

#[test]
fn message_request_encodes_as_second_variant() {
    let m = Envelope::Message(MessageRequest { body: vec![5, 6] });
    assert_eq!(encode_envelope(&m), vec![0x12, 0x04, 0x0a, 0x02, 5, 6]);
}

#[test]
fn registration_round_trip() {
    let bytes = encode_envelope(&Envelope::Registration(sample()));
    match decode_envelope(&bytes) {
        Some(Envelope::Registration(r)) => {
            assert_eq!(r.agent_id, b"ab".to_vec());
            assert_eq!(r.hostname, b"h".to_vec());
            assert_eq!(r.version, b"1".to_vec());
            assert_eq!(r.timestamp, 300);
        }
        other => panic!("unexpected {:?}", other),
    }
}

#[test]
fn large_timestamp_round_trip() {
    let mut r = sample();
    r.timestamp = u64::MAX;
    let bytes = encode_registration(&r);
    assert_eq!(decode_registration(&bytes).unwrap().timestamp, u64::MAX);
}

#[test]
fn message_round_trip() {
    let bytes = encode_envelope(&Envelope::Message(MessageRequest { body: vec![1, 2, 3] }));
    match decode_envelope(&bytes) {
        Some(Envelope::Message(m)) => assert_eq!(m.body, vec![1, 2, 3]),
        other => panic!("unexpected {:?}", other),
    }
}

#[test]
fn empty_payload_is_unrecognized_envelope() {
    assert_eq!(encode_envelope(&Envelope::Unrecognized), Vec::<u8>::new());
    assert!(matches!(decode_envelope(&[]), Some(Envelope::Unrecognized)));
}

#[test]
fn unknown_variant_is_skipped() {
    // field 7, length-delimited, two bytes
    assert!(matches!(decode_envelope(&[0x3a, 0x02, 1, 2]), Some(Envelope::Unrecognized)));
}

#[test]
fn absent_fields_take_defaults() {
    // a registration holding only a hostname
    match decode_envelope(&[0x0a, 0x03, 0x12, 0x01, b'x']) {
        Some(Envelope::Registration(r)) => {
            assert!(r.agent_id.is_empty());
            assert_eq!(r.hostname, b"x".to_vec());
            assert_eq!(r.timestamp, 0);
        }
        other => panic!("unexpected {:?}", other),
    }
}

#[test]
fn malformed_payload_is_refused() {
    // length runs past the end
    assert!(decode_envelope(&[0x0a, 0x05, 1]).is_none());
    // unterminated varint key
    assert!(decode_envelope(&[0x80]).is_none());
    // wire type 7 does not exist
    assert!(decode_envelope(&[0x0f, 0x00]).is_none());
    // field number 0 does not exist
    assert!(decode_envelope(&[0x02, 0x00]).is_none());
    // the registration inside is malformed
    assert!(decode_envelope(&[0x0a, 0x02, 0x0a, 0x09]).is_none());
}
