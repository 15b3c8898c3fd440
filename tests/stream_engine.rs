use salix::envelope::{encode_envelope, Envelope, RegistrationRequest};
use salix::frame::encode_frame;
use salix::registry::Registry;
use salix::stream::{
    handle_request, handle_stream, on_acceptor_event, read_protobuf_message, write_protobuf_message, on_connection_event, AcceptorAction,
    AcceptorEvent, ConnectionAction, ConnectionEvent, ConnectionState, StreamError,
};

fn framed_registration(id: &str) -> Vec<u8> {
    let env = Envelope::Registration(RegistrationRequest {
        agent_id: id.as_bytes().to_vec(),
        hostname: b"node".to_vec(),
        version: b"1".to_vec(),
        timestamp: 5,
    });
    encode_frame(&encode_envelope(&env)).unwrap()
}

#[test]
fn stream_with_registration_registers_agent() {
    let mut reg = Registry::new();
    let bytes = framed_registration("67e55044-10b1-426f-9247-bb680e5fe0c8");
    assert_eq!(handle_stream(&mut reg, &bytes), Ok(None));
    assert_eq!(reg.len(), 1);
}

#[test]
fn truncated_stream_fails_alone() {
    let mut reg = Registry::new();
    assert_eq!(handle_stream(&mut reg, &[0, 0, 0, 5, 1, 2, 3]), Err(StreamError::UnexpectedEof));
    let (state, action) =
        on_connection_event(ConnectionState::ProcessingStream, ConnectionEvent::StreamFailed(StreamError::UnexpectedEof));
    assert_eq!(state, ConnectionState::AwaitingStream);
    assert_eq!(action, ConnectionAction::AcceptStream);
    let bytes = framed_registration("67e55044-10b1-426f-9247-bb680e5fe0c8");
    assert_eq!(handle_stream(&mut reg, &bytes), Ok(None));
    assert_eq!(reg.len(), 1);
}

#[test]
fn oversized_stream_is_message_too_large() {
    let mut reg = Registry::new();
    assert_eq!(handle_stream(&mut reg, &[0xff, 0, 0, 0, 1]), Err(StreamError::MessageTooLarge));
    assert_eq!(reg.len(), 0);
}

#[test]
fn undecodable_payload_is_decode_error() {
    let mut reg = Registry::new();
    assert_eq!(handle_request(&mut reg, &[0x0a, 0x09, 1]), Err(StreamError::DecodeError));
    assert_eq!(handle_stream(&mut reg, &[0, 0, 0, 1, 0x80]), Err(StreamError::DecodeError));
}

#[test]
fn bad_identifier_is_invalid_argument() {
    let mut reg = Registry::new();
    assert_eq!(handle_stream(&mut reg, &framed_registration("")), Err(StreamError::InvalidArgument));
    assert_eq!(reg.len(), 0);
}

#[test]
fn connection_closes_only_when_lost() {
    assert_eq!(
        on_connection_event(ConnectionState::AwaitingStream, ConnectionEvent::StreamAccepted),
        (ConnectionState::ProcessingStream, ConnectionAction::ProcessStream)
    );
    assert_eq!(
        on_connection_event(ConnectionState::ProcessingStream, ConnectionEvent::StreamFinished),
        (ConnectionState::AwaitingStream, ConnectionAction::AcceptStream)
    );
    assert_eq!(
        on_connection_event(ConnectionState::AwaitingStream, ConnectionEvent::ConnectionLost),
        (ConnectionState::Closed, ConnectionAction::Close)
    );
    assert_eq!(
        on_connection_event(ConnectionState::Closed, ConnectionEvent::StreamAccepted),
        (ConnectionState::Closed, ConnectionAction::Close)
    );
}

#[test]
fn acceptor_survives_failed_handshake() {
    assert_eq!(on_acceptor_event(AcceptorEvent::HandshakeFailed), AcceptorAction::AcceptNext);
    assert_eq!(on_acceptor_event(AcceptorEvent::Connected), AcceptorAction::SpawnConnection);
    assert_eq!(on_acceptor_event(AcceptorEvent::EndpointClosed), AcceptorAction::Stop);
}

#[test]
fn written_message_reads_back() {
    let env = Envelope::Registration(RegistrationRequest {
        agent_id: b"id".to_vec(),
        hostname: b"host".to_vec(),
        version: b"2".to_vec(),
        timestamp: 1_700_000_000,
    });
    let frame = write_protobuf_message(&env).unwrap();
    assert_eq!(&frame[..4], &[0, 0, 0, (frame.len() - 4) as u8]);
    assert_eq!(read_protobuf_message(&frame), Ok(env));
}

#[test]
fn read_message_reports_each_failure() {
    assert_eq!(read_protobuf_message(&[0, 0, 0, 5, 1, 2, 3]), Err(StreamError::UnexpectedEof));
    assert_eq!(read_protobuf_message(&[0x01, 0, 0, 0]), Err(StreamError::MessageTooLarge));
    assert_eq!(read_protobuf_message(&[0, 0, 0, 1, 0x80]), Err(StreamError::DecodeError));
    assert_eq!(read_protobuf_message(&[0, 0, 0, 0]), Ok(Envelope::Unrecognized));
}
