//! The per-stream request/response exchange, and the decisions of the
//! connection and acceptor loops.
use vstd::prelude::*;
use crate::envelope::{
    decode_envelope, encode_envelope, envelope_bytes, envelope_decode, lemma_envelope_round_trip,
    Envelope, EnvelopeView,
};
use crate::frame::{
    decode_frame, encode_frame, frame_decode, frame_of, lemma_frame_round_trip, FrameError,
    MAX_FRAME_LEN,
};
use crate::registry::{registration_effect, uuid_value, AgentView, DispatchError, Registry};

verus! {

/// Why one stream's exchange failed. None of these ends the connection.
#[derive(Debug, Clone, Copy, PartialEq, Eq, Structural)]
pub enum StreamError {
    /// The request frame advertised more than the largest payload.
    MessageTooLarge,
    /// The stream ended before the request frame was complete.
    UnexpectedEof,
    /// The payload is not a well-formed envelope.
    DecodeError,
    /// A registration without a well-formed agent identifier.
    InvalidArgument,
}

pub open spec fn stream_error_of(e: FrameError) -> StreamError {
    match e {
        FrameError::MessageTooLarge => StreamError::MessageTooLarge,
        FrameError::UnexpectedEof => StreamError::UnexpectedEof,
    }
}

/// Maps a framing failure to the stream failure it causes.
pub fn from_frame_error(e: FrameError) -> (r: StreamError)
    ensures
        r == stream_error_of(e),
{
    match e {
        FrameError::MessageTooLarge => StreamError::MessageTooLarge,
        FrameError::UnexpectedEof => StreamError::UnexpectedEof,
    }
}

/// What an envelope does to the registry `reg`: the registry after it, or
/// the stream failure it causes (the registry is then untouched).
pub open spec fn envelope_effect(reg: Map<u128, AgentView>, e: EnvelopeView) -> Result<
    Map<u128, AgentView>,
    StreamError,
> {
    match e {
        EnvelopeView::Registration(req) => match registration_effect(
            reg,
            uuid_value(req.agent_id),
            req,
        ) {
            Some(m) => Ok(m),
            None => Err(StreamError::InvalidArgument),
        },
        _ => Ok(reg),
    }
}

/// What a request payload does to the registry `reg`.
pub open spec fn request_effect(reg: Map<u128, AgentView>, payload: Seq<u8>) -> Result<
    Map<u128, AgentView>,
    StreamError,
> {
    match envelope_decode(payload) {
        None => Err(StreamError::DecodeError),
        Some(e) => envelope_effect(reg, e),
    }
}

/// Reads one request from the bytes a stream delivered: a frame, then the
/// envelope in its payload.
pub fn read_protobuf_message(received: &[u8]) -> (r: Result<Envelope, StreamError>)
    ensures
        match frame_decode(received@) {
            Err(e) => r == Err::<Envelope, StreamError>(stream_error_of(e)),
            Ok(p) => match envelope_decode(p) {
                Some(env) => r matches Ok(x) && x@ == env,
                None => r == Err::<Envelope, StreamError>(StreamError::DecodeError),
            },
        },
{
    match decode_frame(received) {
        Err(e) => Err(from_frame_error(e)),
        Ok(payload) => match decode_envelope(payload.as_slice()) {
            Some(env) => Ok(env),
            None => Err(StreamError::DecodeError),
        },
    }
}

/// The frame that carries envelope `e`; refused where its encoding is
/// larger than a frame may carry.
pub fn write_protobuf_message(e: &Envelope) -> (r: Result<Vec<u8>, FrameError>)
    ensures
        match r {
            Ok(f) => envelope_bytes(e@).len() <= MAX_FRAME_LEN && f@ == frame_of(
                envelope_bytes(e@),
            ),
            Err(err) => err == FrameError::MessageTooLarge && envelope_bytes(e@).len()
                > MAX_FRAME_LEN,
        },
{
    let bytes = encode_envelope(e);
    encode_frame(bytes.as_slice())
}

/// Dispatches one decoded request and frames the reply, if it asks for one.
pub fn respond(reg: &mut Registry, e: Envelope) -> (r: Result<Option<Vec<u8>>, StreamError>)
    ensures
        match envelope_effect(old(reg)@, e@) {
            Ok(m) => r is Ok && r.unwrap() is None && final(reg)@ == m,
            Err(err) => r == Err::<Option<Vec<u8>>, StreamError>(err) && final(reg)@ == old(
                reg,
            )@,
        },
{
    match reg.dispatch(e) {
        Ok(None) => Ok(None),
        Ok(Some(reply)) => match write_protobuf_message(&reply) {
            Ok(f) => Ok(Some(f)),
            Err(err) => Err(from_frame_error(err)),
        },
        Err(DispatchError::InvalidArgument) => Err(StreamError::InvalidArgument),
    }
}

/// Handles the payload of one request frame: decodes the envelope,
/// dispatches it and frames the reply, if the envelope asks for one.
pub fn handle_request(reg: &mut Registry, payload: &[u8]) -> (r: Result<
    Option<Vec<u8>>,
    StreamError,
>)
    ensures
        match request_effect(old(reg)@, payload@) {
            Ok(m) => r is Ok && r.unwrap() is None && final(reg)@ == m,
            Err(e) => r == Err::<Option<Vec<u8>>, StreamError>(e) && final(reg)@ == old(reg)@,
        },
{
    match decode_envelope(payload) {
        Some(e) => respond(reg, e),
        None => Err(StreamError::DecodeError),
    }
}

/// Handles a stream from the bytes it delivered before its sender closed
/// it: one request frame, then the exchange of `handle_request`.
pub fn handle_stream(reg: &mut Registry, received: &[u8]) -> (r: Result<
    Option<Vec<u8>>,
    StreamError,
>)
    ensures
        match frame_decode(received@) {
            Err(e) => r == Err::<Option<Vec<u8>>, StreamError>(stream_error_of(e))
                && final(reg)@ == old(reg)@,
            Ok(p) => match request_effect(old(reg)@, p) {
                Ok(m) => r is Ok && r.unwrap() is None && final(reg)@ == m,
                Err(e) => r == Err::<Option<Vec<u8>>, StreamError>(e) && final(reg)@
                    == old(reg)@,
            },
        },
{
    match read_protobuf_message(received) {
        Err(e) => Err(e),
        Ok(env) => respond(reg, env),
    }
}

/// Where a connection's loop stands.
#[derive(Debug, Clone, Copy, PartialEq, Eq, Structural)]
pub enum ConnectionState {
    AwaitingStream,
    ProcessingStream,
    Closed,
}

/// What happened on a connection.
#[derive(Debug, Clone, Copy, PartialEq, Eq, Structural)]
pub enum ConnectionEvent {
    /// The peer opened a bidirectional stream.
    StreamAccepted,
    /// The stream's exchange completed.
    StreamFinished,
    /// The stream's exchange failed; only that stream is dropped.
    StreamFailed(StreamError),
    /// The connection itself failed or was closed by the peer.
    ConnectionLost,
}

/// What the connection's loop does next.
#[derive(Debug, Clone, Copy, PartialEq, Eq, Structural)]
pub enum ConnectionAction {
    AcceptStream,
    ProcessStream,
    Close,
}

pub open spec fn connection_step(s: ConnectionState, e: ConnectionEvent) -> (
    ConnectionState,
    ConnectionAction,
) {
    if s == ConnectionState::Closed {
        (ConnectionState::Closed, ConnectionAction::Close)
    } else {
        match e {
            ConnectionEvent::StreamAccepted => (
                ConnectionState::ProcessingStream,
                ConnectionAction::ProcessStream,
            ),
            ConnectionEvent::StreamFinished => (
                ConnectionState::AwaitingStream,
                ConnectionAction::AcceptStream,
            ),
            ConnectionEvent::StreamFailed(_) => (
                ConnectionState::AwaitingStream,
                ConnectionAction::AcceptStream,
            ),
            ConnectionEvent::ConnectionLost => (ConnectionState::Closed, ConnectionAction::Close),
        }
    }
}

/// The connection loop's next state and action. A failed stream is
/// dropped and the loop goes on accepting streams; only the loss of the
/// connection closes it, for good.
pub fn on_connection_event(s: ConnectionState, e: ConnectionEvent) -> (r: (
    ConnectionState,
    ConnectionAction,
))
    ensures
        r == connection_step(s, e),
{
    if s == ConnectionState::Closed {
        return (ConnectionState::Closed, ConnectionAction::Close);
    }
    match e {
        ConnectionEvent::StreamAccepted => (
            ConnectionState::ProcessingStream,
            ConnectionAction::ProcessStream,
        ),
        ConnectionEvent::StreamFinished => (
            ConnectionState::AwaitingStream,
            ConnectionAction::AcceptStream,
        ),
        ConnectionEvent::StreamFailed(_) => (
            ConnectionState::AwaitingStream,
            ConnectionAction::AcceptStream,
        ),
        ConnectionEvent::ConnectionLost => (ConnectionState::Closed, ConnectionAction::Close),
    }
}

/// What happened at the endpoint.
#[derive(Debug, Clone, Copy, PartialEq, Eq, Structural)]
pub enum AcceptorEvent {
    /// An incoming connection completed its handshake.
    Connected,
    /// An incoming connection failed its handshake.
    HandshakeFailed,
    /// The endpoint was closed.
    EndpointClosed,
}

/// What the acceptor's loop does next.
#[derive(Debug, Clone, Copy, PartialEq, Eq, Structural)]
pub enum AcceptorAction {
    /// Run the connection in a task of its own, then accept the next one.
    SpawnConnection,
    /// Drop the connection and accept the next one.
    AcceptNext,
    Stop,
}

/// The acceptor's next action: a failed handshake never stops the loop;
/// only the endpoint's closing does.
pub fn on_acceptor_event(e: AcceptorEvent) -> (r: AcceptorAction)
    ensures
        r == match e {
            AcceptorEvent::Connected => AcceptorAction::SpawnConnection,
            AcceptorEvent::HandshakeFailed => AcceptorAction::AcceptNext,
            AcceptorEvent::EndpointClosed => AcceptorAction::Stop,
        },
{
    match e {
        AcceptorEvent::Connected => AcceptorAction::SpawnConnection,
        AcceptorEvent::HandshakeFailed => AcceptorAction::AcceptNext,
        AcceptorEvent::EndpointClosed => AcceptorAction::Stop,
    }
}

/// An envelope, encoded and framed, reads back as itself from the frame.
pub proof fn lemma_framed_envelope_round_trip(e: EnvelopeView, rest: Seq<u8>)
    requires
        envelope_bytes(e).len() <= MAX_FRAME_LEN,
    ensures
        frame_decode(frame_of(envelope_bytes(e)) + rest) == Ok::<Seq<u8>, FrameError>(
            envelope_bytes(e),
        ),
        envelope_decode(envelope_bytes(e)) == Some(e),
{
    lemma_frame_round_trip(envelope_bytes(e), rest);
    lemma_envelope_round_trip(e);
}

/// A failed stream leaves its connection open and accepting streams.
pub proof fn lemma_stream_failure_keeps_connection(s: ConnectionState, e: StreamError)
    requires
        s != ConnectionState::Closed,
    ensures
        connection_step(s, ConnectionEvent::StreamFailed(e)) == (
            ConnectionState::AwaitingStream,
            ConnectionAction::AcceptStream,
        ),
{
}

} // verus!
