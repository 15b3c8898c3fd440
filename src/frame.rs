use vstd::prelude::*;

verus! {

/// Largest payload, in bytes, that a frame may carry.
pub const MAX_FRAME_LEN: u32 = 10_000_000;

/// Why a frame could not be read or written.
#[derive(Debug, Clone, Copy, PartialEq, Eq, Structural)]
pub enum FrameError {
    /// The length prefix advertises more than `MAX_FRAME_LEN` bytes.
    MessageTooLarge,
    /// The stream ended before the prefix or the payload was complete.
    UnexpectedEof,
}

/// The four big-endian bytes of `n`.
pub open spec fn be_bytes(n: int) -> Seq<u8> {
    seq![
        (n / 0x1000000 % 0x100) as u8,
        (n / 0x10000 % 0x100) as u8,
        (n / 0x100 % 0x100) as u8,
        (n % 0x100) as u8,
    ]
}

/// The number that four big-endian bytes stand for.
pub open spec fn be_value(b: Seq<u8>) -> int {
    b[0] * 0x1000000 + b[1] * 0x10000 + b[2] * 0x100 + b[3]
}

/// A frame: the payload's length as four big-endian bytes, then the payload.
pub open spec fn frame_of(payload: Seq<u8>) -> Seq<u8> {
    be_bytes(payload.len() as int) + payload
}

/// What reading one frame from the bytes `b` gives: the payload, or the
/// reason it cannot be had. Bytes after the frame are not read.
pub open spec fn frame_decode(b: Seq<u8>) -> Result<Seq<u8>, FrameError> {
    if b.len() < 4 {
        Err(FrameError::UnexpectedEof)
    } else if be_value(b.take(4)) > MAX_FRAME_LEN {
        Err(FrameError::MessageTooLarge)
    } else if b.len() - 4 < be_value(b.take(4)) {
        Err(FrameError::UnexpectedEof)
    } else {
        Ok(b.subrange(4, 4 + be_value(b.take(4))))
    }
}

proof fn lemma_be_value_of_bytes(n: int)
    requires
        0 <= n < 0x1_0000_0000,
    ensures
        be_value(be_bytes(n)) == n,
{
    let b = be_bytes(n);
    assert(b[0] == n / 0x1000000 % 0x100);
    assert(b[1] == n / 0x10000 % 0x100);
    assert(b[2] == n / 0x100 % 0x100);
    assert(b[3] == n % 0x100);
}

/// Reads the payload length from a frame's four-byte prefix, refusing one
/// above `MAX_FRAME_LEN` before any payload is read.
pub fn read_length_prefix(header: &[u8]) -> (r: Result<usize, FrameError>)
    requires
        header@.len() == 4,
    ensures
        match r {
            Ok(n) => n == be_value(header@) && n <= MAX_FRAME_LEN,
            Err(e) => e == FrameError::MessageTooLarge && be_value(header@) > MAX_FRAME_LEN,
        },
{
    let n: u32 = (header[0] as u32) * 0x1000000 + (header[1] as u32) * 0x10000
        + (header[2] as u32) * 0x100 + (header[3] as u32);
    if n > MAX_FRAME_LEN {
        Err(FrameError::MessageTooLarge)
    } else {
        Ok(n as usize)
    }
}

/// Reads one frame from the start of `b` and returns a copy of its payload.
pub fn decode_frame(b: &[u8]) -> (r: Result<Vec<u8>, FrameError>)
    ensures
        match r {
            Ok(p) => frame_decode(b@) == Ok::<Seq<u8>, FrameError>(p@),
            Err(e) => frame_decode(b@) == Err::<Seq<u8>, FrameError>(e),
        },
{
    if b.len() < 4 {
        return Err(FrameError::UnexpectedEof);
    }
    let header = [b[0], b[1], b[2], b[3]];
    assert(header@ == b@.take(4));
    let n = match read_length_prefix(&header) {
        Ok(n) => n,
        Err(e) => return Err(e),
    };
    if b.len() - 4 < n {
        return Err(FrameError::UnexpectedEof);
    }
    assert(4 + n <= b.len());
    let mut payload: Vec<u8> = Vec::with_capacity(n);
    let mut i: usize = 0;
    while i < n
        invariant
            i <= n,
            4 + n <= b.len(),
            payload@ == b@.subrange(4, 4 + i as int),
        decreases n - i,
    {
        payload.push(b[4 + i]);
        i = i + 1;
        assert(payload@ =~= b@.subrange(4, 4 + i as int));
    }
    Ok(payload)
}

/// Frames `payload`: its length as four big-endian bytes, then the bytes.
/// A payload above `MAX_FRAME_LEN` is refused, as the reading side would.
pub fn encode_frame(payload: &[u8]) -> (r: Result<Vec<u8>, FrameError>)
    ensures
        match r {
            Ok(f) => payload@.len() <= MAX_FRAME_LEN && f@ == frame_of(payload@),
            Err(e) => e == FrameError::MessageTooLarge && payload@.len() > MAX_FRAME_LEN,
        },
{
    if payload.len() > MAX_FRAME_LEN as usize {
        return Err(FrameError::MessageTooLarge);
    }
    let n: u32 = payload.len() as u32;
    let mut out: Vec<u8> = Vec::with_capacity(4 + payload.len());
    out.push((n / 0x1000000 % 0x100) as u8);
    out.push((n / 0x10000 % 0x100) as u8);
    out.push((n / 0x100 % 0x100) as u8);
    out.push((n % 0x100) as u8);
    assert(out@ =~= be_bytes(n as int));
    let mut i: usize = 0;
    while i < payload.len()
        invariant
            i <= payload@.len(),
            out@ == be_bytes(n as int) + payload@.take(i as int),
        decreases payload@.len() - i,
    {
        out.push(payload[i]);
        i = i + 1;
        assert(out@ =~= be_bytes(n as int) + payload@.take(i as int));
    }
    assert(payload@.take(i as int) =~= payload@);
    Ok(out)
}

/// A framed payload reads back as itself, whatever follows the frame.
pub proof fn lemma_frame_round_trip(payload: Seq<u8>, rest: Seq<u8>)
    requires
        payload.len() <= MAX_FRAME_LEN,
    ensures
        frame_decode(frame_of(payload) + rest) == Ok::<Seq<u8>, FrameError>(payload),
{
    let b = frame_of(payload) + rest;
    lemma_be_value_of_bytes(payload.len() as int);
    assert(b.take(4) =~= be_bytes(payload.len() as int));
    assert(b.subrange(4, 4 + payload.len() as int) =~= payload);
}

/// A prefix that advertises more than `MAX_FRAME_LEN` bytes is refused as too
/// large, whatever bytes follow it and however many.
pub proof fn lemma_oversized_prefix_refused(len: u32, rest: Seq<u8>)
    requires
        len > MAX_FRAME_LEN,
    ensures
        frame_decode(be_bytes(len as int) + rest) == Err::<Seq<u8>, FrameError>(
            FrameError::MessageTooLarge,
        ),
{
    let b = be_bytes(len as int) + rest;
    lemma_be_value_of_bytes(len as int);
    assert(b.take(4) =~= be_bytes(len as int));
}

/// A prefix whose payload is cut short by the end of the stream is reported
/// as an early end, not as a malformed payload.
pub proof fn lemma_truncated_payload_is_eof(len: u32, rest: Seq<u8>)
    requires
        len <= MAX_FRAME_LEN,
        rest.len() < len,
    ensures
        frame_decode(be_bytes(len as int) + rest) == Err::<Seq<u8>, FrameError>(
            FrameError::UnexpectedEof,
        ),
{
    let b = be_bytes(len as int) + rest;
    lemma_be_value_of_bytes(len as int);
    assert(b.take(4) =~= be_bytes(len as int));
}

} // verus!
