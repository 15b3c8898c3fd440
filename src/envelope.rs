//! The envelope carried in a frame, and its protocol-buffer encoding.
use vstd::prelude::*;
use crate::wire::{
    append_bytes_field, append_varint_field, bytes_field, copy_range, field_at, lemma_bytes_field,
    lemma_varint_field, read_field_at, varint_field, Field, FieldView,
};

verus! {

/// Field numbers of a registration request.
pub const REG_AGENT_ID: u64 = 1;

pub const REG_HOSTNAME: u64 = 2;

pub const REG_VERSION: u64 = 3;

pub const REG_TIMESTAMP: u64 = 4;

/// Field number of a generic message's body.
pub const MSG_BODY: u64 = 1;

/// Field numbers of the envelope's variants.
pub const ENV_REGISTRATION: u64 = 1;

pub const ENV_MESSAGE: u64 = 2;

/// An agent announcing itself to the controller.
#[derive(Debug, PartialEq, Eq)]
pub struct RegistrationRequest {
    pub agent_id: Vec<u8>,
    pub hostname: Vec<u8>,
    pub version: Vec<u8>,
    pub timestamp: u64,
}

pub struct RegistrationView {
    pub agent_id: Seq<u8>,
    pub hostname: Seq<u8>,
    pub version: Seq<u8>,
    pub timestamp: u64,
}

impl View for RegistrationRequest {
    type V = RegistrationView;

    open spec fn view(&self) -> RegistrationView {
        RegistrationView {
            agent_id: self.agent_id@,
            hostname: self.hostname@,
            version: self.version@,
            timestamp: self.timestamp,
        }
    }
}

/// A generic request; its body is opaque to the controller.
#[derive(Debug, PartialEq, Eq)]
pub struct MessageRequest {
    pub body: Vec<u8>,
}

pub struct MessageView {
    pub body: Seq<u8>,
}

impl View for MessageRequest {
    type V = MessageView;

    open spec fn view(&self) -> MessageView {
        MessageView { body: self.body@ }
    }
}

/// A protocol message: exactly one variant is active. `Unrecognized` is an
/// envelope that carries no variant this controller knows.
#[derive(Debug, PartialEq, Eq)]
pub enum Envelope {
    Registration(RegistrationRequest),
    Message(MessageRequest),
    Unrecognized,
}

pub enum EnvelopeView {
    Registration(RegistrationView),
    Message(MessageView),
    Unrecognized,
}

impl View for Envelope {
    type V = EnvelopeView;

    open spec fn view(&self) -> EnvelopeView {
        match self {
            Envelope::Registration(r) => EnvelopeView::Registration(r@),
            Envelope::Message(m) => EnvelopeView::Message(m@),
            Envelope::Unrecognized => EnvelopeView::Unrecognized,
        }
    }
}

pub open spec fn registration_bytes(r: RegistrationView) -> Seq<u8> {
    bytes_field(REG_AGENT_ID as nat, r.agent_id) + bytes_field(REG_HOSTNAME as nat, r.hostname)
        + bytes_field(REG_VERSION as nat, r.version) + varint_field(
        REG_TIMESTAMP as nat,
        r.timestamp as nat,
    )
}

pub open spec fn message_bytes(m: MessageView) -> Seq<u8> {
    bytes_field(MSG_BODY as nat, m.body)
}

/// The encoding of an envelope: its active variant as a length-delimited
/// field, or nothing for an envelope with no known variant.
pub open spec fn envelope_bytes(e: EnvelopeView) -> Seq<u8> {
    match e {
        EnvelopeView::Registration(r) => bytes_field(ENV_REGISTRATION as nat, registration_bytes(r)),
        EnvelopeView::Message(m) => bytes_field(ENV_MESSAGE as nat, message_bytes(m)),
        EnvelopeView::Unrecognized => Seq::empty(),
    }
}

pub open spec fn empty_registration() -> RegistrationView {
    RegistrationView { agent_id: Seq::empty(), hostname: Seq::empty(), version: Seq::empty(), timestamp: 0 }
}

/// A later field overwrites an earlier one; unknown fields are skipped.
pub open spec fn apply_registration_field(acc: RegistrationView, f: FieldView) -> RegistrationView {
    match f {
        FieldView::Bytes { number, data } => if number == REG_AGENT_ID {
            RegistrationView { agent_id: data, ..acc }
        } else if number == REG_HOSTNAME {
            RegistrationView { hostname: data, ..acc }
        } else if number == REG_VERSION {
            RegistrationView { version: data, ..acc }
        } else {
            acc
        },
        FieldView::Varint { number, value } => if number == REG_TIMESTAMP {
            RegistrationView { timestamp: value, ..acc }
        } else {
            acc
        },
        FieldView::Fixed => acc,
    }
}

pub open spec fn registration_fold(s: Seq<u8>, acc: RegistrationView) -> Option<RegistrationView>
    decreases s.len(),
{
    if s.len() == 0 {
        Some(acc)
    } else {
        match field_at(s) {
            Some((f, n)) => if 0 < n <= s.len() {
                registration_fold(s.skip(n as int), apply_registration_field(acc, f))
            } else {
                None
            },
            None => None,
        }
    }
}

/// The registration request that the bytes `s` hold, if they are well formed.
pub open spec fn registration_decode(s: Seq<u8>) -> Option<RegistrationView> {
    registration_fold(s, empty_registration())
}

pub open spec fn apply_message_field(acc: MessageView, f: FieldView) -> MessageView {
    match f {
        FieldView::Bytes { number, data } => if number == MSG_BODY {
            MessageView { body: data }
        } else {
            acc
        },
        _ => acc,
    }
}

pub open spec fn message_fold(s: Seq<u8>, acc: MessageView) -> Option<MessageView>
    decreases s.len(),
{
    if s.len() == 0 {
        Some(acc)
    } else {
        match field_at(s) {
            Some((f, n)) => if 0 < n <= s.len() {
                message_fold(s.skip(n as int), apply_message_field(acc, f))
            } else {
                None
            },
            None => None,
        }
    }
}

/// The generic request that the bytes `s` hold, if they are well formed.
pub open spec fn message_decode(s: Seq<u8>) -> Option<MessageView> {
    message_fold(s, MessageView { body: Seq::empty() })
}

/// The last variant field wins; fields of unknown number are skipped.
pub open spec fn apply_envelope_field(acc: EnvelopeView, f: FieldView) -> Option<EnvelopeView> {
    match f {
        FieldView::Bytes { number, data } => if number == ENV_REGISTRATION {
            match registration_decode(data) {
                Some(r) => Some(EnvelopeView::Registration(r)),
                None => None,
            }
        } else if number == ENV_MESSAGE {
            match message_decode(data) {
                Some(m) => Some(EnvelopeView::Message(m)),
                None => None,
            }
        } else {
            Some(acc)
        },
        _ => Some(acc),
    }
}

pub open spec fn envelope_fold(s: Seq<u8>, acc: EnvelopeView) -> Option<EnvelopeView>
    decreases s.len(),
{
    if s.len() == 0 {
        Some(acc)
    } else {
        match field_at(s) {
            Some((f, n)) => if 0 < n <= s.len() {
                match apply_envelope_field(acc, f) {
                    Some(next) => envelope_fold(s.skip(n as int), next),
                    None => None,
                }
            } else {
                None
            },
            None => None,
        }
    }
}

/// The envelope that the bytes `s` hold, if they are well formed.
pub open spec fn envelope_decode(s: Seq<u8>) -> Option<EnvelopeView> {
    envelope_fold(s, EnvelopeView::Unrecognized)
}

proof fn lemma_registration_step(field: Seq<u8>, rest: Seq<u8>, acc: RegistrationView, f: FieldView)
    requires
        field.len() > 0,
        field_at(field + rest) == Some((f, field.len())),
    ensures
        registration_fold(field + rest, acc) == registration_fold(
            rest,
            apply_registration_field(acc, f),
        ),
{
    assert((field + rest).skip(field.len() as int) =~= rest);
}

proof fn lemma_message_step(field: Seq<u8>, rest: Seq<u8>, acc: MessageView, f: FieldView)
    requires
        field.len() > 0,
        field_at(field + rest) == Some((f, field.len())),
    ensures
        message_fold(field + rest, acc) == message_fold(rest, apply_message_field(acc, f)),
{
    assert((field + rest).skip(field.len() as int) =~= rest);
}

proof fn lemma_envelope_step(field: Seq<u8>, rest: Seq<u8>, acc: EnvelopeView, f: FieldView)
    requires
        field.len() > 0,
        field_at(field + rest) == Some((f, field.len())),
    ensures
        envelope_fold(field + rest, acc) == match apply_envelope_field(acc, f) {
            Some(next) => envelope_fold(rest, next),
            None => None,
        },
{
    assert((field + rest).skip(field.len() as int) =~= rest);
}

/// A registration request reads back as itself.
pub proof fn lemma_registration_round_trip(r: RegistrationView)
    requires
        registration_bytes(r).len() <= u64::MAX,
    ensures
        registration_decode(registration_bytes(r)) == Some(r),
{
    let a = bytes_field(REG_AGENT_ID as nat, r.agent_id);
    let h = bytes_field(REG_HOSTNAME as nat, r.hostname);
    let v = bytes_field(REG_VERSION as nat, r.version);
    let t = varint_field(REG_TIMESTAMP as nat, r.timestamp as nat);
    let e = Seq::<u8>::empty();
    assert(registration_bytes(r) =~= a + (h + (v + (t + e))));
    lemma_bytes_field(REG_AGENT_ID, r.agent_id, h + (v + (t + e)));
    lemma_bytes_field(REG_HOSTNAME, r.hostname, v + (t + e));
    lemma_bytes_field(REG_VERSION, r.version, t + e);
    lemma_varint_field(REG_TIMESTAMP, r.timestamp, e);
    let acc0 = empty_registration();
    let acc1 = apply_registration_field(acc0, FieldView::Bytes { number: REG_AGENT_ID, data: r.agent_id });
    let acc2 = apply_registration_field(acc1, FieldView::Bytes { number: REG_HOSTNAME, data: r.hostname });
    let acc3 = apply_registration_field(acc2, FieldView::Bytes { number: REG_VERSION, data: r.version });
    let acc4 = apply_registration_field(acc3, FieldView::Varint { number: REG_TIMESTAMP, value: r.timestamp });
    lemma_registration_step(a, h + (v + (t + e)), acc0, FieldView::Bytes { number: REG_AGENT_ID, data: r.agent_id });
    lemma_registration_step(h, v + (t + e), acc1, FieldView::Bytes { number: REG_HOSTNAME, data: r.hostname });
    lemma_registration_step(v, t + e, acc2, FieldView::Bytes { number: REG_VERSION, data: r.version });
    lemma_registration_step(t, e, acc3, FieldView::Varint { number: REG_TIMESTAMP, value: r.timestamp });
    assert(acc4 == r);
}

/// A generic request reads back as itself.
pub proof fn lemma_message_round_trip(m: MessageView)
    requires
        message_bytes(m).len() <= u64::MAX,
    ensures
        message_decode(message_bytes(m)) == Some(m),
{
    let e = Seq::<u8>::empty();
    let b = bytes_field(MSG_BODY as nat, m.body);
    assert(message_bytes(m) =~= b + e);
    lemma_bytes_field(MSG_BODY, m.body, e);
    lemma_message_step(b, e, MessageView { body: Seq::empty() }, FieldView::Bytes { number: MSG_BODY, data: m.body });
}

/// Decoding an encoded envelope gives the envelope back.
pub proof fn lemma_envelope_round_trip(e: EnvelopeView)
    requires
        envelope_bytes(e).len() <= u64::MAX,
    ensures
        envelope_decode(envelope_bytes(e)) == Some(e),
{
    let z = Seq::<u8>::empty();
    match e {
        EnvelopeView::Registration(r) => {
            let inner = registration_bytes(r);
            let b = bytes_field(ENV_REGISTRATION as nat, inner);
            assert(envelope_bytes(e) =~= b + z);
            lemma_registration_round_trip(r);
            lemma_bytes_field(ENV_REGISTRATION, inner, z);
            lemma_envelope_step(b, z, EnvelopeView::Unrecognized, FieldView::Bytes { number: ENV_REGISTRATION, data: inner });
        },
        EnvelopeView::Message(m) => {
            let inner = message_bytes(m);
            let b = bytes_field(ENV_MESSAGE as nat, inner);
            assert(envelope_bytes(e) =~= b + z);
            lemma_message_round_trip(m);
            lemma_bytes_field(ENV_MESSAGE, inner, z);
            lemma_envelope_step(b, z, EnvelopeView::Unrecognized, FieldView::Bytes { number: ENV_MESSAGE, data: inner });
        },
        EnvelopeView::Unrecognized => {},
    }
}

/// The protocol-buffer encoding of a registration request.
pub fn encode_registration(r: &RegistrationRequest) -> (out: Vec<u8>)
    ensures
        out@ == registration_bytes(r@),
{
    let mut out: Vec<u8> = Vec::new();
    append_bytes_field(&mut out, REG_AGENT_ID, r.agent_id.as_slice());
    append_bytes_field(&mut out, REG_HOSTNAME, r.hostname.as_slice());
    append_bytes_field(&mut out, REG_VERSION, r.version.as_slice());
    append_varint_field(&mut out, REG_TIMESTAMP, r.timestamp);
    assert(out@ =~= registration_bytes(r@));
    out
}

/// The protocol-buffer encoding of a generic request.
pub fn encode_message(m: &MessageRequest) -> (out: Vec<u8>)
    ensures
        out@ == message_bytes(m@),
{
    let mut out: Vec<u8> = Vec::new();
    append_bytes_field(&mut out, MSG_BODY, m.body.as_slice());
    assert(out@ =~= message_bytes(m@));
    out
}

/// The protocol-buffer encoding of an envelope.
pub fn encode_envelope(e: &Envelope) -> (out: Vec<u8>)
    ensures
        out@ == envelope_bytes(e@),
{
    let mut out: Vec<u8> = Vec::new();
    match e {
        Envelope::Registration(r) => {
            let inner = encode_registration(r);
            append_bytes_field(&mut out, ENV_REGISTRATION, inner.as_slice());
        },
        Envelope::Message(m) => {
            let inner = encode_message(m);
            append_bytes_field(&mut out, ENV_MESSAGE, inner.as_slice());
        },
        Envelope::Unrecognized => {},
    }
    assert(out@ =~= envelope_bytes(e@));
    out
}

/// Reads a registration request; `None` where the bytes are malformed.
pub fn decode_registration(buf: &[u8]) -> (r: Option<RegistrationRequest>)
    ensures
        match r {
            Some(x) => registration_decode(buf@) == Some(x@),
            None => registration_decode(buf@) is None,
        },
{
    let mut acc = RegistrationRequest {
        agent_id: Vec::new(),
        hostname: Vec::new(),
        version: Vec::new(),
        timestamp: 0,
    };
    let mut pos: usize = 0;
    assert(buf@.skip(0) =~= buf@);
    assert(acc@ == empty_registration());
    while pos < buf.len()
        invariant
            pos <= buf@.len(),
            registration_fold(buf@.skip(pos as int), acc@) == registration_decode(buf@),
        decreases buf@.len() - pos,
    {
        let ghost s = buf@.skip(pos as int);
        let ghost before = acc@;
        match read_field_at(buf, pos) {
            None => return None,
            Some((f, next)) => {
                let ghost fv = f.view_in(buf@);
                assert(s.skip(next - pos) =~= buf@.skip(next as int));
                match f {
                    Field::Bytes { number, start, end } => {
                        if number == REG_AGENT_ID {
                            acc.agent_id = copy_range(buf, start, end);
                        } else if number == REG_HOSTNAME {
                            acc.hostname = copy_range(buf, start, end);
                        } else if number == REG_VERSION {
                            acc.version = copy_range(buf, start, end);
                        }
                    },
                    Field::Varint { number, value } => {
                        if number == REG_TIMESTAMP {
                            acc.timestamp = value;
                        }
                    },
                    Field::Fixed => {},
                }
                assert(acc@ == apply_registration_field(before, fv));
                pos = next;
            },
        }
    }
    assert(buf@.skip(pos as int) =~= Seq::<u8>::empty());
    Some(acc)
}

/// Reads a generic request; `None` where the bytes are malformed.
pub fn decode_message(buf: &[u8]) -> (r: Option<MessageRequest>)
    ensures
        match r {
            Some(x) => message_decode(buf@) == Some(x@),
            None => message_decode(buf@) is None,
        },
{
    let mut acc = MessageRequest { body: Vec::new() };
    let mut pos: usize = 0;
    assert(buf@.skip(0) =~= buf@);
    assert(acc@ == MessageView { body: Seq::empty() });
    while pos < buf.len()
        invariant
            pos <= buf@.len(),
            message_fold(buf@.skip(pos as int), acc@) == message_decode(buf@),
        decreases buf@.len() - pos,
    {
        let ghost s = buf@.skip(pos as int);
        let ghost before = acc@;
        match read_field_at(buf, pos) {
            None => return None,
            Some((f, next)) => {
                let ghost fv = f.view_in(buf@);
                assert(s.skip(next - pos) =~= buf@.skip(next as int));
                match f {
                    Field::Bytes { number, start, end } => {
                        if number == MSG_BODY {
                            acc.body = copy_range(buf, start, end);
                        }
                    },
                    _ => {},
                }
                assert(acc@ == apply_message_field(before, fv));
                pos = next;
            },
        }
    }
    assert(buf@.skip(pos as int) =~= Seq::<u8>::empty());
    Some(acc)
}

/// Reads an envelope; `None` where the bytes are malformed.
pub fn decode_envelope(buf: &[u8]) -> (r: Option<Envelope>)
    ensures
        match r {
            Some(x) => envelope_decode(buf@) == Some(x@),
            None => envelope_decode(buf@) is None,
        },
{
    let mut acc = Envelope::Unrecognized;
    let mut pos: usize = 0;
    assert(buf@.skip(0) =~= buf@);
    while pos < buf.len()
        invariant
            pos <= buf@.len(),
            envelope_fold(buf@.skip(pos as int), acc@) == envelope_decode(buf@),
        decreases buf@.len() - pos,
    {
        let ghost s = buf@.skip(pos as int);
        let ghost before = acc@;
        match read_field_at(buf, pos) {
            None => return None,
            Some((f, next)) => {
                let ghost fv = f.view_in(buf@);
                assert(s.skip(next - pos) =~= buf@.skip(next as int));
                match f {
                    Field::Bytes { number, start, end } => {
                        if number == ENV_REGISTRATION {
                            let inner = copy_range(buf, start, end);
                            match decode_registration(inner.as_slice()) {
                                Some(x) => acc = Envelope::Registration(x),
                                None => return None,
                            }
                        } else if number == ENV_MESSAGE {
                            let inner = copy_range(buf, start, end);
                            match decode_message(inner.as_slice()) {
                                Some(x) => acc = Envelope::Message(x),
                                None => return None,
                            }
                        }
                    },
                    _ => {},
                }
                assert(apply_envelope_field(before, fv) == Some(acc@));
                pos = next;
            },
        }
    }
    assert(buf@.skip(pos as int) =~= Seq::<u8>::empty());
    Some(acc)
}

} // verus!
