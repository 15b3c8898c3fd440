//! Protocol-buffer wire primitives: varints, field keys and fields.
use vstd::prelude::*;

verus! {

/// The base-128 bytes of `v`, low seven bits first, each but the last with
/// its high bit set.
pub open spec fn varint(v: nat) -> Seq<u8>
    decreases v,
{
    if v < 0x80 {
        seq![v as u8]
    } else {
        seq![(v % 0x80 + 0x80) as u8] + varint(v / 0x80)
    }
}

/// Reads a varint of at most `budget` bytes from the start of `s`: its value
/// and how many bytes it took.
pub open spec fn varint_prefix(s: Seq<u8>, budget: nat) -> Option<(nat, nat)>
    decreases budget,
{
    if budget == 0 || s.len() == 0 {
        None
    } else if s[0] < 0x80 {
        Some((s[0] as nat, 1nat))
    } else {
        match varint_prefix(s.drop_first(), (budget - 1) as nat) {
            Some((v, n)) => Some((((s[0] - 0x80) + 0x80 * v) as nat, n + 1)),
            None => None,
        }
    }
}

/// Longest varint, in bytes, that the reader accepts.
pub const MAX_VARINT_LEN: usize = 10;

/// A varint at the start of `s` whose value fits in 64 bits.
pub open spec fn read_varint(s: Seq<u8>) -> Option<(u64, nat)> {
    match varint_prefix(s, MAX_VARINT_LEN as nat) {
        Some((v, n)) => if v <= u64::MAX {
            Some((v as u64, n))
        } else {
            None
        },
        None => None,
    }
}

/// Wire type of a varint field.
pub const WIRE_VARINT: u64 = 0;

/// Wire type of an eight-byte field.
pub const WIRE_FIXED64: u64 = 1;

/// Wire type of a length-delimited field.
pub const WIRE_LEN: u64 = 2;

/// Wire type of a four-byte field.
pub const WIRE_FIXED32: u64 = 5;

/// One past the largest field number.
pub const FIELD_NUMBER_LIMIT: u64 = 0x2000_0000;

/// One field as read from the wire.
pub enum FieldView {
    Varint { number: u64, value: u64 },
    Bytes { number: u64, data: Seq<u8> },
    /// A fixed-width field; no message of this protocol has one.
    Fixed,
}

/// A length-delimited field: its key, the data's length, the data.
pub open spec fn bytes_field(number: nat, data: Seq<u8>) -> Seq<u8> {
    varint((number * 8 + WIRE_LEN) as nat) + varint(data.len()) + data
}

/// A varint field: its key, then the value.
pub open spec fn varint_field(number: nat, value: nat) -> Seq<u8> {
    varint((number * 8 + WIRE_VARINT) as nat) + varint(value)
}

/// The field at the start of `s`, and how many bytes it takes. Its key
/// must name a field number from 1 up to the limit.
pub open spec fn field_at(s: Seq<u8>) -> Option<(FieldView, nat)> {
    match read_varint(s) {
        None => None,
        Some((key, k)) => {
            let number = key / 8;
            let wire = key % 8;
            let t = s.skip(k as int);
            if number == 0 || number >= FIELD_NUMBER_LIMIT {
                None
            } else if wire == WIRE_VARINT {
                match read_varint(t) {
                    Some((v, m)) => Some((FieldView::Varint { number, value: v }, k + m)),
                    None => None,
                }
            } else if wire == WIRE_LEN {
                match read_varint(t) {
                    Some((len, m)) => if m + len <= t.len() {
                        Some(
                            (
                                FieldView::Bytes { number, data: t.subrange(m as int, m + len) },
                                (k + m + len) as nat,
                            ),
                        )
                    } else {
                        None
                    },
                    None => None,
                }
            } else if wire == WIRE_FIXED64 {
                if 8 <= t.len() {
                    Some((FieldView::Fixed, k + 8))
                } else {
                    None
                }
            } else if wire == WIRE_FIXED32 {
                if 4 <= t.len() {
                    Some((FieldView::Fixed, k + 4))
                } else {
                    None
                }
            } else {
                None
            }
        },
    }
}

/// Relies on prost::encoding::encode_varint, which appends the base-128
/// bytes of the value, low seven bits first.
#[verifier::external_body]
fn append_varint(out: &mut Vec<u8>, v: u64)
    ensures
        final(out)@ == old(out)@ + varint(v as nat),
{
    prost::encoding::encode_varint(v, out)
}

pub open spec fn pow128(k: nat) -> nat
    decreases k,
{
    if k == 0 {
        1
    } else {
        0x80 * pow128((k - 1) as nat)
    }
}

proof fn lemma_varint_len_bound(v: nat, k: nat)
    requires
        v < pow128(k),
        k >= 1,
    ensures
        1 <= varint(v).len() <= k,
    decreases v,
{
    if v >= 0x80 {
        assert(k >= 2) by {
            if k == 1 {
                assert(pow128(1) == 0x80 * pow128(0));
            }
        }
        let p = pow128((k - 1) as nat);
        assert(pow128(k) == 0x80 * p);
        assert(v / 0x80 < p) by (nonlinear_arith)
            requires
                v < 0x80 * p,
        ;
        lemma_varint_len_bound(v / 0x80, (k - 1) as nat);
    }
}

/// A 64-bit value takes at most `MAX_VARINT_LEN` bytes.
pub proof fn lemma_varint_len(v: nat)
    requires
        v <= u64::MAX,
    ensures
        1 <= varint(v).len() <= MAX_VARINT_LEN,
{
    reveal_with_fuel(pow128, 11);
    assert(pow128(10) == 0x4000_0000_0000_0000_00);
    lemma_varint_len_bound(v, 10);
}

proof fn lemma_varint_prefix_of(v: nat, rest: Seq<u8>, budget: nat)
    requires
        varint(v).len() <= budget,
    ensures
        varint_prefix(varint(v) + rest, budget) == Some((v, varint(v).len())),
    decreases v,
{
    let s = varint(v) + rest;
    if v < 0x80 {
        assert(s[0] == v as u8);
    } else {
        let low = (v % 0x80 + 0x80) as u8;
        assert(s[0] == low);
        assert(low == v % 0x80 + 0x80);
        assert(s.drop_first() =~= varint(v / 0x80) + rest);
        lemma_varint_prefix_of(v / 0x80, rest, (budget - 1) as nat);
    }
}

/// A varint written for a 64-bit value reads back as that value, whatever
/// follows it.
pub proof fn lemma_read_varint(v: u64, rest: Seq<u8>)
    ensures
        read_varint(varint(v as nat) + rest) == Some((v, varint(v as nat).len())),
{
    lemma_varint_len(v as nat);
    lemma_varint_prefix_of(v as nat, rest, MAX_VARINT_LEN as nat);
}

/// A length-delimited field reads back as itself, whatever follows it.
pub proof fn lemma_bytes_field(number: u64, data: Seq<u8>, rest: Seq<u8>)
    requires
        1 <= number < FIELD_NUMBER_LIMIT,
        data.len() <= u64::MAX,
    ensures
        field_at(bytes_field(number as nat, data) + rest) == Some(
            (FieldView::Bytes { number, data }, bytes_field(number as nat, data).len()),
        ),
{
    let key = (number * 8 + WIRE_LEN) as u64;
    let len = data.len() as u64;
    let s = bytes_field(number as nat, data) + rest;
    let t = varint(len as nat) + data + rest;
    assert(s =~= varint(key as nat) + t);
    lemma_read_varint(key, t);
    assert(key / 8 == number);
    assert(key % 8 == WIRE_LEN);
    assert(s.skip(varint(key as nat).len() as int) =~= t);
    assert(t =~= varint(len as nat) + (data + rest));
    lemma_read_varint(len, data + rest);
    let m = varint(len as nat).len();
    assert(t.subrange(m as int, m + len) =~= data);
}

/// A varint field reads back as itself, whatever follows it.
pub proof fn lemma_varint_field(number: u64, value: u64, rest: Seq<u8>)
    requires
        1 <= number < FIELD_NUMBER_LIMIT,
    ensures
        field_at(varint_field(number as nat, value as nat) + rest) == Some(
            (
                FieldView::Varint { number, value },
                varint_field(number as nat, value as nat).len(),
            ),
        ),
{
    let key = (number * 8 + WIRE_VARINT) as u64;
    let s = varint_field(number as nat, value as nat) + rest;
    let t = varint(value as nat) + rest;
    assert(s =~= varint(key as nat) + t);
    lemma_read_varint(key, t);
    assert(key / 8 == number);
    assert(key % 8 == WIRE_VARINT);
    assert(s.skip(varint(key as nat).len() as int) =~= t);
    lemma_read_varint(value, rest);
}

/// One field as read from a buffer: a length-delimited one by the place of
/// its data.
pub enum Field {
    Varint { number: u64, value: u64 },
    Bytes { number: u64, start: usize, end: usize },
    Fixed,
}

impl Field {
    /// What the field holds, given the buffer it was read from.
    pub open spec fn view_in(self, buf: Seq<u8>) -> FieldView {
        match self {
            Field::Varint { number, value } => FieldView::Varint { number, value },
            Field::Bytes { number, start, end } => FieldView::Bytes {
                number,
                data: buf.subrange(start as int, end as int),
            },
            Field::Fixed => FieldView::Fixed,
        }
    }

    pub open spec fn within(self, buf: Seq<u8>) -> bool {
        match self {
            Field::Bytes { start, end, .. } => start <= end <= buf.len(),
            _ => true,
        }
    }
}

fn varint_at(buf: &[u8], pos: usize, budget: usize) -> (r: Option<(u64, usize)>)
    requires
        pos <= buf@.len(),
        budget <= MAX_VARINT_LEN,
    ensures
        match varint_prefix(buf@.skip(pos as int), budget as nat) {
            Some((v, n)) => if v <= u64::MAX {
                r == Some((v as u64, (pos + n) as usize)) && pos + n <= buf@.len()
            } else {
                r is None
            },
            None => r is None,
        },
    decreases budget,
{
    if budget == 0 || pos >= buf.len() {
        return None;
    }
    let b = buf[pos];
    assert(buf@.skip(pos as int)[0] == b);
    if b < 0x80 {
        return Some((b as u64, pos + 1));
    }
    assert(buf@.skip(pos as int).drop_first() =~= buf@.skip(pos + 1));
    let low: u64 = (b - 0x80) as u64;
    match varint_at(buf, pos + 1, budget - 1) {
        None => None,
        Some((v, p)) => {
            if v > (u64::MAX - low) / 0x80 {
                assert(low + 0x80 * v > u64::MAX) by (nonlinear_arith)
                    requires
                        v > (u64::MAX - low) / 0x80,
                        low < 0x80,
                ;
                None
            } else {
                assert(low + 0x80 * v <= u64::MAX) by (nonlinear_arith)
                    requires
                        v <= (u64::MAX - low) / 0x80,
                        low < 0x80,
                ;
                Some((low + 0x80 * v, p))
            }
        },
    }
}

/// Reads a 64-bit varint at `pos`: its value and the place after it.
pub fn read_varint_at(buf: &[u8], pos: usize) -> (r: Option<(u64, usize)>)
    requires
        pos <= buf@.len(),
    ensures
        match read_varint(buf@.skip(pos as int)) {
            Some((v, n)) => r == Some((v, (pos + n) as usize)) && pos + n <= buf@.len(),
            None => r is None,
        },
{
    varint_at(buf, pos, MAX_VARINT_LEN)
}

/// Reads the field that starts at `pos`, and the place after it.
pub fn read_field_at(buf: &[u8], pos: usize) -> (r: Option<(Field, usize)>)
    requires
        pos <= buf@.len(),
    ensures
        match field_at(buf@.skip(pos as int)) {
            Some((f, n)) => r matches Some((g, next)) && next == pos + n && next <= buf@.len()
                && g.within(buf@) && g.view_in(buf@) == f,
            None => r is None,
        },
{
    let s = Ghost(buf@.skip(pos as int));
    // the call's contract bounds `buf@.len()` by `usize::MAX`
    let _ = buf.len();
    let (key, p) = match read_varint_at(buf, pos) {
        Some((key, p)) => (key, p),
        None => return None,
    };
    assert(s@.skip(p - pos) =~= buf@.skip(p as int));
    let number = key / 8;
    let wire = key % 8;
    if number == 0 || number >= FIELD_NUMBER_LIMIT {
        None
    } else if wire == WIRE_VARINT {
        match read_varint_at(buf, p) {
            Some((v, q)) => Some((Field::Varint { number, value: v }, q)),
            None => None,
        }
    } else if wire == WIRE_LEN {
        match read_varint_at(buf, p) {
            Some((len, q)) => {
                if len > (buf.len() - q) as u64 {
                    None
                } else {
                    let end = q + len as usize;
                    assert(buf@.skip(p as int).subrange(q - p, q - p + len) =~= buf@.subrange(
                        q as int,
                        end as int,
                    ));
                    Some((Field::Bytes { number, start: q, end }, end))
                }
            },
            None => None,
        }
    } else if wire == WIRE_FIXED64 {
        if buf.len() - p >= 8 {
            Some((Field::Fixed, p + 8))
        } else {
            None
        }
    } else if wire == WIRE_FIXED32 {
        if buf.len() - p >= 4 {
            Some((Field::Fixed, p + 4))
        } else {
            None
        }
    } else {
        None
    }
}

/// Appends a length-delimited field.
pub fn append_bytes_field(out: &mut Vec<u8>, number: u64, data: &[u8])
    requires
        1 <= number < FIELD_NUMBER_LIMIT,
    ensures
        final(out)@ == old(out)@ + bytes_field(number as nat, data@),
{
    append_varint(out, number * 8 + WIRE_LEN);
    append_varint(out, data.len() as u64);
    let ghost head = out@;
    let mut i: usize = 0;
    while i < data.len()
        invariant
            i <= data@.len(),
            out@ == head + data@.take(i as int),
        decreases data@.len() - i,
    {
        out.push(data[i]);
        i = i + 1;
        assert(out@ =~= head + data@.take(i as int));
    }
    assert(data@.take(i as int) =~= data@);
    assert(out@ =~= old(out)@ + bytes_field(number as nat, data@));
}

/// Appends a varint field.
pub fn append_varint_field(out: &mut Vec<u8>, number: u64, value: u64)
    requires
        1 <= number < FIELD_NUMBER_LIMIT,
    ensures
        final(out)@ == old(out)@ + varint_field(number as nat, value as nat),
{
    append_varint(out, number * 8 + WIRE_VARINT);
    append_varint(out, value);
    assert(out@ =~= old(out)@ + varint_field(number as nat, value as nat));
}

/// A copy of `buf[start..end]`.
pub fn copy_range(buf: &[u8], start: usize, end: usize) -> (r: Vec<u8>)
    requires
        start <= end <= buf@.len(),
    ensures
        r@ == buf@.subrange(start as int, end as int),
{
    let mut r: Vec<u8> = Vec::with_capacity(end - start);
    let mut i: usize = start;
    while i < end
        invariant
            start <= i <= end,
            end <= buf@.len(),
            r@ == buf@.subrange(start as int, i as int),
        decreases end - i,
    {
        r.push(buf[i]);
        i = i + 1;
        assert(r@ =~= buf@.subrange(start as int, i as int));
    }
    r
}

} // verus!
