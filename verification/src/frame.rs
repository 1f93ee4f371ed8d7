//! TCP framing: each payload travels behind its length, a big-endian number
//! of four bytes.
//!
//! The writing side is `writer::FrameWriter`; the reading sides are
//! `server::tcp::TcpConnection` and `client::listen::Listening`.
use vstd::prelude::*;

verus! {

/// Number of bytes in a frame's length field.
pub const HEADER_SIZE: usize = 4;

/// Number of values that a length field can take.
pub const LENGTH_SPAN: u64 = 0x1_0000_0000;

/// The number that four bytes spell, most significant byte first.
pub open spec fn be_value(bytes: Seq<u8>) -> nat {
    (bytes[0] * 0x100_0000 + bytes[1] * 0x1_0000 + bytes[2] * 0x100 + bytes[3]) as nat
}

/// The four bytes that spell `value`, most significant byte first.
pub open spec fn be_bytes(value: nat) -> Seq<u8> {
    seq![
        (value / 0x100_0000 % 0x100) as u8,
        (value / 0x1_0000 % 0x100) as u8,
        (value / 0x100 % 0x100) as u8,
        (value % 0x100) as u8,
    ]
}

/// The length field in front of a payload of `len` bytes. A length beyond the
/// field's span is reduced to its remainder.
pub open spec fn header(len: nat) -> Seq<u8> {
    be_bytes(len % LENGTH_SPAN as nat)
}

/// A payload behind its length field.
pub open spec fn frame(payload: Seq<u8>) -> Seq<u8> {
    header(payload.len()) + payload
}

/// The frames of `payloads`, one behind the other.
pub open spec fn frames(payloads: Seq<Seq<u8>>) -> Seq<u8>
    decreases payloads.len(),
{
    if payloads.len() == 0 {
        Seq::empty()
    } else {
        frame(payloads.first()) + frames(payloads.drop_first())
    }
}

/// The payloads of the complete frames at the start of `stream`.
pub open spec fn deframe(stream: Seq<u8>) -> Seq<Seq<u8>>
    decreases stream.len(),
{
    if stream.len() < HEADER_SIZE {
        Seq::empty()
    } else {
        let end = HEADER_SIZE + be_value(stream.take(HEADER_SIZE as int));
        if stream.len() < end {
            Seq::empty()
        } else {
            seq![stream.subrange(HEADER_SIZE as int, end)] + deframe(stream.skip(end))
        }
    }
}

/// Every payload fits into the length field.
pub open spec fn all_fit(payloads: Seq<Seq<u8>>) -> bool {
    forall|i: int| 0 <= i < payloads.len() ==> (#[trigger] payloads[i]).len() < LENGTH_SPAN
}

/// Returns `len` as the value of a length field, if it is in the field's span.
pub fn checked_length(len: usize) -> (value: Option<u32>)
    ensures
        match value {
            Some(value) => value == len,
            None => len >= LENGTH_SPAN,
        },
{
    if len as u64 >= LENGTH_SPAN {
        None
    } else {
        Some(len as u32)
    }
}

/// Returns `len` as the value of a length field, reduced to its remainder if
/// it is beyond the field's span.
pub fn wrapped_length(len: usize) -> (value: u32)
    ensures
        value == len as nat % LENGTH_SPAN as nat,
{
    (len as u64 % LENGTH_SPAN) as u32
}

/// Returns the length field for `len`.
pub fn encode_length(len: u32) -> (bytes: [u8; 4])
    ensures
        bytes@ == be_bytes(len as nat),
{
    let bytes = [
        (len / 0x100_0000 % 0x100) as u8,
        (len / 0x1_0000 % 0x100) as u8,
        (len / 0x100 % 0x100) as u8,
        (len % 0x100) as u8,
    ];
    assert(bytes@ =~= be_bytes(len as nat));
    bytes
}

/// Returns the length that a length field spells.
pub fn decode_length(bytes: [u8; 4]) -> (len: u32)
    ensures
        len == be_value(bytes@),
{
    bytes[0] as u32 * 0x100_0000 + bytes[1] as u32 * 0x1_0000 + bytes[2] as u32 * 0x100
        + bytes[3] as u32
}

/// A length field gives back the length it was made from.
pub proof fn law_length_round_trip(len: nat)
    requires
        len < LENGTH_SPAN,
    ensures
        header(len).len() == HEADER_SIZE,
        be_value(header(len)) == len,
{
    let (c, b, a) = (len / 0x100, len / 0x1_0000, len / 0x100_0000);
    assert(len % LENGTH_SPAN as nat == len);
    assert(b == c / 0x100);
    assert(a == b / 0x100);
    assert(a < 0x100);
    assert(len == c * 0x100 + len % 0x100);
    assert(c == b * 0x100 + c % 0x100);
    assert(b == a * 0x100 + b % 0x100);
    let bytes = header(len);
    assert(bytes[0] == a);
    assert(bytes[1] == b % 0x100);
    assert(bytes[2] == c % 0x100);
    assert(bytes[3] == len % 0x100);
}

/// Four bytes are the length field of the number they spell.
pub proof fn law_header_round_trip(bytes: Seq<u8>)
    requires
        bytes.len() == HEADER_SIZE,
    ensures
        be_value(bytes) < LENGTH_SPAN,
        header(be_value(bytes)) == bytes,
{
    let (a, b, c, d) = (bytes[0] as int, bytes[1] as int, bytes[2] as int, bytes[3] as int);
    let value = a * 0x100_0000 + b * 0x1_0000 + c * 0x100 + d;
    assert(value / 0x100 == a * 0x1_0000 + b * 0x100 + c);
    assert(value / 0x1_0000 == a * 0x100 + b);
    assert(value / 0x100_0000 == a);
    assert(value < LENGTH_SPAN);
    assert(value % LENGTH_SPAN as int == value);
    assert(be_bytes(value as nat) =~= bytes);
}

/// Reading back what was framed gives the same payloads in the same order, and
/// whatever follows on the stream is read as if it stood alone.
pub proof fn law_deframe_undoes_frames(payloads: Seq<Seq<u8>>, tail: Seq<u8>)
    requires
        all_fit(payloads),
    ensures
        deframe(frames(payloads) + tail) == payloads + deframe(tail),
    decreases payloads.len(),
{
    let stream = frames(payloads) + tail;
    if payloads.len() == 0 {
        assert(stream =~= tail);
        assert(payloads + deframe(tail) =~= deframe(tail));
    } else {
        let first = payloads.first();
        let rest = payloads.drop_first();
        let rest_stream = frames(rest) + tail;
        law_length_round_trip(first.len());
        assert(stream.take(HEADER_SIZE as int) =~= header(first.len()));
        let end = HEADER_SIZE + first.len();
        assert(stream.subrange(HEADER_SIZE as int, end as int) =~= first);
        assert(stream.skip(end as int) =~= rest_stream);
        law_deframe_undoes_frames(rest, tail);
        assert(seq![first] + (rest + deframe(tail)) =~= payloads + deframe(tail));
    }
}

/// Length fields are ordered as the lengths are: the field of the smaller
/// length has the smaller byte at the first place where the two differ. So the
/// most significant byte comes first.
pub proof fn law_length_fields_keep_the_order(a: nat, b: nat)
    requires
        a < b < LENGTH_SPAN,
    ensures
        exists|i: int|
            {
                &&& 0 <= i < HEADER_SIZE
                &&& (#[trigger] header(a)[i]) < header(b)[i]
                &&& forall|j: int| 0 <= j < i ==> #[trigger] header(a)[j] == header(b)[j]
            },
{
    law_length_round_trip(a);
    law_length_round_trip(b);
    law_header_round_trip(header(a));
    law_header_round_trip(header(b));
    let (x, y) = (header(a), header(b));
    assert(be_value(x) < be_value(y));
    if x[0] != y[0] {
        assert(x[0] < y[0]);
    } else if x[1] != y[1] {
        assert(x[1] < y[1]);
    } else if x[2] != y[2] {
        assert(x[2] < y[2]);
    } else {
        assert(x[3] < y[3]);
    }
}

/// The numbers that four bytes spell are ordered as the bytes are: by the first
/// place where two fields differ.
pub proof fn law_numbers_keep_the_order(x: Seq<u8>, y: Seq<u8>, i: int)
    requires
        x.len() == HEADER_SIZE,
        y.len() == HEADER_SIZE,
        0 <= i < HEADER_SIZE,
        x[i] < y[i],
        forall|j: int| 0 <= j < i ==> x[j] == y[j],
    ensures
        be_value(x) < be_value(y),
{
    if i > 0 {
        assert(x[0] == y[0]);
    }
    if i > 1 {
        assert(x[1] == y[1]);
    }
    if i > 2 {
        assert(x[2] == y[2]);
    }
}

/// A length beyond the span of the field has the field of the length that is
/// shorter by the span.
pub proof fn law_lengths_beyond_the_span_repeat(len: nat)
    ensures
        header(len + LENGTH_SPAN as nat) == header(len),
        header(len).len() == HEADER_SIZE,
{
    assert((len + LENGTH_SPAN as nat) % LENGTH_SPAN as nat == len % LENGTH_SPAN as nat);
}

/// On the stream a payload stands unchanged behind the four bytes of its
/// length field.
pub proof fn law_frame_is_length_then_payload(payload: Seq<u8>)
    ensures
        frame(payload).len() == HEADER_SIZE + payload.len(),
        frame(payload).skip(HEADER_SIZE as int) == payload,
        frame(payload).take(HEADER_SIZE as int) == header(payload.len()),
        payload.len() < LENGTH_SPAN ==> be_value(frame(payload).take(HEADER_SIZE as int))
            == payload.len(),
{
    assert(frame(payload).skip(HEADER_SIZE as int) =~= payload);
    assert(frame(payload).take(HEADER_SIZE as int) =~= header(payload.len()));
    if payload.len() < LENGTH_SPAN {
        law_length_round_trip(payload.len());
    }
}

/// Frames follow each other on the stream, with nothing in between.
pub proof fn law_frames_follow_each_other(a: Seq<Seq<u8>>, b: Seq<Seq<u8>>, payload: Seq<u8>)
    ensures
        frames(a + b) == frames(a) + frames(b),
        frames(seq![payload]) == frame(payload),
        frames(Seq::empty()) == Seq::<u8>::empty(),
    decreases a.len(),
{
    assert(seq![payload].drop_first() =~= Seq::empty());
    assert(frame(payload) + frames(Seq::empty()) =~= frame(payload));
    if a.len() == 0 {
        assert(a + b =~= b);
        assert(frames(a) + frames(b) =~= frames(b));
    } else {
        law_frames_follow_each_other(a.drop_first(), b, payload);
        assert((a + b).drop_first() =~= a.drop_first() + b);
        assert(frames(a + b) =~= frames(a) + frames(b));
    }
}

/// A frame that is cut short holds no payload.
pub proof fn law_cut_frame_holds_no_payload(payload: Seq<u8>, cut: int)
    requires
        payload.len() < LENGTH_SPAN,
        0 <= cut < HEADER_SIZE + payload.len(),
    ensures
        deframe(frame(payload).take(cut)) == Seq::<Seq<u8>>::empty(),
{
    let stream = frame(payload).take(cut);
    if cut >= HEADER_SIZE {
        law_length_round_trip(payload.len());
        assert(stream.take(HEADER_SIZE as int) =~= header(payload.len()));
    }
}

} // verus!
