//! The wire codec: every message travels as one frame, a length field
//! followed by that many bytes of payload. A frame's body is never empty and
//! never longer than `MAX_SIZE`. The payload is the CBOR form of a message;
//! the codec carries it whole and does not look into it.

use crate::varint::{
    encoding, lemma_parse_bounds, lemma_scan_encoding, parse, scan, FieldError, Scan,
    MAX_FIELD_BYTES,
};
use crate::bytes::copy_range;
use core::marker::PhantomData;
use vstd::prelude::*;

verus! {

/// The longest payload a frame may carry: one mebibyte.
pub const MAX_SIZE: usize = 1024 * 1024;

/// The four kinds of failure a caller of the codec tells apart.
#[derive(Clone, Copy, Debug, PartialEq, Eq, Structural)]
pub enum ErrorClass {
    /// The bytes could not be read as what they should be.
    Other,
    /// The input asks for more than the codec accepts.
    Unsupported,
    /// The input ended too early.
    UnexpectedEof,
    /// The payload is not a value of the expected shape.
    InvalidData,
}

/// Why a payload could not be turned into a value.
#[derive(Clone, Copy, Debug, PartialEq, Eq, Structural)]
pub enum CborFailure {
    /// The bytes could not be read.
    Read,
    /// The payload uses a feature that the decoder does not support.
    Unsupported,
    /// The payload ends inside a value.
    Eof,
    /// The payload holds something else than the value expected.
    Invalid,
    /// The payload decoded, and it is not a value of the type it was meant
    /// for: a field is missing, a variant unknown, or an identity or an
    /// address is none.
    Custom,
}

impl CborFailure {
    /// The class a payload failure is reported under.
    pub open spec fn class_spec(self) -> ErrorClass {
        match self {
            CborFailure::Read => ErrorClass::Other,
            CborFailure::Unsupported => ErrorClass::Unsupported,
            CborFailure::Eof => ErrorClass::UnexpectedEof,
            CborFailure::Invalid => ErrorClass::InvalidData,
            CborFailure::Custom => ErrorClass::InvalidData,
        }
    }

    /// The class a payload failure is reported under.
    #[verifier::when_used_as_spec(class_spec)]
    pub fn class(self) -> (c: ErrorClass)
        ensures
            c == self.class_spec(),
    {
        match self {
            CborFailure::Read => ErrorClass::Other,
            CborFailure::Unsupported => ErrorClass::Unsupported,
            CborFailure::Eof => ErrorClass::UnexpectedEof,
            CborFailure::Invalid => ErrorClass::InvalidData,
            CborFailure::Custom => ErrorClass::InvalidData,
        }
    }
}

/// Why the codec refused its input.
#[derive(Clone, Copy, Debug, PartialEq, Eq, Structural)]
pub enum CodecError {
    /// There is no frame: the stream ended before its first byte, or the
    /// frame declares an empty body. This is an end of stream, not a value.
    Empty,
    /// The stream ended inside a frame.
    Truncated,
    /// The stream does not begin with a length field.
    Malformed,
    /// The frame declares a body longer than `MAX_SIZE`.
    TooLarge,
    /// The frame is whole, and its payload is not a message.
    Payload(CborFailure),
}

impl CodecError {
    /// The class this error is reported under.
    pub open spec fn class_spec(self) -> ErrorClass {
        match self {
            CodecError::Empty => ErrorClass::UnexpectedEof,
            CodecError::Truncated => ErrorClass::UnexpectedEof,
            CodecError::Malformed => ErrorClass::Other,
            CodecError::TooLarge => ErrorClass::Unsupported,
            CodecError::Payload(failure) => failure.class_spec(),
        }
    }

    /// The class this error is reported under.
    #[verifier::when_used_as_spec(class_spec)]
    pub fn class(self) -> (c: ErrorClass)
        ensures
            c == self.class_spec(),
    {
        match self {
            CodecError::Empty => ErrorClass::UnexpectedEof,
            CodecError::Truncated => ErrorClass::UnexpectedEof,
            CodecError::Malformed => ErrorClass::Other,
            CodecError::TooLarge => ErrorClass::Unsupported,
            CodecError::Payload(failure) => failure.class(),
        }
    }
}

/// The frame that carries `payload`.
pub open spec fn frame(payload: Seq<u8>) -> Seq<u8> {
    encoding(payload.len()) + payload
}

/// Whether `payload` may travel in a frame.
pub open spec fn fits(payload: Seq<u8>) -> bool {
    0 < payload.len() <= MAX_SIZE
}

/// What a reader takes from the front of `stream`: the payload of the first
/// frame, or the reason why there is none. Bytes behind the frame are left
/// alone.
pub open spec fn unframe(stream: Seq<u8>) -> Result<Seq<u8>, CodecError> {
    if stream.len() == 0 {
        Err(CodecError::Empty)
    } else {
        match scan(stream) {
            Scan::Incomplete => Err(CodecError::Truncated),
            Scan::Invalid => Err(CodecError::Malformed),
            Scan::Value { value, used } => if value == 0 {
                Err(CodecError::Empty)
            } else if value > MAX_SIZE {
                Err(CodecError::TooLarge)
            } else if stream.len() < used + value {
                Err(CodecError::Truncated)
            } else {
                Ok(stream.subrange(used as int, (used + value) as int))
            },
        }
    }
}

/// How many more bytes a reader that holds `stream` so far is to take from
/// the stream: one while the length field is not whole, then what the body
/// still lacks, and none when the frame is whole or refused.
pub open spec fn missing(stream: Seq<u8>) -> nat {
    match scan(stream) {
        Scan::Incomplete => 1,
        Scan::Invalid => 0,
        Scan::Value { value, used } => if 0 < value <= MAX_SIZE && stream.len() < used + value {
            (used + value - stream.len()) as nat
        } else {
            0
        },
    }
}

/// What `write_frame` returns for `payload`.
pub open spec fn framed(payload: Seq<u8>) -> Result<Seq<u8>, CodecError> {
    if payload.len() == 0 {
        Err(CodecError::Empty)
    } else if payload.len() > MAX_SIZE {
        Err(CodecError::TooLarge)
    } else {
        Ok(frame(payload))
    }
}

/// Whether `r` holds what `s` says.
pub open spec fn same_bytes(r: Result<Vec<u8>, CodecError>, s: Result<Seq<u8>, CodecError>) -> bool {
    match s {
        Ok(bytes) => r is Ok && r->Ok_0@ == bytes,
        Err(e) => r == Err::<Vec<u8>, CodecError>(e),
    }
}

/// Takes the payload of the first frame of `stream`.
pub fn read_frame(stream: &[u8]) -> (r: Result<Vec<u8>, CodecError>)
    ensures
        same_bytes(r, unframe(stream@)),
{
    if stream.len() == 0 {
        return Err(CodecError::Empty);
    }
    proof {
        lemma_parse_bounds(stream@, MAX_FIELD_BYTES as nat);
    }
    match crate::varint::read(stream) {
        Err(FieldError::Incomplete) => Err(CodecError::Truncated),
        Err(FieldError::Invalid) => Err(CodecError::Malformed),
        Ok((declared, used)) => {
            if declared == 0 {
                Err(CodecError::Empty)
            } else if declared > MAX_SIZE as u64 {
                Err(CodecError::TooLarge)
            } else if ((stream.len() - used) as u64) < declared {
                Err(CodecError::Truncated)
            } else {
                Ok(copy_range(stream, used, used + declared as usize))
            }
        },
    }
}

/// How many more bytes a reader that holds `stream` so far is to take. A
/// reader that takes no more than this never reads past the frame, and when
/// nothing is missing, `read_frame` has all it needs.
pub fn wanted(stream: &[u8]) -> (n: usize)
    ensures
        n == missing(stream@),
{
    proof {
        lemma_parse_bounds(stream@, MAX_FIELD_BYTES as nat);
    }
    match crate::varint::read(stream) {
        Err(FieldError::Incomplete) => 1,
        Err(FieldError::Invalid) => 0,
        Ok((declared, used)) => {
            if declared == 0 || declared > MAX_SIZE as u64 {
                0
            } else {
                let end: usize = used + declared as usize;
                if stream.len() < end {
                    end - stream.len()
                } else {
                    0
                }
            }
        },
    }
}

/// Puts `payload` into a frame.
pub fn write_frame(payload: &[u8]) -> (r: Result<Vec<u8>, CodecError>)
    ensures
        same_bytes(r, framed(payload@)),
{
    if payload.len() == 0 {
        return Err(CodecError::Empty);
    }
    if payload.len() > MAX_SIZE {
        return Err(CodecError::TooLarge);
    }
    let mut out: Vec<u8> = crate::varint::write(payload.len() as u64);
    let ghost head = out@;
    let mut i: usize = 0;
    while i < payload.len()
        invariant
            i <= payload.len(),
            out@ == head + payload@.subrange(0, i as int),
        decreases payload.len() - i,
    {
        out.push(payload[i]);
        i = i + 1;
        assert(out@ =~= head + payload@.subrange(0, i as int));
    }
    assert(payload@.subrange(0, i as int) =~= payload@);
    Ok(out)
}

/// The length-prefixed codec of the request/response protocol, for requests
/// of type `Req` and responses of type `Resp`. It keeps nothing between
/// calls: each call reads or writes one frame.
pub struct LpCbor<Req, Resp> {
    pub phantom: PhantomData<(Req, Resp)>,
}

impl<Req, Resp> Default for LpCbor<Req, Resp> {
    fn default() -> (r: Self)
        ensures
            r == (LpCbor::<Req, Resp> { phantom: PhantomData }),
    {
        Self { phantom: PhantomData }
    }
}

impl<Req, Resp> Clone for LpCbor<Req, Resp> {
    fn clone(&self) -> (r: Self)
        ensures
            r == *self,
    {
        Self { phantom: PhantomData }
    }
}

impl<Req, Resp> LpCbor<Req, Resp> {
    /// Takes the payload of a request from the bytes that a stream
    /// delivered.
    pub fn read_request(&self, stream: &[u8]) -> (r: Result<Vec<u8>, CodecError>)
        ensures
            same_bytes(r, unframe(stream@)),
    {
        read_frame(stream)
    }

    /// Takes the payload of a response from the bytes that a stream
    /// delivered.
    pub fn read_response(&self, stream: &[u8]) -> (r: Result<Vec<u8>, CodecError>)
        ensures
            same_bytes(r, unframe(stream@)),
    {
        read_frame(stream)
    }

    /// The bytes to send for a request whose payload is `payload`.
    pub fn write_request(&self, payload: &[u8]) -> (r: Result<Vec<u8>, CodecError>)
        ensures
            same_bytes(r, framed(payload@)),
    {
        write_frame(payload)
    }

    /// The bytes to send for a response whose payload is `payload`.
    pub fn write_response(&self, payload: &[u8]) -> (r: Result<Vec<u8>, CodecError>)
        ensures
            same_bytes(r, framed(payload@)),
    {
        write_frame(payload)
    }
}

/// Round trip: the frame written for a payload, with anything behind it,
/// reads back as that payload.
pub proof fn lemma_round_trip(payload: Seq<u8>, tail: Seq<u8>)
    requires
        fits(payload),
    ensures
        framed(payload) == Ok::<Seq<u8>, CodecError>(frame(payload)),
        unframe(frame(payload) + tail) == Ok::<Seq<u8>, CodecError>(payload),
{
    let n = payload.len();
    let stream = frame(payload) + tail;
    assert(stream =~= encoding(n) + (payload + tail));
    lemma_scan_encoding(n, payload + tail);
    let used = encoding(n).len();
    assert(stream.subrange(used as int, (used + n) as int) =~= payload);
}

/// A proper prefix of an encoding, as long as it leaves room, reads as
/// incomplete.
proof fn lemma_parse_cut(n: nat, k: nat, room: nat)
    requires
        k < encoding(n).len() <= room,
    ensures
        parse(encoding(n).subrange(0, k as int), room) == Scan::Incomplete,
    decreases n,
{
    let cut = encoding(n).subrange(0, k as int);
    if k > 0 {
        assert(n >= 128);
        assert(cut.skip(1) =~= encoding(n / 128).subrange(0, k - 1));
        lemma_parse_cut(n / 128, (k - 1) as nat, (room - 1) as nat);
    }
}

/// Truncation: a stream that ends inside a frame whose body may travel,
/// after at least one byte, is refused as truncated.
pub proof fn lemma_truncated(payload: Seq<u8>, k: nat)
    requires
        fits(payload),
        0 < k < frame(payload).len(),
    ensures
        unframe(frame(payload).subrange(0, k as int)) == Err::<Seq<u8>, CodecError>(
            CodecError::Truncated,
        ),
{
    let n = payload.len();
    let head = encoding(n);
    let stream = frame(payload).subrange(0, k as int);
    lemma_scan_encoding(n, Seq::<u8>::empty());
    if k < head.len() {
        assert(stream =~= head.subrange(0, k as int));
        lemma_parse_cut(n, k, MAX_FIELD_BYTES as nat);
    } else {
        let rest = payload.subrange(0, k - head.len());
        assert(stream =~= head + rest);
        lemma_scan_encoding(n, rest);
    }
}

/// End of stream: the empty stream is refused as empty, which is not the
/// answer to a frame cut short.
pub proof fn lemma_empty_stream(stream: Seq<u8>)
    requires
        stream.len() == 0,
    ensures
        unframe(stream) == Err::<Seq<u8>, CodecError>(CodecError::Empty),
        CodecError::Empty != CodecError::Truncated,
{
}

/// Ceiling: a stream whose length field declares more than `MAX_SIZE` is
/// refused as too large, whatever follows the field, and no payload is
/// handed on.
pub proof fn lemma_too_large(declared: nat, rest: Seq<u8>)
    requires
        MAX_SIZE < declared <= u64::MAX,
    ensures
        unframe(encoding(declared) + rest) == Err::<Seq<u8>, CodecError>(CodecError::TooLarge),
{
    lemma_scan_encoding(declared, rest);
}

/// Ceiling, for every stream: where the length field denotes more than
/// `MAX_SIZE`, the stream is refused, as too large or, where the number does
/// not fit 64 bits, as malformed.
pub proof fn lemma_oversize_refused(stream: Seq<u8>)
    requires
        parse(stream, MAX_FIELD_BYTES as nat) matches Scan::Value { value, .. } && value > MAX_SIZE,
    ensures
        unframe(stream) == Err::<Seq<u8>, CodecError>(CodecError::TooLarge) || unframe(stream)
            == Err::<Seq<u8>, CodecError>(CodecError::Malformed),
{
    lemma_parse_bounds(stream, MAX_FIELD_BYTES as nat);
}

/// A length field that is whole or refused stays what it is, whatever
/// follows.
proof fn lemma_parse_stable(bytes: Seq<u8>, tail: Seq<u8>, room: nat)
    requires
        !(parse(bytes, room) is Incomplete),
    ensures
        parse(bytes + tail, room) == parse(bytes, room),
    decreases room,
{
    if room > 0 && bytes.len() > 0 && bytes[0] >= 128 {
        assert((bytes + tail).skip(1) =~= bytes.skip(1) + tail);
        lemma_parse_stable(bytes.skip(1), tail, (room - 1) as nat);
    }
}

/// A length field is read from the bytes it occupies alone.
proof fn lemma_parse_take(bytes: Seq<u8>, room: nat)
    ensures
        parse(bytes, room) matches Scan::Value { value, used } ==> parse(
            bytes.take(used as int),
            room,
        ) == parse(bytes, room),
    decreases room,
{
    if room > 0 && bytes.len() > 0 && bytes[0] >= 128 {
        lemma_parse_take(bytes.skip(1), (room - 1) as nat);
        lemma_parse_bounds(bytes.skip(1), (room - 1) as nat);
        if let Scan::Value { value, used } = parse(bytes.skip(1), (room - 1) as nat) {
            assert(bytes.take(used as int + 1).skip(1) =~= bytes.skip(1).take(used as int));
        }
    }
}

/// While something is missing, the stream so far is no frame: it is empty
/// or cut short.
pub proof fn lemma_missing_is_short(stream: Seq<u8>)
    requires
        missing(stream) > 0,
    ensures
        unframe(stream) == Err::<Seq<u8>, CodecError>(
            if stream.len() == 0 {
                CodecError::Empty
            } else {
                CodecError::Truncated
            },
        ),
{
}

/// When nothing is missing, what follows in the stream changes nothing: the
/// reader has the frame, or the reason why there is none.
pub proof fn lemma_nothing_missing(stream: Seq<u8>, tail: Seq<u8>)
    requires
        missing(stream) == 0,
    ensures
        unframe(stream + tail) == unframe(stream),
{
    lemma_parse_stable(stream, tail, MAX_FIELD_BYTES as nat);
    lemma_parse_bounds(stream, MAX_FIELD_BYTES as nat);
    if let Scan::Value { value, used } = scan(stream) {
        if 0 < value <= MAX_SIZE {
            assert((stream + tail).subrange(used as int, (used + value) as int) =~= stream.subrange(
                used as int,
                (used + value) as int,
            ));
        }
    }
}

/// A reader that takes no more than is missing never reads past the frame:
/// what follows the frame stays in the stream.
pub proof fn lemma_within_frame(stream: Seq<u8>, more: Seq<u8>)
    requires
        0 < more.len() <= missing(stream),
    ensures
        scan(stream + more) matches Scan::Value { value, used } ==> (stream + more).len() <= used
            + value,
{
    let all = stream + more;
    let room = MAX_FIELD_BYTES as nat;
    if parse(stream, room) is Incomplete {
        if let Scan::Value { value, used } = parse(all, room) {
            lemma_parse_bounds(all, room);
            if used <= stream.len() {
                lemma_parse_take(all, room);
                assert(all.take(used as int) =~= stream.take(used as int));
                lemma_parse_stable(stream.take(used as int), stream.skip(used as int), room);
                assert(stream.take(used as int) + stream.skip(used as int) =~= stream);
            }
        }
    } else {
        lemma_parse_stable(stream, more, room);
    }
}

/// Whatever a stream holds, a payload that is handed on fits a frame and
/// stands whole in the stream, behind a length field that declares its
/// length.
pub proof fn lemma_unframe_sound(stream: Seq<u8>)
    ensures
        unframe(stream) matches Ok(payload) ==> fits(payload) && exists|used: nat|
            1 <= used <= MAX_FIELD_BYTES && used + payload.len() <= stream.len()
                && #[trigger] stream.subrange(0, used as int) == encoding(payload.len())
                && stream.subrange(used as int, (used + payload.len()) as int) == payload,
{
    if let Ok(payload) = unframe(stream) {
        lemma_parse_bounds(stream, MAX_FIELD_BYTES as nat);
        crate::varint::lemma_parse_canonical(stream, MAX_FIELD_BYTES as nat);
        if let Scan::Value { value, used } = scan(stream) {
            assert(stream.subrange(0, used as int) == encoding(payload.len()));
        }
    }
}

} // verus!
