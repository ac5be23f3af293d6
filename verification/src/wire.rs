//! The wire format of a message between two peers.
//!
//! A frame is a 4-byte big-endian payload length followed by the payload.
//! The payload is the bincode (1.x, default functions) encoding of the
//! sender's address and the message body: each string as its UTF-8 byte
//! length in 8 little-endian bytes followed by those bytes.
use vstd::prelude::*;
use vstd::slice::slice_subrange;
use vstd::utf8::{decode_utf8, encode_utf8, valid_utf8};

verus! {

/// One message as it travels between peers.
#[derive(Debug, Clone, PartialEq, Eq)]
pub struct WireMessage {
    pub from: String,
    pub body: String,
}

/// Why a frame could not be written or read.
#[derive(Debug, Clone, Copy, PartialEq, Eq, Structural)]
pub enum WireError {
    /// The payload is longer than a 4-byte length can describe.
    TooLarge,
    /// The stream ended inside the payload.
    TruncatedPayload,
    /// The payload is not the encoding of two strings.
    Decode,
}

impl WireError {
    /// What went wrong, as reported to the user.
    pub fn message(&self) -> (s: &'static str)
        ensures
            *self == WireError::TooLarge ==> s@ == "message too large"@,
            *self == WireError::TruncatedPayload ==> s@ == "read message payload"@,
            *self == WireError::Decode ==> s@ == "decode message payload"@,
    {
        match self {
            WireError::TooLarge => "message too large",
            WireError::TruncatedPayload => "read message payload",
            WireError::Decode => "decode message payload",
        }
    }
}

#[verifier::external_type_specification]
#[verifier::external_body]
pub struct ExBincodeErrorKind(bincode::ErrorKind);

/// The 8 little-endian bytes of `n`.
pub open spec fn le_u64_bytes(n: u64) -> Seq<u8> {
    seq![
        n as u8,
        (n >> 8u64) as u8,
        (n >> 16u64) as u8,
        (n >> 24u64) as u8,
        (n >> 32u64) as u8,
        (n >> 40u64) as u8,
        (n >> 48u64) as u8,
        (n >> 56u64) as u8,
    ]
}

/// The little-endian `u64` held in `b[pos..pos + 8]`.
pub open spec fn le_u64_at(b: Seq<u8>, pos: int) -> u64 {
    (b[pos] as u64) | ((b[pos + 1] as u64) << 8u64) | ((b[pos + 2] as u64) << 16u64) | ((b[pos
        + 3] as u64) << 24u64) | ((b[pos + 4] as u64) << 32u64) | ((b[pos + 5] as u64) << 40u64)
        | ((b[pos + 6] as u64) << 48u64) | ((b[pos + 7] as u64) << 56u64)
}

/// How bincode writes one string: its UTF-8 length, then its UTF-8 bytes.
pub open spec fn bincode_str(s: Seq<char>) -> Seq<u8> {
    le_u64_bytes(encode_utf8(s).len() as u64) + encode_utf8(s)
}

/// How bincode writes a pair of strings.
pub open spec fn bincode_pair(a: Seq<char>, b: Seq<char>) -> Seq<u8> {
    bincode_str(a) + bincode_str(b)
}

/// The string that bincode reads at `pos`, and the position after it.
pub open spec fn bincode_str_at(b: Seq<u8>, pos: int) -> Option<(Seq<char>, int)> {
    if 0 <= pos && pos + 8 <= b.len() {
        let end = pos + 8 + le_u64_at(b, pos);
        if end <= b.len() && valid_utf8(b.subrange(pos + 8, end)) {
            Some((decode_utf8(b.subrange(pos + 8, end)), end))
        } else {
            None
        }
    } else {
        None
    }
}

/// The pair of strings that bincode reads from the start of `b` (bytes
/// after the second string are ignored).
pub open spec fn bincode_pair_decoding(b: Seq<u8>) -> Option<(Seq<char>, Seq<char>)> {
    match bincode_str_at(b, 0) {
        Some((first, next)) => match bincode_str_at(b, next) {
            Some((second, _)) => Some((first, second)),
            None => None,
        },
        None => None,
    }
}

/// Calls `bincode::serialize` on the pair `(a, b)`.  With bincode's default
/// functions (fixed-width little-endian integers, no size limit) each string
/// is written as its byte length in 8 bytes followed by its UTF-8 bytes, and
/// serialising into a `Vec` cannot fail.
#[verifier::external_body]
fn bincode_serialize_pair(a: &str, b: &str) -> (r: Result<Vec<u8>, Box<bincode::ErrorKind>>)
    ensures
        r is Ok,
        r.unwrap()@ == bincode_pair(a@, b@),
{
    bincode::serialize(&(a, b))
}

/// Calls `bincode::deserialize` for a pair of strings.  It succeeds exactly
/// when `bytes` starts with two length-prefixed strings whose bytes are
/// valid UTF-8 (trailing bytes are allowed), and then returns them.
#[verifier::external_body]
fn bincode_deserialize_pair(bytes: &[u8]) -> (r: Result<(String, String), Box<bincode::ErrorKind>>)
    ensures
        match bincode_pair_decoding(bytes@) {
            Some((a, b)) => r matches Ok(p) && p.0@ == a && p.1@ == b,
            None => r is Err,
        },
{
    bincode::deserialize::<(String, String)>(bytes)
}

/// The 4 big-endian bytes of `n`.
pub open spec fn be_u32_bytes(n: u32) -> Seq<u8> {
    seq![(n >> 24u32) as u8, (n >> 16u32) as u8, (n >> 8u32) as u8, n as u8]
}

/// The big-endian `u32` held in the first 4 bytes of `b`.
pub open spec fn be_u32_of(b: Seq<u8>) -> u32 {
    ((b[0] as u32) << 24u32) | ((b[1] as u32) << 16u32) | ((b[2] as u32) << 8u32) | (b[3] as u32)
}

/// The payload of a message.
pub open spec fn wire_payload(from: Seq<char>, body: Seq<char>) -> Seq<u8> {
    bincode_pair(from, body)
}

/// The frame of a message whose payload fits a 4-byte length.
pub open spec fn wire_frame(from: Seq<char>, body: Seq<char>) -> Seq<u8> {
    be_u32_bytes(wire_payload(from, body).len() as u32) + wire_payload(from, body)
}

/// What reading one frame from the start of `stream` yields: nothing when
/// the stream ends inside the 4-byte length, an error when it ends inside
/// the payload or the payload does not decode, and otherwise the sender,
/// the body and the length of the frame.
pub open spec fn wire_read(stream: Seq<u8>) -> Result<Option<(Seq<char>, Seq<char>, int)>, WireError> {
    if stream.len() < 4 {
        Ok(None)
    } else {
        let end = 4 + be_u32_of(stream);
        if end > stream.len() {
            Err(WireError::TruncatedPayload)
        } else {
            match bincode_pair_decoding(stream.subrange(4, end)) {
                Some((from, body)) => Ok(Some((from, body, end))),
                None => Err(WireError::Decode),
            }
        }
    }
}

/// The bytes of `n` in big-endian order.
fn be_u32_to_bytes(n: u32) -> (r: [u8; 4])
    ensures
        r@ == be_u32_bytes(n),
{
    let r = [(n >> 24u32) as u8, (n >> 16u32) as u8, (n >> 8u32) as u8, n as u8];
    assert(r@ =~= be_u32_bytes(n));
    r
}

/// The payload length announced by a frame header.
pub fn frame_payload_len(header: &[u8]) -> (n: u32)
    requires
        header@.len() >= 4,
    ensures
        n == be_u32_of(header@),
        n == header@[0] * 16777216 + header@[1] * 65536 + header@[2] * 256 + header@[3],
{
    proof {
        lemma_be_u32_is_big_endian(header@, 0);
    }
    ((header[0] as u32) << 24u32) | ((header[1] as u32) << 16u32) | ((header[2] as u32) << 8u32)
        | (header[3] as u32)
}

/// Encodes `message` as a frame: the payload length in 4 big-endian bytes,
/// then the payload.  Fails with `TooLarge` exactly when the payload is
/// longer than `u32::MAX` bytes.
pub fn write_wire_message(message: &WireMessage) -> (r: Result<Vec<u8>, WireError>)
    ensures
        wire_payload(message.from@, message.body@).len() <= u32::MAX ==> (r matches Ok(bytes)
            && bytes@ == wire_frame(message.from@, message.body@)),
        wire_payload(message.from@, message.body@).len() > u32::MAX ==> r == Err::<
            Vec<u8>,
            WireError,
        >(WireError::TooLarge),
{
    let payload = match bincode_serialize_pair(message.from.as_str(), message.body.as_str()) {
        Ok(p) => p,
        Err(_) => {
            return Err(WireError::TooLarge);
        },
    };
    if payload.len() > 0xffff_ffffusize {
        return Err(WireError::TooLarge);
    }
    let header = be_u32_to_bytes(payload.len() as u32);
    let mut frame: Vec<u8> = Vec::new();
    frame.extend_from_slice(&header);
    frame.extend_from_slice(payload.as_slice());
    assert(frame@ =~= header@ + payload@);
    Ok(frame)
}

/// Decodes a payload into a message.
pub fn decode_wire_payload(payload: &[u8]) -> (r: Result<WireMessage, WireError>)
    ensures
        match bincode_pair_decoding(payload@) {
            Some((from, body)) => r matches Ok(m) && m.from@ == from && m.body@ == body,
            None => r == Err::<WireMessage, WireError>(WireError::Decode),
        },
{
    match bincode_deserialize_pair(payload) {
        Ok((from, body)) => Ok(WireMessage { from, body }),
        Err(_) => Err(WireError::Decode),
    }
}

/// Reads one frame from the start of `stream`, which holds everything the
/// sender wrote until it closed the stream.  Returns the message and the
/// length of its frame; `None` when the stream ends before a full 4-byte
/// length.
pub fn read_wire_message(stream: &[u8]) -> (r: Result<Option<(WireMessage, usize)>, WireError>)
    ensures
        match wire_read(stream@) {
            Ok(None) => r matches Ok(None),
            Ok(Some((from, body, end))) => r matches Ok(Some((m, n))) && m.from@ == from
                && m.body@ == body && n == end,
            Err(e) => r == Err::<Option<(WireMessage, usize)>, WireError>(e),
        },
{
    if stream.len() < 4 {
        return Ok(None);
    }
    let len = frame_payload_len(stream);
    if (len as usize) > stream.len() - 4 {
        return Err(WireError::TruncatedPayload);
    }
    let end = 4 + len as usize;
    let payload = slice_subrange(stream, 4, end);
    match decode_wire_payload(payload) {
        Ok(m) => Ok(Some((m, end))),
        Err(e) => Err(e),
    }
}

/// The 4-byte length is big-endian: the first byte is the most significant
/// one, and the bytes of `n` are its base-256 digits from the highest down.
pub proof fn lemma_be_u32_is_big_endian(b: Seq<u8>, n: u32)
    requires
        b.len() >= 4,
    ensures
        be_u32_of(b) == b[0] * 16777216 + b[1] * 65536 + b[2] * 256 + b[3],
        be_u32_bytes(n).len() == 4,
        be_u32_bytes(n)[0] == n / 16777216,
        be_u32_bytes(n)[1] == (n / 65536) % 256,
        be_u32_bytes(n)[2] == (n / 256) % 256,
        be_u32_bytes(n)[3] == n % 256,
{
    let b0 = b[0];
    let b1 = b[1];
    let b2 = b[2];
    let b3 = b[3];
    assert(((b0 as u32) << 24u32) | ((b1 as u32) << 16u32) | ((b2 as u32) << 8u32) | (b3 as u32)
        == b0 * 16777216 + b1 * 65536 + b2 * 256 + b3) by (bit_vector);
    assert((n >> 24u32) as u8 == n / 16777216) by (bit_vector);
    assert((n >> 16u32) as u8 == (n / 65536) % 256) by (bit_vector);
    assert((n >> 8u32) as u8 == (n / 256) % 256) by (bit_vector);
    assert(n as u8 == n % 256) by (bit_vector);
}

/// The 4 bytes of `be_u32_bytes(n)` read back give `n`.
pub proof fn lemma_be_u32_round_trip(n: u32)
    ensures
        be_u32_of(be_u32_bytes(n)) == n,
{
    let b = be_u32_bytes(n);
    let b0 = b[0];
    let b1 = b[1];
    let b2 = b[2];
    let b3 = b[3];
    assert(b0 == (n >> 24u32) as u8 && b1 == (n >> 16u32) as u8 && b2 == (n >> 8u32) as u8 && b3
        == n as u8);
    assert(((b0 as u32) << 24u32) | ((b1 as u32) << 16u32) | ((b2 as u32) << 8u32) | (b3 as u32)
        == n) by (bit_vector)
        requires
            b0 == (n >> 24u32) as u8,
            b1 == (n >> 16u32) as u8,
            b2 == (n >> 8u32) as u8,
            b3 == n as u8,
    ;
}

/// The 8 bytes of `le_u64_bytes(n)` read back give `n`, wherever they sit.
pub proof fn lemma_le_u64_round_trip(n: u64, pre: Seq<u8>, post: Seq<u8>)
    ensures
        le_u64_at(pre + le_u64_bytes(n) + post, pre.len() as int) == n,
{
    let s = pre + le_u64_bytes(n) + post;
    let p = pre.len() as int;
    let b0 = s[p];
    let b1 = s[p + 1];
    let b2 = s[p + 2];
    let b3 = s[p + 3];
    let b4 = s[p + 4];
    let b5 = s[p + 5];
    let b6 = s[p + 6];
    let b7 = s[p + 7];
    assert(b0 == n as u8 && b1 == (n >> 8u64) as u8 && b2 == (n >> 16u64) as u8 && b3 == (n
        >> 24u64) as u8);
    assert(b4 == (n >> 32u64) as u8 && b5 == (n >> 40u64) as u8 && b6 == (n >> 48u64) as u8
        && b7 == (n >> 56u64) as u8);
    assert((b0 as u64) | ((b1 as u64) << 8u64) | ((b2 as u64) << 16u64) | ((b3 as u64) << 24u64)
        | ((b4 as u64) << 32u64) | ((b5 as u64) << 40u64) | ((b6 as u64) << 48u64) | ((b7 as u64)
        << 56u64) == n) by (bit_vector)
        requires
            b0 == n as u8,
            b1 == (n >> 8u64) as u8,
            b2 == (n >> 16u64) as u8,
            b3 == (n >> 24u64) as u8,
            b4 == (n >> 32u64) as u8,
            b5 == (n >> 40u64) as u8,
            b6 == (n >> 48u64) as u8,
            b7 == (n >> 56u64) as u8,
    ;
}

/// Reading back the encoding of a string, wherever it sits, gives the string
/// and the position just after it.
pub proof fn lemma_bincode_str_round_trip(s: Seq<char>, pre: Seq<u8>, post: Seq<u8>)
    requires
        encode_utf8(s).len() <= u64::MAX,
    ensures
        bincode_str_at(pre + bincode_str(s) + post, pre.len() as int) == Some(
            (s, pre.len() + bincode_str(s).len() as int),
        ),
{
    let e = encode_utf8(s);
    let n = e.len() as u64;
    let all = pre + bincode_str(s) + post;
    let p = pre.len() as int;
    assert(all =~= pre + le_u64_bytes(n) + (e + post));
    lemma_le_u64_round_trip(n, pre, e + post);
    assert(all.subrange(p + 8, p + 8 + n) =~= e);
    vstd::utf8::encode_utf8_valid_utf8(s);
    vstd::utf8::encode_utf8_decode_utf8(s);
}

/// Decoding the encoding of a pair gives the pair back, whatever follows it.
pub proof fn lemma_bincode_pair_round_trip(a: Seq<char>, b: Seq<char>, rest: Seq<u8>)
    requires
        encode_utf8(a).len() <= u64::MAX,
        encode_utf8(b).len() <= u64::MAX,
    ensures
        bincode_pair_decoding(bincode_pair(a, b) + rest) == Some((a, b)),
{
    let all = bincode_pair(a, b) + rest;
    let empty = Seq::<u8>::empty();
    assert(all =~= empty + bincode_str(a) + (bincode_str(b) + rest));
    lemma_bincode_str_round_trip(a, empty, bincode_str(b) + rest);
    assert(all =~= bincode_str(a) + bincode_str(b) + rest);
    lemma_bincode_str_round_trip(b, bincode_str(a), rest);
}

/// A written frame reads back as the same message, whatever the sender
/// writes after it, and the reader learns where the frame ends.
pub proof fn lemma_wire_round_trip(from: Seq<char>, body: Seq<char>, rest: Seq<u8>)
    requires
        wire_payload(from, body).len() <= u32::MAX,
    ensures
        wire_read(wire_frame(from, body) + rest) == Ok::<
            Option<(Seq<char>, Seq<char>, int)>,
            WireError,
        >(Some((from, body, wire_frame(from, body).len() as int))),
{
    let payload = wire_payload(from, body);
    let n = payload.len() as u32;
    let stream = wire_frame(from, body) + rest;
    lemma_be_u32_round_trip(n);
    assert(stream.subrange(0, 4) =~= be_u32_bytes(n));
    assert(be_u32_of(stream) == be_u32_of(be_u32_bytes(n)));
    assert(stream.subrange(4, 4 + n) =~= payload);
    lemma_bincode_pair_round_trip(from, body, Seq::empty());
    assert(payload + Seq::<u8>::empty() =~= payload);
}


/// The frames of the messages `ms` (sender and body each), one after the
/// other.
pub open spec fn wire_frames(ms: Seq<(Seq<char>, Seq<char>)>) -> Seq<u8>
    decreases ms.len(),
{
    if ms.len() == 0 {
        Seq::empty()
    } else {
        wire_frame(ms[0].0, ms[0].1) + wire_frames(ms.drop_first())
    }
}

/// Whether every message of `ms` has a payload that a 4-byte length can
/// describe, so that writing it succeeds.
pub open spec fn all_fit(ms: Seq<(Seq<char>, Seq<char>)>) -> bool {
    forall|i: int| 0 <= i < ms.len() ==> #[trigger] wire_payload(ms[i].0, ms[i].1).len() <= u32::MAX
}

/// The frames of `ms` are the frames of its first `k` messages followed by
/// the frames of the rest.
proof fn lemma_wire_frames_split(ms: Seq<(Seq<char>, Seq<char>)>, k: int)
    requires
        0 <= k <= ms.len(),
    ensures
        wire_frames(ms) == wire_frames(ms.take(k)) + wire_frames(ms.skip(k)),
    decreases k,
{
    if k == 0 {
        assert(ms.take(0) =~= Seq::<(Seq<char>, Seq<char>)>::empty());
        assert(ms.skip(0) =~= ms);
        assert(wire_frames(ms.take(0)) + wire_frames(ms) =~= wire_frames(ms));
    } else {
        let rest = ms.drop_first();
        lemma_wire_frames_split(rest, k - 1);
        assert(ms.take(k).drop_first() =~= rest.take(k - 1));
        assert(ms.take(k)[0] == ms[0]);
        assert(ms.skip(k) =~= rest.skip(k - 1));
        assert(wire_frames(ms.take(k)) == wire_frame(ms[0].0, ms[0].1) + wire_frames(
            rest.take(k - 1),
        ));
        assert(wire_frames(ms) =~= wire_frames(ms.take(k)) + wire_frames(ms.skip(k)));
    }
}

/// A stream holding the frames of the messages `ms`, and nothing after
/// them, reads back message by message: after the first `k` frames (the
/// first `wire_frames(ms.take(k)).len()` bytes) the next read gives message
/// `k` and the length of its frame, and once all are read the next read
/// gives nothing.
pub proof fn lemma_wire_stream_round_trip(ms: Seq<(Seq<char>, Seq<char>)>, k: int)
    requires
        all_fit(ms),
        0 <= k <= ms.len(),
    ensures
        ({
            let stream = wire_frames(ms);
            let rest = stream.subrange(wire_frames(ms.take(k)).len() as int, stream.len() as int);
            if k < ms.len() {
                wire_read(rest) == Ok::<Option<(Seq<char>, Seq<char>, int)>, WireError>(
                    Some((ms[k].0, ms[k].1, wire_frame(ms[k].0, ms[k].1).len() as int)),
                )
            } else {
                wire_read(rest) == Ok::<Option<(Seq<char>, Seq<char>, int)>, WireError>(None)
            }
        }),
{
    lemma_wire_frames_split(ms, k);
    let stream = wire_frames(ms);
    let head = wire_frames(ms.take(k));
    let tail = wire_frames(ms.skip(k));
    assert(stream.subrange(head.len() as int, stream.len() as int) =~= tail);
    if k < ms.len() {
        let m = ms[k];
        assert(ms.skip(k)[0] == m);
        assert(ms.skip(k).drop_first() =~= ms.skip(k + 1));
        assert(wire_payload(m.0, m.1).len() <= u32::MAX);
        lemma_wire_round_trip(m.0, m.1, wire_frames(ms.skip(k + 1)));
    } else {
        assert(ms.skip(k).len() == 0);
        assert(tail.len() == 0);
    }
}

} // verus!
