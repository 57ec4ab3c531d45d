//! stdio frame codec: a 4-byte unsigned big-endian length, then that many bytes
//! of UTF-8 JSON text.
//!
//! A frame is read from a [`FrameCursor`] (bytes already received) and written
//! onto a byte vector. The decoding rule is [`spec_read_frame`]; the encoding
//! rule is [`encode_frame`]; [`lemma_read_after_write`] states that reading a
//! written frame gives the payload back.
//!
//! [`canonical_json`] is the encoding rule for what this side sends: the
//! members of every object sorted by key, no insignificant whitespace. A
//! receiver accepts any well-formed JSON, whatever its key order or spacing.

use vstd::prelude::*;
use vstd::utf8::*;

use crate::json::{
    keys_ordered, lemma_sorted_json_ordered, lemma_sorted_json_stable, sorted_copy, sorted_json, Json,
    JsonView,
};
use crate::text::string_from_utf8;

verus! {

broadcast use vstd::utf8::encode_utf8_decode_utf8, vstd::utf8::encode_utf8_valid_utf8;

/// Hard cap on a single frame payload (8 MiB). Frames larger than this are
/// rejected on both read and write.
pub const MAX_FRAME: usize = 8388608;

/// Error reading or writing a frame.
#[derive(Debug, PartialEq, Eq)]
pub enum FrameError {
    /// Clean end of stream at a frame boundary (zero bytes of a new frame).
    Eof,
    /// Stream ended mid-frame (partial length prefix or partial body).
    Truncated,
    /// Declared or actual payload length exceeds [`MAX_FRAME`].
    TooLarge(usize),
    /// Underlying I/O error, by its message.
    Io(String),
    /// Payload was not valid UTF-8.
    Utf8,
}

/// The four big-endian bytes of `n`.
pub open spec fn be32_bytes(n: u32) -> Seq<u8> {
    seq![(n >> 24u32) as u8, (n >> 16u32) as u8, (n >> 8u32) as u8, n as u8]
}

/// The number that four big-endian bytes denote.
pub open spec fn be32_value(b0: u8, b1: u8, b2: u8, b3: u8) -> u32 {
    ((b0 as u32) << 24u32) | ((b1 as u32) << 16u32) | ((b2 as u32) << 8u32) | (b3 as u32)
}

pub open spec fn header_value(b: Seq<u8>) -> nat {
    be32_value(b[0], b[1], b[2], b[3]) as nat
}

/// A whole frame: length prefix, then the payload bytes.
pub open spec fn encode_frame(payload: Seq<u8>) -> Seq<u8>
    recommends
        payload.len() <= MAX_FRAME,
{
    be32_bytes(payload.len() as u32) + payload
}

/// What reading one frame from `rest` yields, and how many bytes it consumes.
///
/// The end of the stream is `Eof` only when no byte of a new frame is present;
/// a partial length prefix or a short body is `Truncated`.
pub open spec fn spec_read_frame(rest: Seq<u8>) -> (Result<Seq<char>, FrameError>, nat) {
    if rest.len() == 0 {
        (Err(FrameError::Eof), 0)
    } else if rest.len() < 4 {
        (Err(FrameError::Truncated), rest.len())
    } else {
        let n = header_value(rest);
        if n > MAX_FRAME {
            (Err(FrameError::TooLarge(n as usize)), 4)
        } else if rest.len() < 4 + n {
            (Err(FrameError::Truncated), rest.len())
        } else {
            let body = rest.subrange(4, 4 + n as int);
            if valid_utf8(body) {
                (Ok(decode_utf8(body)), 4 + n)
            } else {
                (Err(FrameError::Utf8), 4 + n)
            }
        }
    }
}

/// Bytes received from a peer, with a read position.
pub struct FrameCursor {
    bytes: Vec<u8>,
    pos: usize,
}

impl FrameCursor {
    #[verifier::type_invariant]
    spec fn inv(self) -> bool {
        self.pos <= self.bytes@.len()
    }

    /// The bytes not read yet.
    pub closed spec fn rest(self) -> Seq<u8> {
        self.bytes@.subrange(self.pos as int, self.bytes@.len() as int)
    }

    pub fn new(bytes: Vec<u8>) -> (c: Self)
        ensures
            c.rest() == bytes@,
    {
        let c = FrameCursor { bytes, pos: 0 };
        assert(c.rest() =~= c.bytes@);
        c
    }

    /// Number of bytes not read yet.
    pub fn remaining(&self) -> (n: usize)
        ensures
            n == self.rest().len(),
    {
        proof {
            use_type_invariant(self);
        }
        self.bytes.len() - self.pos
    }
}

proof fn lemma_be32_round_trip(n: u32)
    ensures
        be32_value((n >> 24u32) as u8, (n >> 16u32) as u8, (n >> 8u32) as u8, n as u8) == n,
{
    assert(((((n >> 24u32) as u8) as u32) << 24u32) | ((((n >> 16u32) as u8) as u32) << 16u32)
        | ((((n >> 8u32) as u8) as u32) << 8u32) | ((n as u8) as u32) == n) by (bit_vector);
}

fn be32_of(b0: u8, b1: u8, b2: u8, b3: u8) -> (n: u32)
    ensures
        n == be32_value(b0, b1, b2, b3),
{
    ((b0 as u32) << 24u32) | ((b1 as u32) << 16u32) | ((b2 as u32) << 8u32) | (b3 as u32)
}

/// Read one frame: a 4-byte big-endian length prefix followed by that many
/// UTF-8 bytes. The cursor advances past the bytes that were consumed.
pub fn read_frame(reader: &mut FrameCursor) -> (res: Result<String, FrameError>)
    ensures
        ({
            let (expected, used) = spec_read_frame(old(reader).rest());
            &&& final(reader).rest() == old(reader).rest().subrange(
                used as int,
                old(reader).rest().len() as int,
            )
            &&& match (res, expected) {
                (Ok(s), Ok(chars)) => s@ == chars,
                (Err(e), Err(f)) => e == f,
                _ => false,
            }
        }),
{
    proof {
        use_type_invariant(&*reader);
    }
    let ghost rest0 = reader.rest();
    let avail = reader.bytes.len() - reader.pos;
    let p = reader.pos;
    if avail == 0 {
        proof {
            assert(reader.rest() =~= rest0.subrange(0, rest0.len() as int));
        }
        return Err(FrameError::Eof);
    }
    if avail < 4 {
        reader.pos = reader.bytes.len();
        proof {
            assert(reader.rest() =~= rest0.subrange(rest0.len() as int, rest0.len() as int));
        }
        return Err(FrameError::Truncated);
    }
    let n = be32_of(reader.bytes[p], reader.bytes[p + 1], reader.bytes[p + 2], reader.bytes[p + 3]);
    proof {
        assert(rest0[0] == reader.bytes@[p as int]);
        assert(rest0[1] == reader.bytes@[p + 1]);
        assert(rest0[2] == reader.bytes@[p + 2]);
        assert(rest0[3] == reader.bytes@[p + 3]);
        assert(n as nat == header_value(rest0));
    }
    let len = n as usize;
    if len > MAX_FRAME {
        reader.pos = p + 4;
        proof {
            assert(reader.rest() =~= rest0.subrange(4, rest0.len() as int));
        }
        return Err(FrameError::TooLarge(len));
    }
    if avail - 4 < len {
        reader.pos = reader.bytes.len();
        proof {
            assert(reader.rest() =~= rest0.subrange(rest0.len() as int, rest0.len() as int));
        }
        return Err(FrameError::Truncated);
    }
    let mut body: Vec<u8> = Vec::with_capacity(len);
    let start = p + 4;
    let mut i: usize = 0;
    while i < len
        invariant
            start + len <= reader.bytes.len(),
            body@ == reader.bytes@.subrange(start as int, start + i),
            i <= len,
        decreases len - i,
    {
        body.push(reader.bytes[start + i]);
        i += 1;
        assert(body@ =~= reader.bytes@.subrange(start as int, start + i));
    }
    reader.pos = start + len;
    proof {
        assert(body@ =~= rest0.subrange(4, 4 + len));
        assert(reader.rest() =~= rest0.subrange(4 + len, rest0.len() as int));
    }
    match string_from_utf8(body) {
        Some(s) => Ok(s),
        None => Err(FrameError::Utf8),
    }
}

/// The framed bytes of a payload: length prefix, then the payload itself.
/// Payloads over [`MAX_FRAME`] are rejected before the length is narrowed.
pub fn frame_payload(payload: &str) -> (res: Result<Vec<u8>, FrameError>)
    ensures
        ({
            let bytes = encode_utf8(payload@);
            &&& bytes.len() > MAX_FRAME ==> res == Err::<Vec<u8>, FrameError>(
                FrameError::TooLarge(bytes.len() as usize),
            )
            &&& bytes.len() <= MAX_FRAME ==> (res matches Ok(v) && v@ == encode_frame(bytes))
        }),
{
    let bytes = payload.as_bytes();
    let len = bytes.len();
    if len > MAX_FRAME {
        return Err(FrameError::TooLarge(len));
    }
    let n = len as u32;
    let mut out: Vec<u8> = Vec::with_capacity(4 + len);
    out.push((n >> 24u32) as u8);
    out.push((n >> 16u32) as u8);
    out.push((n >> 8u32) as u8);
    out.push(n as u8);
    let mut i: usize = 0;
    while i < len
        invariant
            len == bytes@.len(),
            out@ == be32_bytes(n) + bytes@.take(i as int),
            i <= len,
        decreases len - i,
    {
        out.push(bytes[i]);
        i += 1;
        assert(out@ =~= be32_bytes(n) + bytes@.take(i as int));
    }
    assert(bytes@.take(len as int) =~= bytes@);
    Ok(out)
}

/// The text `serde_json::to_string` writes for a JSON value: no whitespace,
/// strings escaped, numbers in serde_json's form.
pub uninterp spec fn json_text(v: JsonView) -> Seq<char>;

/// The `serde_json::Value` holding the same JSON value; a number that is
/// neither a `u64` nor an `i64` is read from its text. Nothing is claimed of
/// the result.
#[verifier::external_body]
fn serde_value(v: &Json) -> serde_json::Value {
    match v {
        Json::Null => serde_json::Value::Null,
        Json::Bool(b) => serde_json::Value::Bool(*b),
        Json::PosInt(n) => serde_json::Value::from(*n),
        Json::NegInt(n) => serde_json::Value::from(*n),
        Json::Float(t) => t.parse::<serde_json::Number>().map_or(serde_json::Value::Null, serde_json::Value::Number),
        Json::String(s) => serde_json::Value::String(s.clone()),
        Json::Array(a) => serde_json::Value::Array(a.iter().map(serde_value).collect()),
        Json::Object(m) => serde_json::Value::Object(m.iter().map(|(k, x)| (k.clone(), serde_value(x))).collect()),
    }
}

/// `serde_json::to_string` of a JSON value. Serialising a `serde_json::Value`
/// does not fail; the text is named by [`json_text`] of the value.
#[verifier::external_body]
pub(crate) fn json_to_string(v: &Json) -> (s: String)
    ensures
        s@ == json_text(v@),
{
    serde_json::to_string(&serde_value(v)).unwrap_or_default()
}

/// Canonical JSON: the members of every object, at every depth, sorted by
/// key, then written without insignificant whitespace.
pub fn canonical_json(value: &Json) -> (s: String)
    ensures
        s@ == json_text(sorted_json(value@)),
{
    let sorted = sorted_copy(value);
    json_to_string(&sorted)
}

/// What [`canonical_json`] writes is the text of a value whose objects have
/// their keys in order at every depth, and canonicalising that value again
/// gives the same text.
pub proof fn lemma_canonical_json(v: JsonView)
    ensures
        keys_ordered(sorted_json(v)),
        json_text(sorted_json(sorted_json(v))) == json_text(sorted_json(v)),
{
    lemma_sorted_json_ordered(v);
    lemma_sorted_json_stable(v);
}

/// The framed bytes of a value's canonical JSON, or the error for a payload
/// over [`MAX_FRAME`].
pub open spec fn spec_frame_bytes(v: JsonView) -> Result<Seq<u8>, FrameError> {
    let bytes = encode_utf8(json_text(sorted_json(v)));
    if bytes.len() > MAX_FRAME {
        Err(FrameError::TooLarge(bytes.len() as usize))
    } else {
        Ok(encode_frame(bytes))
    }
}

/// The framed bytes of a value's canonical JSON. A payload over
/// [`MAX_FRAME`] is refused.
pub fn frame_bytes(value: &Json) -> (r: Result<Vec<u8>, FrameError>)
    ensures
        match spec_frame_bytes(value@) {
            Ok(bytes) => r matches Ok(v) && v@ == bytes,
            Err(e) => r == Err::<Vec<u8>, FrameError>(e),
        },
{
    let payload = canonical_json(value);
    frame_payload(payload.as_str())
}

/// Write one frame onto `writer`: length prefix + payload. Payloads larger
/// than [`MAX_FRAME`] are rejected and nothing is written.
pub fn write_frame(writer: &mut Vec<u8>, payload: &str) -> (res: Result<(), FrameError>)
    ensures
        ({
            let bytes = encode_utf8(payload@);
            &&& bytes.len() > MAX_FRAME ==> res == Err::<(), FrameError>(
                FrameError::TooLarge(bytes.len() as usize),
            ) && final(writer)@ == old(writer)@
            &&& bytes.len() <= MAX_FRAME ==> res is Ok && final(writer)@ == old(writer)@
                + encode_frame(bytes)
        }),
{
    match frame_payload(payload) {
        Ok(frame) => {
            let mut i: usize = 0;
            let ghost start = writer@;
            while i < frame.len()
                invariant
                    writer@ == start + frame@.take(i as int),
                    i <= frame@.len(),
                decreases frame@.len() - i,
            {
                writer.push(frame[i]);
                i += 1;
                assert(writer@ =~= start + frame@.take(i as int));
            }
            assert(frame@.take(frame@.len() as int) =~= frame@);
            Ok(())
        },
        Err(e) => Err(e),
    }
}

/// Reading a written frame gives back exactly the payload, and consumes
/// exactly the frame's bytes, whatever follows it.
pub proof fn lemma_read_after_write(payload: Seq<char>, following: Seq<u8>)
    requires
        encode_utf8(payload).len() <= MAX_FRAME,
    ensures
        spec_read_frame(encode_frame(encode_utf8(payload)) + following) == (
            Ok::<Seq<char>, FrameError>(payload),
            (encode_utf8(payload).len() + 4) as nat,
        ),
{
    let bytes = encode_utf8(payload);
    let n = bytes.len() as u32;
    let all = encode_frame(bytes) + following;
    lemma_be32_round_trip(n);
    assert(all[0] == (n >> 24u32) as u8);
    assert(all[1] == (n >> 16u32) as u8);
    assert(all[2] == (n >> 8u32) as u8);
    assert(all[3] == n as u8);
    assert(header_value(all) == bytes.len());
    assert(all.subrange(4, 4 + bytes.len() as int) =~= bytes);
}

/// The end of the stream at a frame boundary is `Eof`, and nothing is consumed.
pub proof fn lemma_empty_stream_is_eof()
    ensures
        spec_read_frame(Seq::<u8>::empty()) == (Err::<Seq<char>, FrameError>(FrameError::Eof), 0nat),
{
}

/// A stream that ends inside a written frame is `Truncated`, never `Eof`.
pub proof fn lemma_cut_frame_is_truncated(payload: Seq<char>, cut: int)
    requires
        encode_utf8(payload).len() <= MAX_FRAME,
        0 < cut < encode_utf8(payload).len() + 4,
    ensures
        spec_read_frame(encode_frame(encode_utf8(payload)).take(cut)).0 == Err::<
            Seq<char>,
            FrameError,
        >(FrameError::Truncated),
{
    let bytes = encode_utf8(payload);
    let n = bytes.len() as u32;
    let part = encode_frame(bytes).take(cut);
    lemma_be32_round_trip(n);
    if cut >= 4 {
        assert(part[0] == (n >> 24u32) as u8);
        assert(part[1] == (n >> 16u32) as u8);
        assert(part[2] == (n >> 8u32) as u8);
        assert(part[3] == n as u8);
        assert(header_value(part) == bytes.len());
    }
}

} // verus!
