use vstd::prelude::*;

use crate::error::AlliumError;

verus! {

/// What one byte can mean inside UTF-8, with its payload bits.
#[derive(Debug, Clone, Copy, PartialEq, Eq)]
pub enum UTF8Byte {
    OneByte(u8),
    TwoByte(u8),
    ThreeByte(u8),
    FourByte(u8),
    Continuation(u8),
    Invalid(u8),
}

/// The meaning of a byte: its role in a sequence and the bits it carries.
pub open spec fn classify(b: u8) -> UTF8Byte {
    if b < 0x80 {
        UTF8Byte::OneByte(b)
    } else if b < 0xC0 {
        UTF8Byte::Continuation((b - 0x80) as u8)
    } else if b < 0xE0 {
        UTF8Byte::TwoByte((b - 0xC0) as u8)
    } else if b < 0xF0 {
        UTF8Byte::ThreeByte((b - 0xE0) as u8)
    } else if b < 0xF8 {
        UTF8Byte::FourByte((b - 0xF0) as u8)
    } else {
        UTF8Byte::Invalid(b)
    }
}

/// The byte that carries a classified payload.
pub open spec fn unclassify(u: UTF8Byte) -> u8 {
    match u {
        UTF8Byte::OneByte(v) => (v % 0x80) as u8,
        UTF8Byte::TwoByte(v) => (0xC0 + v % 0x20) as u8,
        UTF8Byte::ThreeByte(v) => (0xE0 + v % 0x10) as u8,
        UTF8Byte::FourByte(v) => (0xF0 + v % 0x08) as u8,
        UTF8Byte::Continuation(v) => (0x80 + v % 0x40) as u8,
        UTF8Byte::Invalid(v) => v,
    }
}

impl From<u8> for UTF8Byte {
    fn from(value: u8) -> (r: UTF8Byte) {
        if value < 0x80 {
            UTF8Byte::OneByte(value)
        } else if value < 0xC0 {
            UTF8Byte::Continuation(value - 0x80)
        } else if value < 0xE0 {
            UTF8Byte::TwoByte(value - 0xC0)
        } else if value < 0xF0 {
            UTF8Byte::ThreeByte(value - 0xE0)
        } else if value < 0xF8 {
            UTF8Byte::FourByte(value - 0xF0)
        } else {
            UTF8Byte::Invalid(value)
        }
    }
}

impl vstd::std_specs::convert::FromSpecImpl<u8> for UTF8Byte {
    open spec fn obeys_from_spec() -> bool {
        true
    }

    open spec fn from_spec(v: u8) -> UTF8Byte {
        classify(v)
    }
}

impl From<UTF8Byte> for u8 {
    fn from(value: UTF8Byte) -> (r: u8) {
        match value {
            UTF8Byte::OneByte(v) => v % 0x80,
            UTF8Byte::TwoByte(v) => 0xC0 + v % 0x20,
            UTF8Byte::ThreeByte(v) => 0xE0 + v % 0x10,
            UTF8Byte::FourByte(v) => 0xF0 + v % 0x08,
            UTF8Byte::Continuation(v) => 0x80 + v % 0x40,
            UTF8Byte::Invalid(v) => v,
        }
    }
}

impl vstd::std_specs::convert::FromSpecImpl<UTF8Byte> for u8 {
    open spec fn obeys_from_spec() -> bool {
        true
    }

    open spec fn from_spec(v: UTF8Byte) -> u8 {
        unclassify(v)
    }
}

/// Classifying a byte and turning the result back into a byte gives the byte again.
pub proof fn lemma_classify_round_trip(b: u8)
    ensures
        unclassify(classify(b)) == b,
{
}

/// The length of the sequence that a lead byte starts, or 0 where the byte cannot lead.
pub open spec fn seq_len(b: u8) -> nat {
    if b < 0x80 {
        1
    } else if b < 0xC0 {
        0
    } else if b < 0xE0 {
        2
    } else if b < 0xF0 {
        3
    } else if b < 0xF8 {
        4
    } else {
        0
    }
}

pub open spec fn is_continuation(b: u8) -> bool {
    0x80 <= b < 0xC0
}

/// The payload bits of a lead byte.
pub open spec fn lead_value(b: u8) -> int {
    if b < 0x80 {
        b as int
    } else if b < 0xE0 {
        b - 0xC0
    } else if b < 0xF0 {
        b - 0xE0
    } else {
        b - 0xF0
    }
}

/// The code point held by the first `n` bytes of the sequence at `i`: the lead byte's payload,
/// then six bits for each continuation byte.
pub open spec fn seq_value(bytes: Seq<u8>, i: int, n: int) -> int
    decreases n,
{
    if n <= 1 {
        lead_value(bytes[i])
    } else {
        seq_value(bytes, i, n - 1) * 64 + (bytes[i + n - 1] - 0x80)
    }
}

pub open spec fn continuations_ok(bytes: Seq<u8>, i: int, n: int) -> bool {
    forall|k: int| 1 <= k < n ==> #[trigger] is_continuation(bytes[i + k])
}

pub open spec fn is_scalar(v: int) -> bool {
    0 <= v <= 0x10FFFF && !(0xD800 <= v <= 0xDFFF)
}

/// Decoding the scalar at byte offset `i` of the resident bytes: its encoded length and value,
/// or why there is none. `exhausted` says that the stream will bring no further bytes; while it
/// is false, a request that reaches past the resident bytes is answered with `Pending` and the
/// offset of the first byte that is missing.
pub open spec fn decode_spec(bytes: Seq<u8>, i: int, exhausted: bool) -> Result<(usize, char), AlliumError> {
    if i >= bytes.len() {
        if exhausted {
            Err(AlliumError::Eof)
        } else {
            Err(AlliumError::Pending(bytes.len() as usize))
        }
    } else {
        let n = seq_len(bytes[i]);
        if n == 0 {
            Err(AlliumError::InvalidStartByte(i as usize))
        } else if i + n > bytes.len() {
            if exhausted {
                Err(AlliumError::TruncatedSequence(i as usize))
            } else {
                Err(AlliumError::Pending(bytes.len() as usize))
            }
        } else if !continuations_ok(bytes, i, n as int) {
            Err(AlliumError::BadContinuationByte(i as usize))
        } else {
            let v = seq_value(bytes, i, n as int);
            if 0xD800 <= v <= 0xDFFF {
                Err(AlliumError::SurrogateCodepoint(i as usize))
            } else if v > 0x10FFFF {
                Err(AlliumError::CodepointOutOfRange(i as usize))
            } else {
                Ok((n as usize, v as char))
            }
        }
    }
}

/// Relies on char::from_u32: `Some` exactly for Unicode scalar values, holding that value.
#[verifier::external_body]
fn scalar_of(v: u32) -> (r: Option<char>)
    ensures
        r is Some <==> is_scalar(v as int),
        r is Some ==> r->0 == v as char,
{
    char::from_u32(v)
}

/// Decodes the scalar at byte offset `i` of `bytes`.
pub fn decode_at(bytes: &Vec<u8>, i: usize, exhausted: bool) -> (r: Result<(usize, char), AlliumError>)
    ensures
        r == decode_spec(bytes@, i as int, exhausted),
{
    let len = bytes.len();
    if i >= len {
        return if exhausted {
            Err(AlliumError::Eof)
        } else {
            Err(AlliumError::Pending(len))
        };
    }
    let lead = bytes[i];
    let n: usize = if lead < 0x80 {
        1
    } else if lead < 0xC0 {
        0
    } else if lead < 0xE0 {
        2
    } else if lead < 0xF0 {
        3
    } else if lead < 0xF8 {
        4
    } else {
        0
    };
    if n == 0 {
        return Err(AlliumError::InvalidStartByte(i));
    }
    if n > len - i {
        return if exhausted {
            Err(AlliumError::TruncatedSequence(i))
        } else {
            Err(AlliumError::Pending(len))
        };
    }
    let mut val: u32 = if lead < 0x80 {
        lead as u32
    } else if lead < 0xE0 {
        (lead - 0xC0) as u32
    } else if lead < 0xF0 {
        (lead - 0xE0) as u32
    } else {
        (lead - 0xF0) as u32
    };
    let mut k: usize = 1;
    while k < n
        invariant
            1 <= k <= n <= 4,
            n == seq_len(bytes@[i as int]),
            i + n <= bytes@.len(),
            len == bytes@.len(),
            val as int == seq_value(bytes@, i as int, k as int),
            n >= 2 ==> val < 32 * (if k == 1 {
                1int
            } else if k == 2 {
                64int
            } else if k == 3 {
                4096int
            } else {
                262144int
            }),
            forall|j: int| 1 <= j < k ==> #[trigger] is_continuation(bytes@[i + j]),
        decreases n - k,
    {
        let b = bytes[i + k];
        if b < 0x80 || b >= 0xC0 {
            assert(!is_continuation(bytes@[i + k]));
            return Err(AlliumError::BadContinuationByte(i));
        }
        val = val * 64 + (b - 0x80) as u32;
        k = k + 1;
    }
    assert(continuations_ok(bytes@, i as int, n as int));
    if 0xD800 <= val && val <= 0xDFFF {
        return Err(AlliumError::SurrogateCodepoint(i));
    }
    if val > 0x10FFFF {
        return Err(AlliumError::CodepointOutOfRange(i));
    }
    match scalar_of(val) {
        Some(c) => Ok((n, c)),
        None => Err(AlliumError::SurrogateCodepoint(i)),
    }
}

/// The UTF-8 encoding of one scalar value.
pub open spec fn encode_char(c: char) -> Seq<u8> {
    let v = c as int;
    if v < 0x80 {
        seq![v as u8]
    } else if v < 0x800 {
        seq![(0xC0 + v / 64) as u8, (0x80 + v % 64) as u8]
    } else if v < 0x10000 {
        seq![(0xE0 + v / 4096) as u8, (0x80 + (v / 64) % 64) as u8, (0x80 + v % 64) as u8]
    } else {
        seq![
            (0xF0 + v / 262144) as u8,
            (0x80 + (v / 4096) % 64) as u8,
            (0x80 + (v / 64) % 64) as u8,
            (0x80 + v % 64) as u8,
        ]
    }
}

/// The UTF-8 encoding of a sequence of scalar values.
pub open spec fn encode_str(cs: Seq<char>) -> Seq<u8>
    decreases cs.len(),
{
    if cs.len() == 0 {
        Seq::empty()
    } else {
        encode_char(cs[0]) + encode_str(cs.drop_first())
    }
}

/// Decoding a whole exhausted stream scalar by scalar from its first byte; `None` where some
/// scalar does not decode.
pub open spec fn decode_stream(bytes: Seq<u8>) -> Option<Seq<char>>
    decreases bytes.len(),
{
    if bytes.len() == 0 {
        Some(Seq::empty())
    } else {
        match decode_spec(bytes, 0, true) {
            Ok((n, c)) => if 1 <= n <= bytes.len() {
                match decode_stream(bytes.subrange(n as int, bytes.len() as int)) {
                    Some(rest) => Some(seq![c] + rest),
                    None => None,
                }
            } else {
                None
            },
            Err(_) => None,
        }
    }
}

/// The scalar at the front of an encoded stream decodes to itself, whatever follows it.
pub proof fn lemma_decode_encoded_char(c: char, rest: Seq<u8>, exhausted: bool)
    ensures
        decode_spec(encode_char(c) + rest, 0, exhausted) == Ok::<(usize, char), AlliumError>(
            (encode_char(c).len() as usize, c),
        ),
{
    let v = c as int;
    let e = encode_char(c);
    let bytes = e + rest;
    assert(is_scalar(v));
    if v < 0x80 {
        assert(bytes[0] == v as u8);
        assert(seq_value(bytes, 0, 1) == v);
    } else if v < 0x800 {
        assert(bytes[0] == (0xC0 + v / 64) as u8);
        assert(bytes[1] == (0x80 + v % 64) as u8);
        assert(continuations_ok(bytes, 0, 2));
        assert(seq_value(bytes, 0, 1) == v / 64);
        assert(seq_value(bytes, 0, 2) == v);
    } else if v < 0x10000 {
        assert(bytes[0] == (0xE0 + v / 4096) as u8);
        assert(bytes[1] == (0x80 + (v / 64) % 64) as u8);
        assert(bytes[2] == (0x80 + v % 64) as u8);
        assert(continuations_ok(bytes, 0, 3)) by {
            assert(is_continuation(bytes[1]));
            assert(is_continuation(bytes[2]));
        }
        assert(seq_value(bytes, 0, 1) == v / 4096);
        assert(seq_value(bytes, 0, 2) == v / 64);
        assert(seq_value(bytes, 0, 3) == v);
    } else {
        assert(bytes[0] == (0xF0 + v / 262144) as u8);
        assert(bytes[1] == (0x80 + (v / 4096) % 64) as u8);
        assert(bytes[2] == (0x80 + (v / 64) % 64) as u8);
        assert(bytes[3] == (0x80 + v % 64) as u8);
        assert(continuations_ok(bytes, 0, 4)) by {
            assert(is_continuation(bytes[1]));
            assert(is_continuation(bytes[2]));
            assert(is_continuation(bytes[3]));
        }
        assert(seq_value(bytes, 0, 1) == v / 262144);
        assert(seq_value(bytes, 0, 2) == v / 4096);
        assert(seq_value(bytes, 0, 3) == v / 64);
        assert(seq_value(bytes, 0, 4) == v);
    }
}

/// Round trip: a stream of valid UTF-8 decodes, scalar by scalar, to the scalars it encodes, so
/// encoding what was decoded gives back the same bytes.
pub proof fn lemma_round_trip(cs: Seq<char>)
    ensures
        decode_stream(encode_str(cs)) == Some(cs),
        encode_str(cs) == encode_str(decode_stream(encode_str(cs))->0),
    decreases cs.len(),
{
    if cs.len() > 0 {
        let e = encode_char(cs[0]);
        let tail = encode_str(cs.drop_first());
        let bytes = encode_str(cs);
        assert(bytes == e + tail);
        lemma_decode_encoded_char(cs[0], tail, true);
        assert(bytes.subrange(e.len() as int, bytes.len() as int) == tail);
        lemma_round_trip(cs.drop_first());
        assert(seq![cs[0]] + cs.drop_first() == cs);
    }
}

} // verus!
