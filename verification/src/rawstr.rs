//! The standalone length-prefixed string codec: one length byte
//! followed by that many bytes of UTF-8 text. It shares nothing with
//! the dictionary-entry format beyond the length-prefix idiom.

use vstd::prelude::*;

use vstd::string::StrSliceExecFns;
use vstd::utf8::{decode_utf8, encode_utf8, encode_utf8_decode_utf8, encode_utf8_valid_utf8, valid_utf8};

use crate::data::{copy_range, push_bytes};
use crate::error::CodecError;
use crate::text::{lossy_decode, utf8_lossy};

verus! {

/// A bare decoded string.
#[derive(Debug)]
pub struct Str {
    pub value: String,
}

/// The wire bytes of a string: its UTF-8 byte length, then its UTF-8
/// bytes.
pub open spec fn spec_encode_str(chars: Seq<char>) -> Seq<u8> {
    seq![encode_utf8(chars).len() as u8] + encode_utf8(chars)
}

/// Whether a buffer starts with a complete length-prefixed string:
/// a length byte, then at least that many bytes.
pub open spec fn spec_str_parse_ok(b: Seq<u8>) -> bool {
    b.len() >= 1 && b.len() >= 1 + b[0]
}

/// The text bytes a length-prefixed string buffer carries.
pub open spec fn spec_str_body(b: Seq<u8>) -> Seq<u8>
    recommends
        spec_str_parse_ok(b),
{
    b.subrange(1, 1 + b[0])
}

impl Str {
    /// Encodes `value` as one length byte followed by its UTF-8 bytes.
    /// A string longer than 255 bytes cannot be length-prefixed and is
    /// rejected.
    pub fn serialize(value: &str) -> (r: Result<Vec<u8>, CodecError>)
        ensures
            match r {
                Ok(buffer) => {
                    &&& encode_utf8(value@).len() <= 255
                    &&& buffer@ == spec_encode_str(value@)
                    &&& buffer@.len() == 1 + encode_utf8(value@).len()
                },
                Err(e) => {
                    &&& e == CodecError::ValueTooLarge
                    &&& encode_utf8(value@).len() > 255
                },
            },
    {
        let str_buffer = value.as_bytes_vec();
        let str_size = str_buffer.len();
        if str_size > 255 {
            return Err(CodecError::ValueTooLarge);
        }
        let mut buffer: Vec<u8> = Vec::new();
        buffer.push(str_size as u8);
        push_bytes(&mut buffer, str_buffer.as_slice());
        proof {
            assert(buffer@ =~= spec_encode_str(value@));
        }
        Ok(buffer)
    }

    /// Decodes a length-prefixed string from the front of `bytearray`.
    /// Trailing bytes beyond the declared length are ignored; a buffer
    /// shorter than the declared length is rejected.
    pub fn deserialize(bytearray: &[u8]) -> (r: Result<Str, CodecError>)
        ensures
            match r {
                Ok(s) => {
                    &&& spec_str_parse_ok(bytearray@)
                    &&& s.value@ == lossy_decode(spec_str_body(bytearray@))
                    &&& valid_utf8(spec_str_body(bytearray@)) ==> s.value@ == decode_utf8(
                        spec_str_body(bytearray@),
                    )
                },
                Err(e) => {
                    &&& e == CodecError::TruncatedBuffer
                    &&& !spec_str_parse_ok(bytearray@)
                },
            },
    {
        if bytearray.len() < 1 {
            return Err(CodecError::TruncatedBuffer);
        }
        let str_qty = bytearray[0] as usize;
        if bytearray.len() < 1 + str_qty {
            return Err(CodecError::TruncatedBuffer);
        }
        let body = copy_range(bytearray, 1, 1 + str_qty);
        let string = utf8_lossy(body.as_slice());
        Ok(Str { value: string })
    }
}

/// Encodes a string and decodes the result, witnessing the round-trip
/// law at the level of the executable entry points: whenever encoding
/// succeeds, decoding returns the same characters.
pub fn encode_then_decode_str(value: &str) -> (r: Result<Str, CodecError>)
    ensures
        match r {
            Ok(s) => s.value@ == value@,
            Err(e) => e == CodecError::ValueTooLarge && encode_utf8(value@).len() > 255,
        },
{
    let bytes = match Str::serialize(value) {
        Ok(bytes) => bytes,
        Err(e) => {
            return Err(e);
        },
    };
    proof {
        lemma_str_round_trip(value@);
    }
    match Str::deserialize(bytes.as_slice()) {
        Ok(s) => Ok(s),
        Err(e) => {
            proof {
                assert(false);
            }
            Err(e)
        },
    }
}

/// Round trip: any string short enough to encode is recovered exactly
/// by decoding, because the encoded body is valid UTF-8 and UTF-8
/// decoding inverts UTF-8 encoding.
pub proof fn lemma_str_round_trip(chars: Seq<char>)
    requires
        encode_utf8(chars).len() <= 255,
    ensures
        spec_str_parse_ok(spec_encode_str(chars)),
        spec_str_body(spec_encode_str(chars)) == encode_utf8(chars),
        valid_utf8(encode_utf8(chars)),
        decode_utf8(encode_utf8(chars)) == chars,
{
    encode_utf8_valid_utf8(chars);
    encode_utf8_decode_utf8(chars);
    assert(spec_str_body(spec_encode_str(chars)) =~= encode_utf8(chars));
}

} // verus!
