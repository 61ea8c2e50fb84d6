//! The dictionary-entry codec. One entry on the wire is, in order:
//! a one-byte key length, the key's UTF-8 bytes, a one-byte type code,
//! a one-byte element count (the byte length of the text for the
//! `String` kind), and the packed value payload.

use vstd::prelude::*;

use vstd::bytes::{
    lemma_auto_spec_u16_to_from_le_bytes, lemma_auto_spec_u32_to_from_le_bytes,
    lemma_auto_spec_u64_to_from_le_bytes, u16_to_le_bytes, u32_to_le_bytes, u64_to_le_bytes,
};
use vstd::slice::{slice_index_get, slice_subrange};
use vstd::string::StrSliceExecFns;
use vstd::utf8::{
    decode_utf8, encode_utf8, encode_utf8_decode_utf8, encode_utf8_valid_utf8, valid_utf8,
};

use crate::convert::{lemma_sign_pattern_round_trip, u16_of_i16, u32_of_i32, u64_of_i64, u8_of_i8};
use crate::data::{
    push_bytes, spec_bool_val, spec_bools, spec_buffer_elem, spec_char_bytes, spec_char_len,
    spec_elem_bytes, spec_kind, spec_string_view, DigitalServoPrimitiveData,
};
use crate::error::CodecError;
use crate::packing::{
    lemma_bool_payload_bit, pack_bits, spec_bit_at, spec_bool_payload, spec_chunk_end,
};
use crate::typedef::{
    spec_elem_size, spec_kind_of, spec_payload_size, spec_type_code, DigitalServoDataType,
};

verus! {

/// One decoded dictionary entry: a key and a homogeneous sequence of
/// values.
#[derive(Debug, Clone)]
pub struct Dict {
    pub key: String,
    pub value: Vec<DigitalServoPrimitiveData>,
}

/// The entry invariant: every value has the entry's kind, and a
/// `String` entry holds exactly one value.
pub open spec fn spec_entry_wf(t: DigitalServoDataType, vs: Seq<DigitalServoPrimitiveData>) -> bool {
    &&& forall|i: int| 0 <= i < vs.len() ==> spec_kind(#[trigger] vs[i]) == t
    &&& t is String ==> vs.len() == 1
}

/// The value that goes into the count field: the element count, except
/// for the `String` kind, where it is the byte length of the single
/// string.
pub open spec fn spec_count(t: DigitalServoDataType, vs: Seq<DigitalServoPrimitiveData>) -> nat {
    if t is String {
        spec_char_len(vs[0])
    } else {
        vs.len()
    }
}

/// The payload of a fixed-width numeric entry: each element's
/// little-endian bytes, concatenated in order.
pub open spec fn spec_numeric_payload(vs: Seq<DigitalServoPrimitiveData>) -> Seq<u8>
    decreases vs.len(),
{
    if vs.len() == 0 {
        Seq::empty()
    } else {
        spec_numeric_payload(vs.drop_last()) + spec_elem_bytes(vs.last())
    }
}

/// The payload bytes of an entry.
pub open spec fn spec_payload(t: DigitalServoDataType, vs: Seq<DigitalServoPrimitiveData>) -> Seq<
    u8,
>
    recommends
        spec_entry_wf(t, vs),
{
    match t {
        DigitalServoDataType::String => spec_char_bytes(vs[0]),
        DigitalServoDataType::Bool => spec_bool_payload(spec_bools(vs)),
        _ => spec_numeric_payload(vs),
    }
}

/// The complete wire bytes of an entry.
pub open spec fn spec_encode_entry(
    key_bytes: Seq<u8>,
    t: DigitalServoDataType,
    vs: Seq<DigitalServoPrimitiveData>,
) -> Seq<u8>
    recommends
        spec_entry_wf(t, vs),
        key_bytes.len() <= 255,
        spec_count(t, vs) <= 255,
{
    seq![key_bytes.len() as u8] + key_bytes + seq![spec_type_code(t)] + seq![
        (spec_count(t, vs) as u8),
    ] + spec_payload(t, vs)
}

/// The type-code byte of a buffer that starts with an entry.
pub open spec fn spec_code_at(b: Seq<u8>) -> u8
    recommends
        b.len() >= 2 + b[0],
{
    b[1 + b[0]]
}

/// The count field of a buffer that starts with an entry.
pub open spec fn spec_count_at(b: Seq<u8>) -> nat
    recommends
        b.len() >= 3 + b[0],
{
    b[2 + b[0]] as nat
}

/// The kind the type-code byte names.
pub open spec fn spec_parsed_kind(b: Seq<u8>) -> DigitalServoDataType
    recommends
        spec_kind_of(spec_code_at(b)) is Some,
{
    match spec_kind_of(spec_code_at(b)) {
        Some(t) => t,
        None => DigitalServoDataType::U8,
    }
}

/// The total byte length of the entry a buffer starts with: framing
/// plus payload. A caller walking a multi-entry stream advances by this
/// much.
pub open spec fn spec_consumed(b: Seq<u8>) -> int {
    3 + b[0] + spec_payload_size(spec_parsed_kind(b), spec_count_at(b))
}

/// Whether a buffer starts with one complete, decodable entry.
pub open spec fn spec_parse_ok(b: Seq<u8>) -> bool {
    &&& b.len() >= 1
    &&& b.len() >= 2 + b[0]
    &&& spec_kind_of(spec_code_at(b)) is Some
    &&& b.len() >= 3 + b[0]
    &&& b.len() >= spec_consumed(b)
}

/// The error decoding reports, staged as decoding reads the buffer:
/// a missing key, code, count, or payload byte is a truncation; a code
/// byte outside the defined set is an unknown type code.
pub open spec fn spec_parse_err(b: Seq<u8>) -> CodecError
    recommends
        !spec_parse_ok(b),
{
    if b.len() < 1 {
        CodecError::TruncatedBuffer
    } else if b.len() < 2 + b[0] {
        CodecError::TruncatedBuffer
    } else if spec_kind_of(spec_code_at(b)) is None {
        CodecError::UnknownTypeCode
    } else {
        CodecError::TruncatedBuffer
    }
}

/// The key bytes of a buffer that starts with an entry.
pub open spec fn spec_key_bytes(b: Seq<u8>) -> Seq<u8>
    recommends
        b.len() >= 1 + b[0],
{
    b.subrange(1, 1 + b[0])
}

/// The payload bytes of a buffer that starts with an entry.
pub open spec fn spec_payload_bytes(b: Seq<u8>) -> Seq<u8>
    recommends
        spec_parse_ok(b),
{
    b.subrange(3 + b[0], spec_consumed(b))
}

/// Element `m` as decoding reconstructs it from the payload: for `Bool`
/// the bit at position `m` of the bit-packed payload, for the numeric
/// kinds the little-endian value at byte offset `m * width`.
pub open spec fn spec_decoded_elem(
    t: DigitalServoDataType,
    payload: Seq<u8>,
    m: int,
) -> DigitalServoPrimitiveData
    recommends
        !(t is String),
{
    if t is Bool {
        DigitalServoPrimitiveData::Bool(spec_bit_at(payload[m / 8], (m % 8) as nat))
    } else {
        spec_buffer_elem(t, payload, m)
    }
}

/// The wire bytes of one non-string, non-bool element are exactly as
/// wide as its kind.
pub proof fn lemma_elem_bytes_len(v: DigitalServoPrimitiveData)
    requires
        !(spec_kind(v) is String),
        !(spec_kind(v) is Bool),
    ensures
        spec_elem_bytes(v).len() == spec_elem_size(spec_kind(v)),
{
    lemma_auto_spec_u16_to_from_le_bytes();
    lemma_auto_spec_u32_to_from_le_bytes();
    lemma_auto_spec_u64_to_from_le_bytes();
}

/// A numeric payload is element count times element width bytes long.
pub proof fn lemma_numeric_payload_len(t: DigitalServoDataType, vs: Seq<DigitalServoPrimitiveData>)
    requires
        spec_entry_wf(t, vs),
        !(t is String),
        !(t is Bool),
    ensures
        spec_numeric_payload(vs).len() == vs.len() * spec_elem_size(t),
    decreases vs.len(),
{
    if vs.len() == 0 {
    } else {
        assert(spec_entry_wf(t, vs.drop_last()));
        lemma_numeric_payload_len(t, vs.drop_last());
        lemma_elem_bytes_len(vs.last());
        assert((vs.len() - 1) * spec_elem_size(t) + spec_elem_size(t) == vs.len() * spec_elem_size(
            t,
        )) by (nonlinear_arith);
    }
}

/// Element `m` of a numeric payload occupies bytes `m * width` up to
/// `(m + 1) * width`, and they are exactly its wire bytes.
pub proof fn lemma_numeric_payload_index(
    t: DigitalServoDataType,
    vs: Seq<DigitalServoPrimitiveData>,
    m: int,
)
    requires
        spec_entry_wf(t, vs),
        !(t is String),
        !(t is Bool),
        0 <= m < vs.len(),
    ensures
        spec_numeric_payload(vs).subrange(
            m * spec_elem_size(t),
            m * spec_elem_size(t) + spec_elem_size(t),
        ) == spec_elem_bytes(vs[m]),
    decreases vs.len(),
{
    let w = spec_elem_size(t) as int;
    let pl = spec_numeric_payload(vs);
    let prefix = spec_numeric_payload(vs.drop_last());
    assert(spec_entry_wf(t, vs.drop_last()));
    lemma_numeric_payload_len(t, vs.drop_last());
    lemma_elem_bytes_len(vs.last());
    if m == vs.len() - 1 {
        assert(pl.subrange(m * w, m * w + w) =~= spec_elem_bytes(vs.last())) by {
            assert(m * w == prefix.len());
        }
    } else {
        lemma_numeric_payload_index(t, vs.drop_last(), m);
        assert((m + 1) * w <= (vs.len() - 1) * w) by (nonlinear_arith)
            requires
                m + 1 <= vs.len() - 1,
                w >= 0,
        ;
        assert(m * w + w == (m + 1) * w) by (nonlinear_arith);
        assert(pl.subrange(m * w, m * w + w) =~= prefix.subrange(m * w, m * w + w));
        assert(vs.drop_last()[m] == vs[m]);
    }
}

/// Decoding undoes encoding for one numeric element: reading back the
/// little-endian bytes at offset `m * width` gives element `m`.
pub proof fn lemma_numeric_elem_round_trip(
    t: DigitalServoDataType,
    vs: Seq<DigitalServoPrimitiveData>,
    m: int,
)
    requires
        spec_entry_wf(t, vs),
        !(t is String),
        !(t is Bool),
        0 <= m < vs.len(),
    ensures
        spec_buffer_elem(t, spec_numeric_payload(vs), m) == vs[m],
{
    let w = spec_elem_size(t) as int;
    let pl = spec_numeric_payload(vs);
    lemma_numeric_payload_len(t, vs);
    lemma_numeric_payload_index(t, vs, m);
    lemma_elem_bytes_len(vs[m]);
    lemma_auto_spec_u16_to_from_le_bytes();
    lemma_auto_spec_u32_to_from_le_bytes();
    lemma_auto_spec_u64_to_from_le_bytes();
    lemma_sign_pattern_round_trip();
    assert((m + 1) * w <= vs.len() * w) by (nonlinear_arith)
        requires
            m + 1 <= vs.len(),
            w >= 0,
    ;
    assert(m * w + w == (m + 1) * w) by (nonlinear_arith);
    if t is U8 || t is I8 {
        assert(m * 1 == m);
        assert(pl[m] == pl.subrange(m * 1, m * 1 + 1)[0]);
    }
}

/// The payload is exactly as long as the type model says it is:
/// `payload_size(kind, count)` bytes.
pub proof fn lemma_payload_len(t: DigitalServoDataType, vs: Seq<DigitalServoPrimitiveData>)
    requires
        spec_entry_wf(t, vs),
    ensures
        spec_payload(t, vs).len() == spec_payload_size(t, spec_count(t, vs)),
{
    if t is String {
    } else if t is Bool {
        assert(spec_bools(vs).len() == vs.len());
    } else {
        lemma_numeric_payload_len(t, vs);
    }
}

/// Bool packing boundary: up to eight booleans pack into one byte,
/// nine into two, and with exactly nine the second byte is 1 or 0 as
/// the ninth element is true or false — its seven high bits are zero.
pub proof fn lemma_bool_packing_boundary(bs: Seq<bool>)
    requires
        bs.len() >= 1,
    ensures
        bs.len() <= 8 ==> spec_bool_payload(bs).len() == 1,
        9 <= bs.len() <= 16 ==> spec_bool_payload(bs).len() == 2,
        bs.len() == 9 ==> spec_bool_payload(bs)[1] == (if bs[8] {
            1u8
        } else {
            0u8
        }),
{
    if bs.len() == 9 {
        let chunk = bs.subrange(8, 9);
        assert(spec_bool_payload(bs)[1] == pack_bits(chunk));
        assert(chunk.drop_last() =~= Seq::<bool>::empty());
        assert(pack_bits(Seq::<bool>::empty()) == 0u8);
        assert(chunk.last() == bs[8]);
        assert(0u8 | (1u8 << 0u8) == 1u8) by (bit_vector);
        assert(0u8 | 0u8 == 0u8) by (bit_vector);
    }
}

/// Round trip: the wire bytes of any well-formed entry (with key and
/// count in range) parse back to the same key bytes, kind, count, and
/// payload, and the payload decodes element by element to the original
/// values. A string payload is valid UTF-8 and decodes to the original
/// characters.
pub proof fn lemma_entry_round_trip(
    key_bytes: Seq<u8>,
    data_type: DigitalServoDataType,
    vs: Seq<DigitalServoPrimitiveData>,
)
    requires
        spec_entry_wf(data_type, vs),
        key_bytes.len() <= 255,
        spec_count(data_type, vs) <= 255,
    ensures
        ({
            let b = spec_encode_entry(key_bytes, data_type, vs);
            &&& spec_parse_ok(b)
            &&& spec_key_bytes(b) == key_bytes
            &&& spec_kind_of(spec_code_at(b)) == Some(data_type)
            &&& spec_parsed_kind(b) == data_type
            &&& spec_count_at(b) == spec_count(data_type, vs)
            &&& spec_payload_bytes(b) == spec_payload(data_type, vs)
            &&& spec_consumed(b) == b.len()
            &&& !(data_type is String) ==> forall|m: int|
                0 <= m < vs.len() ==> spec_decoded_elem(
                    data_type,
                    spec_payload_bytes(b),
                    m,
                ) == vs[m]
            &&& data_type is String ==> valid_utf8(spec_payload_bytes(b)) && decode_utf8(
                spec_payload_bytes(b),
            ) == spec_string_view(vs[0])
        }),
{
    let b = spec_encode_entry(key_bytes, data_type, vs);
    let pl = spec_payload(data_type, vs);
    let kl = key_bytes.len() as int;
    crate::typedef::lemma_type_code_bijection();
    lemma_payload_len(data_type, vs);
    assert(b.len() == 3 + kl + pl.len());
    assert(b[0] == key_bytes.len() as u8);
    assert(spec_code_at(b) == spec_type_code(data_type));
    assert(spec_count_at(b) == spec_count(data_type, vs));
    assert(spec_key_bytes(b) =~= key_bytes);
    assert(spec_payload_bytes(b) =~= pl);
    assert(spec_parse_ok(b));
    if data_type is String {
        let chars = spec_string_view(vs[0]);
        encode_utf8_valid_utf8(chars);
        encode_utf8_decode_utf8(chars);
    } else if data_type is Bool {
        let bs = spec_bools(vs);
        assert forall|m: int| 0 <= m < vs.len() implies spec_decoded_elem(data_type, pl, m)
            == vs[m] by {
            lemma_bool_payload_bit(bs, m as nat);
            assert(bs[m] == spec_bool_val(vs[m]));
        }
    } else {
        assert forall|m: int| 0 <= m < vs.len() implies spec_decoded_elem(data_type, pl, m)
            == vs[m] by {
            lemma_numeric_elem_round_trip(data_type, vs, m);
        }
    }
}

/// Encodes an entry and decodes the result, witnessing the round-trip
/// law at the level of the executable entry points: whenever encoding
/// succeeds, decoding returns the same key and, for every kind but
/// `String`, exactly the same value sequence; a `String` entry comes
/// back as one string with the same characters.
pub fn encode_then_decode(
    key: &str,
    data_type: DigitalServoDataType,
    value: &[DigitalServoPrimitiveData],
) -> (r: Result<Dict, CodecError>)
    requires
        spec_entry_wf(data_type, value@),
    ensures
        match r {
            Ok(d) => {
                &&& d.key@ == key@
                &&& !(data_type is String) ==> d.value@ == value@
                &&& data_type is String ==> d.value@.len() == 1 && d.value@[0] is String
                    && spec_string_view(d.value@[0]) == spec_string_view(value@[0])
            },
            Err(e) => {
                &&& e == CodecError::ValueTooLarge
                &&& (encode_utf8(key@).len() > 255 || spec_count(data_type, value@) > 255)
            },
        },
{
    let bytes = match Dict::serialize(key, data_type, value) {
        Ok(bytes) => bytes,
        Err(e) => {
            return Err(e);
        },
    };
    proof {
        lemma_entry_round_trip(encode_utf8(key@), data_type, value@);
    }
    match Dict::deserialize(bytes.as_slice()) {
        Ok(d) => {
            proof {
                if !(data_type is String) {
                    assert(d.value@ =~= value@);
                }
            }
            Ok(d)
        },
        Err(e) => {
            proof {
                assert(false);
            }
            Err(e)
        },
    }
}

/// Appends the wire bytes of one fixed-width element.
fn push_elem_bytes(buffer: &mut Vec<u8>, v: &DigitalServoPrimitiveData)
    requires
        !(spec_kind(*v) is String),
        !(spec_kind(*v) is Bool),
    ensures
        final(buffer)@ == old(buffer)@ + spec_elem_bytes(*v),
{
    match v {
        DigitalServoPrimitiveData::String(_) => {
            proof {
                assert(false);
            }
        },
        DigitalServoPrimitiveData::Bool(_) => {
            proof {
                assert(false);
            }
        },
        DigitalServoPrimitiveData::U8(x) => {
            buffer.push(*x);
            proof {
                assert(buffer@ =~= old(buffer)@ + spec_elem_bytes(*v));
            }
        },
        DigitalServoPrimitiveData::I8(x) => {
            buffer.push(u8_of_i8(*x));
            proof {
                assert(buffer@ =~= old(buffer)@ + spec_elem_bytes(*v));
            }
        },
        DigitalServoPrimitiveData::U16(x) => {
            let bytes = u16_to_le_bytes(*x);
            push_bytes(buffer, bytes.as_slice());
        },
        DigitalServoPrimitiveData::I16(x) => {
            let bytes = u16_to_le_bytes(u16_of_i16(*x));
            push_bytes(buffer, bytes.as_slice());
        },
        DigitalServoPrimitiveData::U32(x) => {
            let bytes = u32_to_le_bytes(*x);
            push_bytes(buffer, bytes.as_slice());
        },
        DigitalServoPrimitiveData::I32(x) => {
            let bytes = u32_to_le_bytes(u32_of_i32(*x));
            push_bytes(buffer, bytes.as_slice());
        },
        DigitalServoPrimitiveData::F32(x) => {
            let bytes = u32_to_le_bytes(*x);
            push_bytes(buffer, bytes.as_slice());
        },
        DigitalServoPrimitiveData::U64(x) => {
            let bytes = u64_to_le_bytes(*x);
            push_bytes(buffer, bytes.as_slice());
        },
        DigitalServoPrimitiveData::I64(x) => {
            let bytes = u64_to_le_bytes(u64_of_i64(*x));
            push_bytes(buffer, bytes.as_slice());
        },
        DigitalServoPrimitiveData::F64(x) => {
            let bytes = u64_to_le_bytes(*x);
            push_bytes(buffer, bytes.as_slice());
        },
    }
}

impl Dict {
    /// Encodes one entry: key framing, type code, count field, payload.
    /// A key longer than 255 bytes, or a count over 255 (elements, or
    /// string bytes for the `String` kind), cannot be framed and is
    /// rejected.
    pub fn serialize(
        key: &str,
        data_type: DigitalServoDataType,
        value: &[DigitalServoPrimitiveData],
    ) -> (r: Result<Vec<u8>, CodecError>)
        requires
            spec_entry_wf(data_type, value@),
        ensures
            match r {
                Ok(buffer) => {
                    &&& encode_utf8(key@).len() <= 255
                    &&& spec_count(data_type, value@) <= 255
                    &&& buffer@ == spec_encode_entry(encode_utf8(key@), data_type, value@)
                    &&& valid_utf8(encode_utf8(key@))
                    &&& decode_utf8(encode_utf8(key@)) == key@
                },
                Err(e) => {
                    &&& e == CodecError::ValueTooLarge
                    &&& (encode_utf8(key@).len() > 255 || spec_count(data_type, value@) > 255)
                },
            },
    {
        let key_buffer = key.as_bytes_vec();
        if key_buffer.len() > 255 {
            return Err(CodecError::ValueTooLarge);
        }
        let value_num: usize = match data_type {
            DigitalServoDataType::String => slice_index_get(value, 0).get_char_len(),
            _ => value.len(),
        };
        if value_num > 255 {
            return Err(CodecError::ValueTooLarge);
        }
        proof {
            encode_utf8_valid_utf8(key@);
            encode_utf8_decode_utf8(key@);
        }

        let mut buffer: Vec<u8> = Vec::new();
        buffer.push(key_buffer.len() as u8);
        push_bytes(&mut buffer, key_buffer.as_slice());
        buffer.push(data_type.into_type_code());
        buffer.push(value_num as u8);
        let ghost header = buffer@;
        proof {
            assert(header =~= seq![(encode_utf8(key@).len() as u8)] + encode_utf8(key@) + seq![
                spec_type_code(data_type),
            ] + seq![(spec_count(data_type, value@) as u8)]);
        }

        match data_type {
            DigitalServoDataType::String => {
                let char_buffer = slice_index_get(value, 0).get_char_buffer();
                push_bytes(&mut buffer, char_buffer.as_slice());
            },
            DigitalServoDataType::Bool => {
                let ghost bs = spec_bools(value@);
                let n = value.len();
                let num_bytes: usize = n / 8 + if n % 8 != 0 {
                    1usize
                } else {
                    0usize
                };
                let mut j: usize = 0;
                while j < num_bytes
                    invariant
                        spec_entry_wf(data_type, value@),
                        data_type is Bool,
                        bs == spec_bools(value@),
                        n == value@.len(),
                        n <= 255,
                        num_bytes == spec_bool_payload(bs).len(),
                        j <= num_bytes,
                        buffer@ == header + spec_bool_payload(bs).take(j as int),
                    decreases num_bytes - j,
                {
                    let chunk_end: usize = if 8 * j + 8 <= n {
                        8 * j + 8
                    } else {
                        n
                    };
                    let mut byte: u8 = 0;
                    let mut t: usize = 8 * j;
                    proof {
                        assert(bs.subrange(8 * j as int, 8 * j as int) =~= Seq::<bool>::empty());
                    }
                    while t < chunk_end
                        invariant
                            spec_entry_wf(data_type, value@),
                            data_type is Bool,
                            bs == spec_bools(value@),
                            n == value@.len(),
                            chunk_end == spec_chunk_end(n as int, j as int),
                            8 * j <= t <= chunk_end <= n,
                            chunk_end <= 8 * j + 8,
                            byte == pack_bits(bs.subrange(8 * j as int, t as int)),
                        decreases chunk_end - t,
                    {
                        let set: bool = match slice_index_get(value, t) {
                            DigitalServoPrimitiveData::Bool(b) => *b,
                            _ => {
                                proof {
                                    assert(false);
                                }
                                false
                            },
                        };
                        proof {
                            let sub1 = bs.subrange(8 * j as int, t + 1);
                            assert(sub1.drop_last() =~= bs.subrange(8 * j as int, t as int));
                            assert(sub1.last() == spec_bool_val(value@[t as int]));
                            assert(byte | 0u8 == byte) by (bit_vector);
                        }
                        if set {
                            byte = byte | (1u8 << ((t - 8 * j) as u8));
                        }
                        t = t + 1;
                    }
                    proof {
                        assert(byte == spec_bool_payload(bs)[j as int]);
                        assert(spec_bool_payload(bs).take(j + 1) =~= spec_bool_payload(bs).take(
                            j as int,
                        ).push(spec_bool_payload(bs)[j as int]));
                    }
                    buffer.push(byte);
                    j = j + 1;
                }
                proof {
                    assert(spec_bool_payload(bs).take(num_bytes as int) =~= spec_bool_payload(bs));
                }
            },
            _ => {
                let mut i: usize = 0;
                while i < value.len()
                    invariant
                        spec_entry_wf(data_type, value@),
                        !(data_type is String),
                        !(data_type is Bool),
                        i <= value@.len(),
                        buffer@ == header + spec_numeric_payload(value@.take(i as int)),
                    decreases value@.len() - i,
                {
                    proof {
                        assert(value@.take(i + 1).drop_last() =~= value@.take(i as int));
                    }
                    push_elem_bytes(&mut buffer, slice_index_get(value, i));
                    i = i + 1;
                }
                proof {
                    assert(value@.take(value@.len() as int) =~= value@);
                }
            },
        }

        proof {
            assert(buffer@ =~= spec_encode_entry(encode_utf8(key@), data_type, value@));
        }
        Ok(buffer)
    }

    /// Decodes one entry from the front of `bytearray`. Trailing bytes
    /// beyond the entry are ignored; a buffer shorter than the entry's
    /// declared framing or payload is rejected as truncated, and an
    /// unassigned type-code byte as unknown.
    pub fn deserialize(bytearray: &[u8]) -> (r: Result<Dict, CodecError>)
        ensures
            match r {
                Ok(d) => {
                    let t = spec_parsed_kind(bytearray@);
                    let p = spec_payload_bytes(bytearray@);
                    &&& spec_parse_ok(bytearray@)
                    &&& d.key@ == crate::text::lossy_decode(spec_key_bytes(bytearray@))
                    &&& valid_utf8(spec_key_bytes(bytearray@)) ==> d.key@ == decode_utf8(
                        spec_key_bytes(bytearray@),
                    )
                    &&& spec_entry_wf(t, d.value@)
                    &&& t is String ==> {
                        &&& d.value@.len() == 1
                        &&& spec_string_view(d.value@[0]) == crate::text::lossy_decode(p)
                        &&& valid_utf8(p) ==> spec_string_view(d.value@[0]) == decode_utf8(p)
                    }
                    &&& !(t is String) ==> {
                        &&& d.value@.len() == spec_count_at(bytearray@)
                        &&& forall|m: int|
                            0 <= m < d.value@.len() ==> d.value@[m] == spec_decoded_elem(t, p, m)
                    }
                },
                Err(e) => {
                    &&& !spec_parse_ok(bytearray@)
                    &&& e == spec_parse_err(bytearray@)
                },
            },
    {
        let blen = bytearray.len();
        if blen < 1 {
            return Err(CodecError::TruncatedBuffer);
        }
        let key_len = bytearray[0] as usize;
        if blen < 2 + key_len {
            return Err(CodecError::TruncatedBuffer);
        }
        let key_bytes = slice_subrange(bytearray, 1, 1 + key_len);
        let key = crate::text::utf8_lossy(key_bytes);

        let type_code = bytearray[1 + key_len];
        let data_type = match DigitalServoDataType::try_from_type_code(type_code) {
            Ok(t) => t,
            Err(e) => {
                return Err(e);
            },
        };
        if blen < 3 + key_len {
            return Err(CodecError::TruncatedBuffer);
        }
        let value_num = bytearray[2 + key_len] as usize;
        proof {
            assert(spec_elem_size(data_type) <= 8);
            assert(spec_payload_size(data_type, value_num as nat) <= 255 * 8)
                by (nonlinear_arith)
                requires
                    value_num <= 255,
                    spec_elem_size(data_type) <= 8,
                    spec_payload_size(data_type, value_num as nat) == if data_type is Bool {
                        ((value_num as nat) + 7) / 8
                    } else {
                        (value_num as nat) * spec_elem_size(data_type)
                    },
            ;
        }
        let value_size = data_type.get_datasize(value_num);
        let value_start = 3 + key_len;
        if blen - value_start < value_size {
            return Err(CodecError::TruncatedBuffer);
        }
        let value_bytes = slice_subrange(bytearray, value_start, value_start + value_size);

        let value: Vec<DigitalServoPrimitiveData> = match data_type {
            DigitalServoDataType::String => {
                let s = crate::text::utf8_lossy(value_bytes);
                vec![DigitalServoPrimitiveData::String(s)]
            },
            DigitalServoDataType::Bool => {
                let mut bitbuf: Vec<u8> = Vec::new();
                let mut bj: usize = 0;
                while bj < value_size
                    invariant
                        value_size == value_bytes@.len(),
                        bj <= value_size,
                        bitbuf@.len() == 8 * bj,
                        forall|m: int|
                            0 <= m < bitbuf@.len() ==> bitbuf@[m] == ((value_bytes@[m / 8] >> ((m
                                % 8) as u8)) & 1),
                    decreases value_size - bj,
                {
                    let x = value_bytes[bj];
                    let mut bi: usize = 0;
                    while bi < 8
                        invariant
                            value_size == value_bytes@.len(),
                            bj < value_size,
                            bi <= 8,
                            x == value_bytes@[bj as int],
                            bitbuf@.len() == 8 * bj + bi,
                            forall|m: int|
                                0 <= m < bitbuf@.len() ==> bitbuf@[m] == ((value_bytes@[m / 8] >> ((
                                m % 8) as u8)) & 1),
                        decreases 8 - bi,
                    {
                        proof {
                            assert((8 * bj + bi) / 8 == bj && (8 * bj + bi) % 8 == bi)
                                by (nonlinear_arith)
                                requires
                                    0 <= bi < 8,
                                    0 <= bj,
                            ;
                        }
                        bitbuf.push((x >> (bi as u8)) & 1);
                        bi = bi + 1;
                    }
                    bj = bj + 1;
                }
                proof {
                    assert(value_num <= 8 * ((value_num + 7) / 8));
                }
                DigitalServoPrimitiveData::vec_from_buffer(
                    &data_type,
                    bitbuf.as_slice(),
                    value_num,
                )
            },
            _ => {
                DigitalServoPrimitiveData::vec_from_buffer(&data_type, value_bytes, value_num)
            },
        };

        proof {
            assert(spec_key_bytes(bytearray@) == key_bytes@);
            assert(spec_payload_bytes(bytearray@) == value_bytes@);
        }
        Ok(Dict { key, value })
    }
}

} // verus!
