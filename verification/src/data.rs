//! The decoded representation of wire values: a tagged union holding
//! one scalar or string of any supported kind. Floating-point kinds are
//! carried as their IEEE 754 bit patterns, so the codec stays bit-exact
//! while handling only plain integers.

use vstd::prelude::*;

use vstd::bytes::{
    spec_u16_from_le_bytes, spec_u16_to_le_bytes, spec_u32_from_le_bytes, spec_u32_to_le_bytes,
    spec_u64_from_le_bytes, spec_u64_to_le_bytes, u16_from_le_bytes, u32_from_le_bytes,
    u64_from_le_bytes,
};
use vstd::string::StrSliceExecFns;
use vstd::utf8::encode_utf8;

use crate::convert::{
    i16_of_u16, i32_of_u32, i64_of_u64, i8_of_u8, spec_i16_of_u16, spec_i32_of_u32,
    spec_i64_of_u64, spec_i8_of_u8, spec_u16_of_i16, spec_u32_of_i32, spec_u64_of_i64,
    spec_u8_of_i8,
};
use crate::typedef::{spec_elem_size, DigitalServoDataType};

verus! {

/// One decoded value. The `F32` and `F64` variants hold the IEEE 754
/// bit pattern of the float they stand for.
#[derive(Debug, Clone, PartialEq)]
pub enum DigitalServoPrimitiveData {
    String(String),
    Bool(bool),
    U8(u8),
    U16(u16),
    U32(u32),
    U64(u64),
    I8(i8),
    I16(i16),
    I32(i32),
    I64(i64),
    F32(u32),
    F64(u64),
}

/// The data kind of the active variant.
pub open spec fn spec_kind(v: DigitalServoPrimitiveData) -> DigitalServoDataType {
    match v {
        DigitalServoPrimitiveData::String(_) => DigitalServoDataType::String,
        DigitalServoPrimitiveData::Bool(_) => DigitalServoDataType::Bool,
        DigitalServoPrimitiveData::U8(_) => DigitalServoDataType::U8,
        DigitalServoPrimitiveData::U16(_) => DigitalServoDataType::U16,
        DigitalServoPrimitiveData::U32(_) => DigitalServoDataType::U32,
        DigitalServoPrimitiveData::U64(_) => DigitalServoDataType::U64,
        DigitalServoPrimitiveData::I8(_) => DigitalServoDataType::I8,
        DigitalServoPrimitiveData::I16(_) => DigitalServoDataType::I16,
        DigitalServoPrimitiveData::I32(_) => DigitalServoDataType::I32,
        DigitalServoPrimitiveData::I64(_) => DigitalServoDataType::I64,
        DigitalServoPrimitiveData::F32(_) => DigitalServoDataType::F32,
        DigitalServoPrimitiveData::F64(_) => DigitalServoDataType::F64,
    }
}

/// The characters of a `String` variant; empty for every other variant.
pub open spec fn spec_string_view(v: DigitalServoPrimitiveData) -> Seq<char> {
    match v {
        DigitalServoPrimitiveData::String(s) => s@,
        _ => Seq::empty(),
    }
}

/// The UTF-8 bytes of a `String` variant; empty for every other variant.
pub open spec fn spec_char_bytes(v: DigitalServoPrimitiveData) -> Seq<u8> {
    match v {
        DigitalServoPrimitiveData::String(s) => encode_utf8(s@),
        _ => Seq::empty(),
    }
}

/// The UTF-8 byte length of a `String` variant; 0 for every other variant.
pub open spec fn spec_char_len(v: DigitalServoPrimitiveData) -> nat {
    spec_char_bytes(v).len()
}

/// The boolean a `Bool` variant holds.
pub open spec fn spec_bool_val(v: DigitalServoPrimitiveData) -> bool
    recommends
        v is Bool,
{
    match v {
        DigitalServoPrimitiveData::Bool(b) => b,
        _ => false,
    }
}

/// The booleans a sequence of `Bool` variants holds.
pub open spec fn spec_bools(vs: Seq<DigitalServoPrimitiveData>) -> Seq<bool> {
    vs.map_values(|v: DigitalServoPrimitiveData| spec_bool_val(v))
}

/// The little-endian wire bytes of one element. Signed values
/// contribute their two's-complement bit pattern, floats their IEEE 754
/// bit pattern, strings their UTF-8 bytes. A `Bool` element has no
/// per-element bytes of its own: booleans are bit-packed (see
/// `crate::packing`).
pub open spec fn spec_elem_bytes(v: DigitalServoPrimitiveData) -> Seq<u8> {
    match v {
        DigitalServoPrimitiveData::String(s) => encode_utf8(s@),
        DigitalServoPrimitiveData::Bool(_) => Seq::empty(),
        DigitalServoPrimitiveData::U8(x) => seq![x],
        DigitalServoPrimitiveData::U16(x) => spec_u16_to_le_bytes(x),
        DigitalServoPrimitiveData::U32(x) => spec_u32_to_le_bytes(x),
        DigitalServoPrimitiveData::U64(x) => spec_u64_to_le_bytes(x),
        DigitalServoPrimitiveData::I8(x) => seq![spec_u8_of_i8(x)],
        DigitalServoPrimitiveData::I16(x) => spec_u16_to_le_bytes(spec_u16_of_i16(x)),
        DigitalServoPrimitiveData::I32(x) => spec_u32_to_le_bytes(spec_u32_of_i32(x)),
        DigitalServoPrimitiveData::I64(x) => spec_u64_to_le_bytes(spec_u64_of_i64(x)),
        DigitalServoPrimitiveData::F32(b) => spec_u32_to_le_bytes(b),
        DigitalServoPrimitiveData::F64(b) => spec_u64_to_le_bytes(b),
    }
}

/// Element `m` of a buffer read as packed values of kind `t`: the
/// little-endian value at byte offset `m * width`, wrapped in the
/// matching variant. For `Bool` the buffer holds one byte per element
/// (0 or 1), as `Dict::deserialize` unpacks it. Never used for
/// `String`, whose payload is decoded as one text value.
pub open spec fn spec_buffer_elem(
    t: DigitalServoDataType,
    buffer: Seq<u8>,
    m: int,
) -> DigitalServoPrimitiveData
    recommends
        !(t is String),
{
    match t {
        DigitalServoDataType::String => DigitalServoPrimitiveData::U8(0),
        DigitalServoDataType::Bool => DigitalServoPrimitiveData::Bool(buffer[m] == 1),
        DigitalServoDataType::U8 => DigitalServoPrimitiveData::U8(buffer[m]),
        DigitalServoDataType::U16 => DigitalServoPrimitiveData::U16(
            spec_u16_from_le_bytes(buffer.subrange(2 * m, 2 * m + 2)),
        ),
        DigitalServoDataType::U32 => DigitalServoPrimitiveData::U32(
            spec_u32_from_le_bytes(buffer.subrange(4 * m, 4 * m + 4)),
        ),
        DigitalServoDataType::U64 => DigitalServoPrimitiveData::U64(
            spec_u64_from_le_bytes(buffer.subrange(8 * m, 8 * m + 8)),
        ),
        DigitalServoDataType::I8 => DigitalServoPrimitiveData::I8(spec_i8_of_u8(buffer[m])),
        DigitalServoDataType::I16 => DigitalServoPrimitiveData::I16(
            spec_i16_of_u16(spec_u16_from_le_bytes(buffer.subrange(2 * m, 2 * m + 2))),
        ),
        DigitalServoDataType::I32 => DigitalServoPrimitiveData::I32(
            spec_i32_of_u32(spec_u32_from_le_bytes(buffer.subrange(4 * m, 4 * m + 4))),
        ),
        DigitalServoDataType::I64 => DigitalServoPrimitiveData::I64(
            spec_i64_of_u64(spec_u64_from_le_bytes(buffer.subrange(8 * m, 8 * m + 8))),
        ),
        DigitalServoDataType::F32 => DigitalServoPrimitiveData::F32(
            spec_u32_from_le_bytes(buffer.subrange(4 * m, 4 * m + 4)),
        ),
        DigitalServoDataType::F64 => DigitalServoPrimitiveData::F64(
            spec_u64_from_le_bytes(buffer.subrange(8 * m, 8 * m + 8)),
        ),
    }
}

/// Copies `b[start..end]` into a fresh vector.
pub fn copy_range(b: &[u8], start: usize, end: usize) -> (out: Vec<u8>)
    requires
        start <= end <= b@.len(),
    ensures
        out@ == b@.subrange(start as int, end as int),
{
    let mut out: Vec<u8> = Vec::new();
    let mut i: usize = start;
    while i < end
        invariant
            start <= i <= end <= b@.len(),
            out@.len() == i - start,
            forall|k: int| 0 <= k < out@.len() ==> out@[k] == b@[start + k],
        decreases end - i,
    {
        out.push(b[i]);
        i = i + 1;
    }
    assert(out@ =~= b@.subrange(start as int, end as int));
    out
}

/// Appends all of `src` to `dst`.
pub fn push_bytes(dst: &mut Vec<u8>, src: &[u8])
    ensures
        final(dst)@ == old(dst)@ + src@,
{
    let mut i: usize = 0;
    while i < src.len()
        invariant
            i <= src@.len(),
            dst@ == old(dst)@ + src@.subrange(0, i as int),
        decreases src@.len() - i,
    {
        proof {
            assert(old(dst)@ + src@.subrange(0, i + 1) =~= (old(dst)@ + src@.subrange(0, i as int)).push(
                src@[i as int],
            ));
        }
        dst.push(src[i]);
        i = i + 1;
    }
    proof {
        assert(src@.subrange(0, src@.len() as int) =~= src@);
    }
}

impl DigitalServoPrimitiveData {
    /// Reads `len` packed elements of kind `data_type` from the start
    /// of `buffer` and wraps each in the matching variant. The caller
    /// guarantees the buffer holds at least `len` elements; for `Bool`
    /// the buffer holds one byte per element, each 0 or 1.
    pub fn vec_from_buffer(
        data_type: &DigitalServoDataType,
        buffer: &[u8],
        len: usize,
    ) -> (values: Vec<Self>)
        requires
            !(*data_type is String),
            len * spec_elem_size(*data_type) <= buffer@.len(),
        ensures
            values@.len() == len,
            forall|m: int|
                0 <= m < len ==> values@[m] == spec_buffer_elem(*data_type, buffer@, m),
    {
        let buf_len: usize = buffer.len();
        let mut values: Vec<Self> = Vec::new();
        let mut m: usize = 0;
        while m < len
            invariant
                m <= len,
                !(*data_type is String),
                len * spec_elem_size(*data_type) <= buffer@.len(),
                buffer@.len() == buf_len,
                values@.len() == m,
                forall|k: int|
                    0 <= k < m ==> values@[k] == spec_buffer_elem(*data_type, buffer@, k),
            decreases len - m,
        {
            proof {
                assert((m + 1) * spec_elem_size(*data_type) <= len * spec_elem_size(*data_type))
                    by (nonlinear_arith)
                    requires
                        m + 1 <= len,
                        spec_elem_size(*data_type) >= 0,
                ;
            }
            match data_type {
                DigitalServoDataType::String => {
                    proof {
                        assert(false);
                    }
                },
                DigitalServoDataType::Bool => {
                    values.push(Self::Bool(buffer[m] == 1));
                },
                DigitalServoDataType::U8 => {
                    values.push(Self::U8(buffer[m]));
                },
                DigitalServoDataType::I8 => {
                    values.push(Self::I8(i8_of_u8(buffer[m])));
                },
                DigitalServoDataType::U16 => {
                    let chunk = copy_range(buffer, 2 * m, 2 * m + 2);
                    values.push(Self::U16(u16_from_le_bytes(chunk.as_slice())));
                },
                DigitalServoDataType::I16 => {
                    let chunk = copy_range(buffer, 2 * m, 2 * m + 2);
                    values.push(Self::I16(i16_of_u16(u16_from_le_bytes(chunk.as_slice()))));
                },
                DigitalServoDataType::U32 => {
                    let chunk = copy_range(buffer, 4 * m, 4 * m + 4);
                    values.push(Self::U32(u32_from_le_bytes(chunk.as_slice())));
                },
                DigitalServoDataType::I32 => {
                    let chunk = copy_range(buffer, 4 * m, 4 * m + 4);
                    values.push(Self::I32(i32_of_u32(u32_from_le_bytes(chunk.as_slice()))));
                },
                DigitalServoDataType::F32 => {
                    let chunk = copy_range(buffer, 4 * m, 4 * m + 4);
                    values.push(Self::F32(u32_from_le_bytes(chunk.as_slice())));
                },
                DigitalServoDataType::U64 => {
                    let chunk = copy_range(buffer, 8 * m, 8 * m + 8);
                    values.push(Self::U64(u64_from_le_bytes(chunk.as_slice())));
                },
                DigitalServoDataType::I64 => {
                    let chunk = copy_range(buffer, 8 * m, 8 * m + 8);
                    values.push(Self::I64(i64_of_u64(u64_from_le_bytes(chunk.as_slice()))));
                },
                DigitalServoDataType::F64 => {
                    let chunk = copy_range(buffer, 8 * m, 8 * m + 8);
                    values.push(Self::F64(u64_from_le_bytes(chunk.as_slice())));
                },
            }
            m = m + 1;
        }
        values
    }

    /// The UTF-8 byte length of a `String` variant, 0 for any other.
    pub fn get_char_len(&self) -> (n: usize)
        ensures
            n == spec_char_len(*self),
    {
        let buf = self.get_char_buffer();
        buf.len()
    }

    /// The UTF-8 bytes of a `String` variant, empty for any other.
    pub fn get_char_buffer(&self) -> (buf: Vec<u8>)
        ensures
            buf@ == spec_char_bytes(*self),
    {
        match self {
            Self::String(x) => x.as_str().as_bytes_vec(),
            _ => Vec::new(),
        }
    }
}

impl From<String> for DigitalServoPrimitiveData {
    fn from(val: String) -> (r: Self) {
        Self::String(val)
    }
}

impl vstd::std_specs::convert::FromSpecImpl<String> for DigitalServoPrimitiveData {
    open spec fn obeys_from_spec() -> bool {
        true
    }

    open spec fn from_spec(val: String) -> Self {
        Self::String(val)
    }
}

impl From<bool> for DigitalServoPrimitiveData {
    fn from(val: bool) -> (r: Self) {
        Self::Bool(val)
    }
}

impl vstd::std_specs::convert::FromSpecImpl<bool> for DigitalServoPrimitiveData {
    open spec fn obeys_from_spec() -> bool {
        true
    }

    open spec fn from_spec(val: bool) -> Self {
        Self::Bool(val)
    }
}

impl From<u8> for DigitalServoPrimitiveData {
    fn from(val: u8) -> (r: Self) {
        Self::U8(val)
    }
}

impl vstd::std_specs::convert::FromSpecImpl<u8> for DigitalServoPrimitiveData {
    open spec fn obeys_from_spec() -> bool {
        true
    }

    open spec fn from_spec(val: u8) -> Self {
        Self::U8(val)
    }
}

impl From<u16> for DigitalServoPrimitiveData {
    fn from(val: u16) -> (r: Self) {
        Self::U16(val)
    }
}

impl vstd::std_specs::convert::FromSpecImpl<u16> for DigitalServoPrimitiveData {
    open spec fn obeys_from_spec() -> bool {
        true
    }

    open spec fn from_spec(val: u16) -> Self {
        Self::U16(val)
    }
}

impl From<u32> for DigitalServoPrimitiveData {
    fn from(val: u32) -> (r: Self) {
        Self::U32(val)
    }
}

impl vstd::std_specs::convert::FromSpecImpl<u32> for DigitalServoPrimitiveData {
    open spec fn obeys_from_spec() -> bool {
        true
    }

    open spec fn from_spec(val: u32) -> Self {
        Self::U32(val)
    }
}

impl From<u64> for DigitalServoPrimitiveData {
    fn from(val: u64) -> (r: Self) {
        Self::U64(val)
    }
}

impl vstd::std_specs::convert::FromSpecImpl<u64> for DigitalServoPrimitiveData {
    open spec fn obeys_from_spec() -> bool {
        true
    }

    open spec fn from_spec(val: u64) -> Self {
        Self::U64(val)
    }
}

impl From<i8> for DigitalServoPrimitiveData {
    fn from(val: i8) -> (r: Self) {
        Self::I8(val)
    }
}

impl vstd::std_specs::convert::FromSpecImpl<i8> for DigitalServoPrimitiveData {
    open spec fn obeys_from_spec() -> bool {
        true
    }

    open spec fn from_spec(val: i8) -> Self {
        Self::I8(val)
    }
}

impl From<i16> for DigitalServoPrimitiveData {
    fn from(val: i16) -> (r: Self) {
        Self::I16(val)
    }
}

impl vstd::std_specs::convert::FromSpecImpl<i16> for DigitalServoPrimitiveData {
    open spec fn obeys_from_spec() -> bool {
        true
    }

    open spec fn from_spec(val: i16) -> Self {
        Self::I16(val)
    }
}

impl From<i32> for DigitalServoPrimitiveData {
    fn from(val: i32) -> (r: Self) {
        Self::I32(val)
    }
}

impl vstd::std_specs::convert::FromSpecImpl<i32> for DigitalServoPrimitiveData {
    open spec fn obeys_from_spec() -> bool {
        true
    }

    open spec fn from_spec(val: i32) -> Self {
        Self::I32(val)
    }
}

impl From<i64> for DigitalServoPrimitiveData {
    fn from(val: i64) -> (r: Self) {
        Self::I64(val)
    }
}

impl vstd::std_specs::convert::FromSpecImpl<i64> for DigitalServoPrimitiveData {
    open spec fn obeys_from_spec() -> bool {
        true
    }

    open spec fn from_spec(val: i64) -> Self {
        Self::I64(val)
    }
}

} // verus!
