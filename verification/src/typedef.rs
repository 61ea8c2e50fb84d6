//! The type model: the closed set of data kinds, their one-byte wire
//! codes, the width of the count field, and the payload size rules.

use vstd::prelude::*;

use crate::error::CodecError;

verus! {

/// The closed set of primitive data kinds the wire format can carry.
#[derive(Clone, Copy, Debug, PartialEq, Eq, Structural)]
pub enum DigitalServoDataType {
    String,
    Bool,
    U8,
    U16,
    U32,
    U64,
    I8,
    I16,
    I32,
    I64,
    F32,
    F64,
}

/// The one-byte wire code of each kind. Code 0x02 is an unassigned gap,
/// preserved for wire compatibility.
pub open spec fn spec_type_code(t: DigitalServoDataType) -> u8 {
    match t {
        DigitalServoDataType::String => 0x01,
        DigitalServoDataType::Bool => 0x03,
        DigitalServoDataType::I64 => 0x04,
        DigitalServoDataType::I32 => 0x05,
        DigitalServoDataType::I16 => 0x06,
        DigitalServoDataType::I8 => 0x07,
        DigitalServoDataType::U64 => 0x08,
        DigitalServoDataType::U32 => 0x09,
        DigitalServoDataType::U16 => 0x0a,
        DigitalServoDataType::U8 => 0x0b,
        DigitalServoDataType::F64 => 0x0c,
        DigitalServoDataType::F32 => 0x0d,
    }
}

/// The inverse of `spec_type_code`: `None` for any byte outside the
/// defined set {0x01, 0x03..0x0d}.
pub open spec fn spec_kind_of(code: u8) -> Option<DigitalServoDataType> {
    match code {
        0x01 => Some(DigitalServoDataType::String),
        0x03 => Some(DigitalServoDataType::Bool),
        0x04 => Some(DigitalServoDataType::I64),
        0x05 => Some(DigitalServoDataType::I32),
        0x06 => Some(DigitalServoDataType::I16),
        0x07 => Some(DigitalServoDataType::I8),
        0x08 => Some(DigitalServoDataType::U64),
        0x09 => Some(DigitalServoDataType::U32),
        0x0a => Some(DigitalServoDataType::U16),
        0x0b => Some(DigitalServoDataType::U8),
        0x0c => Some(DigitalServoDataType::F64),
        0x0d => Some(DigitalServoDataType::F32),
        _ => None,
    }
}

/// Byte width of one element on the wire. `String` elements are single
/// bytes of UTF-8 text; `Bool` elements are bit-packed, so this width
/// does not describe them (see `spec_payload_size`).
pub open spec fn spec_elem_size(t: DigitalServoDataType) -> nat {
    match t {
        DigitalServoDataType::String => 1,
        DigitalServoDataType::Bool => 1,
        DigitalServoDataType::U8 => 1,
        DigitalServoDataType::U16 => 2,
        DigitalServoDataType::U32 => 4,
        DigitalServoDataType::U64 => 8,
        DigitalServoDataType::I8 => 1,
        DigitalServoDataType::I16 => 2,
        DigitalServoDataType::I32 => 4,
        DigitalServoDataType::I64 => 8,
        DigitalServoDataType::F32 => 4,
        DigitalServoDataType::F64 => 8,
    }
}

/// Number of payload bytes that `count` elements of kind `t` occupy:
/// `count * native width` for every kind except `Bool`, whose elements
/// are packed eight to a byte (`ceil(count / 8)`).
pub open spec fn spec_payload_size(t: DigitalServoDataType, count: nat) -> nat {
    if t is Bool {
        (count + 7) / 8
    } else {
        count * spec_elem_size(t)
    }
}

/// Native scalar types that can announce their own data kind.
pub trait IntoDigitalServoDataType {
    fn data_type() -> DigitalServoDataType;
}

impl IntoDigitalServoDataType for String {
    fn data_type() -> (t: DigitalServoDataType)
        ensures
            t == DigitalServoDataType::String,
    {
        DigitalServoDataType::String
    }
}

impl IntoDigitalServoDataType for bool {
    fn data_type() -> (t: DigitalServoDataType)
        ensures
            t == DigitalServoDataType::Bool,
    {
        DigitalServoDataType::Bool
    }
}

impl IntoDigitalServoDataType for i64 {
    fn data_type() -> (t: DigitalServoDataType)
        ensures
            t == DigitalServoDataType::I64,
    {
        DigitalServoDataType::I64
    }
}

impl IntoDigitalServoDataType for i32 {
    fn data_type() -> (t: DigitalServoDataType)
        ensures
            t == DigitalServoDataType::I32,
    {
        DigitalServoDataType::I32
    }
}

impl IntoDigitalServoDataType for i16 {
    fn data_type() -> (t: DigitalServoDataType)
        ensures
            t == DigitalServoDataType::I16,
    {
        DigitalServoDataType::I16
    }
}

impl IntoDigitalServoDataType for i8 {
    fn data_type() -> (t: DigitalServoDataType)
        ensures
            t == DigitalServoDataType::I8,
    {
        DigitalServoDataType::I8
    }
}

impl IntoDigitalServoDataType for u64 {
    fn data_type() -> (t: DigitalServoDataType)
        ensures
            t == DigitalServoDataType::U64,
    {
        DigitalServoDataType::U64
    }
}

impl IntoDigitalServoDataType for u32 {
    fn data_type() -> (t: DigitalServoDataType)
        ensures
            t == DigitalServoDataType::U32,
    {
        DigitalServoDataType::U32
    }
}

impl IntoDigitalServoDataType for u16 {
    fn data_type() -> (t: DigitalServoDataType)
        ensures
            t == DigitalServoDataType::U16,
    {
        DigitalServoDataType::U16
    }
}

impl IntoDigitalServoDataType for u8 {
    fn data_type() -> (t: DigitalServoDataType)
        ensures
            t == DigitalServoDataType::U8,
    {
        DigitalServoDataType::U8
    }
}

impl DigitalServoDataType {
    /// The kind's one-byte wire code.
    pub fn into_type_code(&self) -> (code: u8)
        ensures
            code == spec_type_code(*self),
    {
        match self {
            Self::String => 0x01,
            Self::Bool => 0x03,
            Self::I64 => 0x04,
            Self::I32 => 0x05,
            Self::I16 => 0x06,
            Self::I8 => 0x07,
            Self::U64 => 0x08,
            Self::U32 => 0x09,
            Self::U16 => 0x0a,
            Self::U8 => 0x0b,
            Self::F64 => 0x0c,
            Self::F32 => 0x0d,
        }
    }

    /// The kind a wire code names, or `UnknownTypeCode` for any byte
    /// outside the defined set.
    pub fn try_from_type_code(type_code: u8) -> (r: Result<Self, CodecError>)
        ensures
            match r {
                Ok(t) => spec_kind_of(type_code) == Some(t),
                Err(e) => spec_kind_of(type_code) is None && e == CodecError::UnknownTypeCode,
            },
    {
        match type_code {
            0x01 => Ok(Self::String),
            0x03 => Ok(Self::Bool),
            0x04 => Ok(Self::I64),
            0x05 => Ok(Self::I32),
            0x06 => Ok(Self::I16),
            0x07 => Ok(Self::I8),
            0x08 => Ok(Self::U64),
            0x09 => Ok(Self::U32),
            0x0a => Ok(Self::U16),
            0x0b => Ok(Self::U8),
            0x0c => Ok(Self::F64),
            0x0d => Ok(Self::F32),
            _ => Err(CodecError::UnknownTypeCode),
        }
    }

    /// Width in bytes of the count field. Fixed at one byte for every
    /// kind in this format version, capping counts at 255.
    pub fn sizeof_sizecode(&self) -> (w: usize)
        ensures
            w == 1,
    {
        match self {
            Self::String => 1,
            Self::Bool => 1,
            Self::I64 => 1,
            Self::I32 => 1,
            Self::I16 => 1,
            Self::I8 => 1,
            Self::U64 => 1,
            Self::U32 => 1,
            Self::U16 => 1,
            Self::U8 => 1,
            Self::F64 => 1,
            Self::F32 => 1,
        }
    }

    /// Payload byte size for `len` elements of this kind.
    pub fn get_datasize(&self, len: usize) -> (size: usize)
        requires
            spec_payload_size(*self, len as nat) <= usize::MAX,
        ensures
            size == spec_payload_size(*self, len as nat),
    {
        match self {
            Self::String => len,
            Self::Bool => len / 8 + if len % 8 != 0 { 1usize } else { 0usize },
            Self::I64 => len * 8,
            Self::I32 => len * 4,
            Self::I16 => len * 2,
            Self::I8 => len,
            Self::U64 => len * 8,
            Self::U32 => len * 4,
            Self::U16 => len * 2,
            Self::U8 => len,
            Self::F64 => len * 8,
            Self::F32 => len * 4,
        }
    }
}

/// The type-code assignment is a bijection: decoding the code of any
/// kind gives that kind back, and any byte that decodes at all is the
/// code of the kind it decodes to.
pub proof fn lemma_type_code_bijection()
    ensures
        forall|t: DigitalServoDataType| #[trigger] spec_kind_of(spec_type_code(t)) == Some(t),
        forall|code: u8, t: DigitalServoDataType|
            #![trigger spec_kind_of(code), spec_type_code(t)]
            spec_kind_of(code) == Some(t) ==> spec_type_code(t) == code,
{
}

} // verus!
