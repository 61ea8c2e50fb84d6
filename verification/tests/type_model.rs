use digitalservo_codec::data::DigitalServoPrimitiveData;
use digitalservo_codec::error::CodecError;
use digitalservo_codec::typedef::{DigitalServoDataType, IntoDigitalServoDataType};

const ALL_KINDS: [DigitalServoDataType; 12] = [
    DigitalServoDataType::String,
    DigitalServoDataType::Bool,
    DigitalServoDataType::U8,
    DigitalServoDataType::U16,
    DigitalServoDataType::U32,
    DigitalServoDataType::U64,
    DigitalServoDataType::I8,
    DigitalServoDataType::I16,
    DigitalServoDataType::I32,
    DigitalServoDataType::I64,
    DigitalServoDataType::F32,
    DigitalServoDataType::F64,
];

#[test]
fn type_code_bijection() {
    for kind in ALL_KINDS {
        let code = kind.into_type_code();
        assert_eq!(DigitalServoDataType::try_from_type_code(code), Ok(kind));
    }
    assert_eq!(
        DigitalServoDataType::try_from_type_code(0x02),
        Err(CodecError::UnknownTypeCode)
    );
    assert_eq!(
        DigitalServoDataType::try_from_type_code(0xff),
        Err(CodecError::UnknownTypeCode)
    );
    assert_eq!(
        DigitalServoDataType::try_from_type_code(0x00),
        Err(CodecError::UnknownTypeCode)
    );
    assert_eq!(
        DigitalServoDataType::try_from_type_code(0x0e),
        Err(CodecError::UnknownTypeCode)
    );
}

#[test]
fn type_code_values() {
    assert_eq!(DigitalServoDataType::String.into_type_code(), 0x01);
    assert_eq!(DigitalServoDataType::Bool.into_type_code(), 0x03);
    assert_eq!(DigitalServoDataType::I64.into_type_code(), 0x04);
    assert_eq!(DigitalServoDataType::I32.into_type_code(), 0x05);
    assert_eq!(DigitalServoDataType::I16.into_type_code(), 0x06);
    assert_eq!(DigitalServoDataType::I8.into_type_code(), 0x07);
    assert_eq!(DigitalServoDataType::U64.into_type_code(), 0x08);
    assert_eq!(DigitalServoDataType::U32.into_type_code(), 0x09);
    assert_eq!(DigitalServoDataType::U16.into_type_code(), 0x0a);
    assert_eq!(DigitalServoDataType::U8.into_type_code(), 0x0b);
    assert_eq!(DigitalServoDataType::F64.into_type_code(), 0x0c);
    assert_eq!(DigitalServoDataType::F32.into_type_code(), 0x0d);
}

#[test]
fn count_field_width_is_one_byte() {
    for kind in ALL_KINDS {
        assert_eq!(kind.sizeof_sizecode(), 1);
    }
}

#[test]
fn payload_sizes() {
    assert_eq!(DigitalServoDataType::I32.get_datasize(5), 20);
    assert_eq!(DigitalServoDataType::Bool.get_datasize(0), 0);
    assert_eq!(DigitalServoDataType::Bool.get_datasize(1), 1);
    assert_eq!(DigitalServoDataType::Bool.get_datasize(8), 1);
    assert_eq!(DigitalServoDataType::Bool.get_datasize(9), 2);
    assert_eq!(DigitalServoDataType::Bool.get_datasize(16), 2);
    assert_eq!(DigitalServoDataType::Bool.get_datasize(17), 3);
    assert_eq!(DigitalServoDataType::String.get_datasize(7), 7);
    assert_eq!(DigitalServoDataType::U64.get_datasize(3), 24);
    assert_eq!(DigitalServoDataType::I8.get_datasize(3), 3);
    assert_eq!(DigitalServoDataType::U16.get_datasize(3), 6);
    assert_eq!(DigitalServoDataType::F32.get_datasize(2), 8);
    assert_eq!(DigitalServoDataType::F64.get_datasize(2), 16);
}

#[test]
fn native_types_announce_their_kind() {
    assert_eq!(String::data_type(), DigitalServoDataType::String);
    assert_eq!(bool::data_type(), DigitalServoDataType::Bool);
    assert_eq!(u8::data_type(), DigitalServoDataType::U8);
    assert_eq!(u16::data_type(), DigitalServoDataType::U16);
    assert_eq!(u32::data_type(), DigitalServoDataType::U32);
    assert_eq!(u64::data_type(), DigitalServoDataType::U64);
    assert_eq!(i8::data_type(), DigitalServoDataType::I8);
    assert_eq!(i16::data_type(), DigitalServoDataType::I16);
    assert_eq!(i32::data_type(), DigitalServoDataType::I32);
    assert_eq!(i64::data_type(), DigitalServoDataType::I64);
}

#[test]
fn char_accessors() {
    let s = DigitalServoPrimitiveData::String(String::from("héllo"));
    assert_eq!(s.get_char_len(), 6); // byte length, not character count
    assert_eq!(s.get_char_buffer(), "héllo".as_bytes().to_vec());
    let n = DigitalServoPrimitiveData::U32(5);
    assert_eq!(n.get_char_len(), 0);
    assert_eq!(n.get_char_buffer(), Vec::<u8>::new());
}

#[test]
fn vec_from_buffer_reads_packed_elements() {
    let buffer = [0x02, 0x01, 0xff, 0xff];
    let values =
        DigitalServoPrimitiveData::vec_from_buffer(&DigitalServoDataType::U16, &buffer, 2);
    assert_eq!(
        values,
        vec![DigitalServoPrimitiveData::U16(0x0102), DigitalServoPrimitiveData::U16(0xffff)]
    );
    let values =
        DigitalServoPrimitiveData::vec_from_buffer(&DigitalServoDataType::I16, &buffer, 2);
    assert_eq!(
        values,
        vec![DigitalServoPrimitiveData::I16(0x0102), DigitalServoPrimitiveData::I16(-1)]
    );
    // Bool reads one 0-or-1 byte per element
    let bits = [1, 0, 1];
    let values = DigitalServoPrimitiveData::vec_from_buffer(&DigitalServoDataType::Bool, &bits, 3);
    assert_eq!(
        values,
        vec![
            DigitalServoPrimitiveData::Bool(true),
            DigitalServoPrimitiveData::Bool(false),
            DigitalServoPrimitiveData::Bool(true),
        ]
    );
}
