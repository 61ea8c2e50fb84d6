use digitalservo_codec::data::DigitalServoPrimitiveData;
use digitalservo_codec::dictionary::Dict;
use digitalservo_codec::error::CodecError;
use digitalservo_codec::typedef::DigitalServoDataType;

fn round_trip(key: &str, data_type: DigitalServoDataType, value: &[DigitalServoPrimitiveData]) {
    let bytes = Dict::serialize(key, data_type, value).unwrap();
    let dict = Dict::deserialize(&bytes).unwrap();
    assert_eq!(dict.key, key);
    assert_eq!(dict.value, value.to_vec());
}

#[test]
fn scenario_u8_entry_bytes() {
    let value = vec![
        DigitalServoPrimitiveData::U8(1),
        DigitalServoPrimitiveData::U8(2),
        DigitalServoPrimitiveData::U8(3),
    ];
    let bytes = Dict::serialize("x", DigitalServoDataType::U8, &value).unwrap();
    assert_eq!(bytes, vec![0x01, b'x', 0x0b, 0x03, 0x01, 0x02, 0x03]);
    let dict = Dict::deserialize(&bytes).unwrap();
    assert_eq!(dict.key, "x");
    assert_eq!(dict.value, value);
}

#[test]
fn string_count_field_is_byte_length() {
    let value = vec![DigitalServoPrimitiveData::String(String::from("abc"))];
    let bytes = Dict::serialize("k", DigitalServoDataType::String, &value).unwrap();
    // key framing (2 bytes), type code, then the count field: 3, not 1
    assert_eq!(bytes[0], 1);
    assert_eq!(bytes[1], b'k');
    assert_eq!(bytes[2], 0x01);
    assert_eq!(bytes[3], 3);
    assert_eq!(bytes[4..].to_vec(), b"abc".to_vec());
}

#[test]
fn bool_packing_eight_and_nine() {
    let eight: Vec<DigitalServoPrimitiveData> =
        (0..8).map(|_| DigitalServoPrimitiveData::Bool(true)).collect();
    let bytes = Dict::serialize("b", DigitalServoDataType::Bool, &eight).unwrap();
    // 1 key-length byte + 1 key byte + type code + count + payload
    assert_eq!(bytes.len(), 4 + 1);
    assert_eq!(bytes[4], 0xff);

    let mut nine = vec![DigitalServoPrimitiveData::Bool(false); 8];
    nine.push(DigitalServoPrimitiveData::Bool(true));
    let bytes = Dict::serialize("b", DigitalServoDataType::Bool, &nine).unwrap();
    assert_eq!(bytes.len(), 4 + 2);
    assert_eq!(bytes[4], 0x00);
    // the ninth bit is set and bits 9..16 are zero
    assert_eq!(bytes[5], 0x01);
}

#[test]
fn bool_bit_order_within_byte() {
    // element i sits at bit i of its payload byte
    let value = vec![
        DigitalServoPrimitiveData::Bool(true),
        DigitalServoPrimitiveData::Bool(false),
        DigitalServoPrimitiveData::Bool(true),
    ];
    let bytes = Dict::serialize("b", DigitalServoDataType::Bool, &value).unwrap();
    assert_eq!(bytes[4], 0b101);
}

#[test]
fn round_trip_every_numeric_kind() {
    round_trip(
        "u8",
        DigitalServoDataType::U8,
        &[DigitalServoPrimitiveData::U8(0), DigitalServoPrimitiveData::U8(255)],
    );
    round_trip(
        "u16",
        DigitalServoDataType::U16,
        &[DigitalServoPrimitiveData::U16(0x1234), DigitalServoPrimitiveData::U16(u16::MAX)],
    );
    round_trip(
        "u32",
        DigitalServoDataType::U32,
        &[DigitalServoPrimitiveData::U32(0xdead_beef), DigitalServoPrimitiveData::U32(0)],
    );
    round_trip(
        "u64",
        DigitalServoDataType::U64,
        &[DigitalServoPrimitiveData::U64(u64::MAX), DigitalServoPrimitiveData::U64(7)],
    );
    round_trip(
        "i8",
        DigitalServoDataType::I8,
        &[
            DigitalServoPrimitiveData::I8(-128),
            DigitalServoPrimitiveData::I8(-1),
            DigitalServoPrimitiveData::I8(127),
        ],
    );
    round_trip(
        "i16",
        DigitalServoDataType::I16,
        &[DigitalServoPrimitiveData::I16(-2), DigitalServoPrimitiveData::I16(i16::MIN)],
    );
    round_trip(
        "i32",
        DigitalServoDataType::I32,
        &[DigitalServoPrimitiveData::I32(-100_000), DigitalServoPrimitiveData::I32(i32::MAX)],
    );
    round_trip(
        "i64",
        DigitalServoDataType::I64,
        &[DigitalServoPrimitiveData::I64(i64::MIN), DigitalServoPrimitiveData::I64(-42)],
    );
}

#[test]
fn round_trip_floats_as_bit_patterns() {
    let f32_bits = 1.5f32.to_bits();
    let f64_bits = (-0.25f64).to_bits();
    round_trip("f32", DigitalServoDataType::F32, &[DigitalServoPrimitiveData::F32(f32_bits)]);
    round_trip("f64", DigitalServoDataType::F64, &[DigitalServoPrimitiveData::F64(f64_bits)]);

    // the payload is the IEEE 754 little-endian image of the float
    let bytes =
        Dict::serialize("f", DigitalServoDataType::F32, &[DigitalServoPrimitiveData::F32(f32_bits)])
            .unwrap();
    assert_eq!(bytes[4..].to_vec(), 1.5f32.to_le_bytes().to_vec());
}

#[test]
fn numeric_payload_is_little_endian() {
    let bytes = Dict::serialize(
        "n",
        DigitalServoDataType::U16,
        &[DigitalServoPrimitiveData::U16(0x0102)],
    )
    .unwrap();
    assert_eq!(bytes[4..].to_vec(), vec![0x02, 0x01]);

    let bytes = Dict::serialize(
        "n",
        DigitalServoDataType::I16,
        &[DigitalServoPrimitiveData::I16(-2)],
    )
    .unwrap();
    assert_eq!(bytes[4..].to_vec(), vec![0xfe, 0xff]);
}

#[test]
fn round_trip_empty_sequences() {
    round_trip("empty", DigitalServoDataType::U32, &[]);
    round_trip("empty", DigitalServoDataType::Bool, &[]);
}

#[test]
fn round_trip_bools_across_chunks() {
    let value: Vec<DigitalServoPrimitiveData> =
        (0..19).map(|i| DigitalServoPrimitiveData::Bool(i % 3 == 0)).collect();
    round_trip("bits", DigitalServoDataType::Bool, &value);
}

#[test]
fn round_trip_string_value() {
    round_trip(
        "text",
        DigitalServoDataType::String,
        &[DigitalServoPrimitiveData::String(String::from("servo position"))],
    );
    round_trip(
        "text",
        DigitalServoDataType::String,
        &[DigitalServoPrimitiveData::String(String::new())],
    );
    round_trip(
        "text",
        DigitalServoDataType::String,
        &[DigitalServoPrimitiveData::String(String::from("Grüße, 世界"))],
    );
}

#[test]
fn round_trip_unicode_key() {
    round_trip("clé·π", DigitalServoDataType::U8, &[DigitalServoPrimitiveData::U8(9)]);
}

#[test]
fn key_too_long_is_rejected() {
    let key: String = "k".repeat(256);
    let r = Dict::serialize(&key, DigitalServoDataType::U8, &[DigitalServoPrimitiveData::U8(1)]);
    assert_eq!(r, Err(CodecError::ValueTooLarge));
    // 255 bytes still fit
    let key: String = "k".repeat(255);
    let r = Dict::serialize(&key, DigitalServoDataType::U8, &[DigitalServoPrimitiveData::U8(1)]);
    assert!(r.is_ok());
}

#[test]
fn too_many_elements_is_rejected() {
    let value = vec![DigitalServoPrimitiveData::U8(0); 256];
    let r = Dict::serialize("k", DigitalServoDataType::U8, &value);
    assert_eq!(r, Err(CodecError::ValueTooLarge));
    let value = vec![DigitalServoPrimitiveData::U8(0); 255];
    assert!(Dict::serialize("k", DigitalServoDataType::U8, &value).is_ok());
}

#[test]
fn string_value_too_long_is_rejected() {
    let value = vec![DigitalServoPrimitiveData::String("s".repeat(256))];
    let r = Dict::serialize("k", DigitalServoDataType::String, &value);
    assert_eq!(r, Err(CodecError::ValueTooLarge));
}

#[test]
fn unknown_type_code_is_rejected() {
    // key "x", then the reserved gap 0x02 as type code
    let bytes = [0x01, b'x', 0x02, 0x01, 0x00];
    assert_eq!(Dict::deserialize(&bytes).unwrap_err(), CodecError::UnknownTypeCode);
    let bytes = [0x01, b'x', 0xff, 0x01, 0x00];
    assert_eq!(Dict::deserialize(&bytes).unwrap_err(), CodecError::UnknownTypeCode);
}

#[test]
fn truncated_buffers_are_rejected() {
    assert_eq!(Dict::deserialize(&[]).unwrap_err(), CodecError::TruncatedBuffer);
    // declared key length 5, but only 2 key bytes follow
    assert_eq!(Dict::deserialize(&[0x05, b'a', b'b']).unwrap_err(), CodecError::TruncatedBuffer);
    // key complete, type code byte missing
    assert_eq!(Dict::deserialize(&[0x01, b'x']).unwrap_err(), CodecError::TruncatedBuffer);
    // count byte missing
    assert_eq!(Dict::deserialize(&[0x01, b'x', 0x0b]).unwrap_err(), CodecError::TruncatedBuffer);
    // count says 3 bytes of payload, only 2 present
    assert_eq!(
        Dict::deserialize(&[0x01, b'x', 0x0b, 0x03, 1, 2]).unwrap_err(),
        CodecError::TruncatedBuffer
    );
}

#[test]
fn trailing_bytes_are_ignored() {
    let dict = Dict::deserialize(&[0x01, b'x', 0x0b, 0x01, 42, 0xaa, 0xbb]).unwrap();
    assert_eq!(dict.key, "x");
    assert_eq!(dict.value, vec![DigitalServoPrimitiveData::U8(42)]);
}

#[test]
fn invalid_utf8_decodes_lossily() {
    // key bytes 0xff 0xfe are not UTF-8; decode must not fail
    let dict = Dict::deserialize(&[0x02, 0xff, 0xfe, 0x0b, 0x01, 7]).unwrap();
    assert_eq!(dict.key, "\u{fffd}\u{fffd}");
    // string payload with an invalid byte
    let dict = Dict::deserialize(&[0x01, b'k', 0x01, 0x03, b'a', 0xff, b'b']).unwrap();
    assert_eq!(
        dict.value,
        vec![DigitalServoPrimitiveData::String(String::from("a\u{fffd}b"))]
    );
}

#[test]
fn values_from_conversions() {
    let value: Vec<DigitalServoPrimitiveData> =
        vec![DigitalServoPrimitiveData::from(10u16), 20u16.into()];
    round_trip("conv", DigitalServoDataType::U16, &value);
    assert_eq!(DigitalServoPrimitiveData::from(true), DigitalServoPrimitiveData::Bool(true));
    assert_eq!(
        DigitalServoPrimitiveData::from(String::from("s")),
        DigitalServoPrimitiveData::String(String::from("s"))
    );
    assert_eq!(DigitalServoPrimitiveData::from(-5i32), DigitalServoPrimitiveData::I32(-5));
}

#[test]
fn verified_round_trip_witness() {
    let value = vec![
        DigitalServoPrimitiveData::I16(-7),
        DigitalServoPrimitiveData::I16(1000),
    ];
    let dict =
        digitalservo_codec::dictionary::encode_then_decode("w", DigitalServoDataType::I16, &value)
            .unwrap();
    assert_eq!(dict.key, "w");
    assert_eq!(dict.value, value);
}

#[test]
fn bool_decode_truncates_to_count() {
    // payload byte 0xff, but the count keeps only the first two bits
    let dict = Dict::deserialize(&[0x01, b'b', 0x03, 0x02, 0xff]).unwrap();
    assert_eq!(
        dict.value,
        vec![DigitalServoPrimitiveData::Bool(true), DigitalServoPrimitiveData::Bool(true)]
    );
    let dict = Dict::deserialize(&[0x01, b'b', 0x03, 0x03, 0b101]).unwrap();
    assert_eq!(
        dict.value,
        vec![
            DigitalServoPrimitiveData::Bool(true),
            DigitalServoPrimitiveData::Bool(false),
            DigitalServoPrimitiveData::Bool(true),
        ]
    );
}

#[test]
fn empty_key_round_trip() {
    round_trip("", DigitalServoDataType::U8, &[DigitalServoPrimitiveData::U8(1)]);
}
