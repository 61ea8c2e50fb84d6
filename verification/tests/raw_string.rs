use digitalservo_codec::error::CodecError;
use digitalservo_codec::rawstr::Str;

#[test]
fn scenario_hi() {
    let bytes = Str::serialize("hi").unwrap();
    assert_eq!(bytes, vec![0x02, b'h', b'i']);
    let s = Str::deserialize(&bytes).unwrap();
    assert_eq!(s.value, "hi");
}

#[test]
fn empty_string() {
    let bytes = Str::serialize("").unwrap();
    assert_eq!(bytes, vec![0x00]);
    let s = Str::deserialize(&bytes).unwrap();
    assert_eq!(s.value, "");
}

#[test]
fn longest_string_fits() {
    let text = "a".repeat(255);
    let bytes = Str::serialize(&text).unwrap();
    assert_eq!(bytes.len(), 256);
    assert_eq!(bytes[0], 255);
    let s = Str::deserialize(&bytes).unwrap();
    assert_eq!(s.value, text);
}

#[test]
fn over_long_string_is_rejected() {
    let text = "a".repeat(256);
    assert_eq!(Str::serialize(&text).unwrap_err(), CodecError::ValueTooLarge);
    // multi-byte characters count in bytes, not characters
    let text = "é".repeat(128); // 256 bytes
    assert_eq!(Str::serialize(&text).unwrap_err(), CodecError::ValueTooLarge);
}

#[test]
fn unicode_round_trip() {
    let text = "π ≈ 3.14159";
    let bytes = Str::serialize(text).unwrap();
    assert_eq!(bytes[0] as usize, text.len());
    let s = Str::deserialize(&bytes).unwrap();
    assert_eq!(s.value, text);
}

#[test]
fn truncated_string_is_rejected() {
    assert_eq!(Str::deserialize(&[]).unwrap_err(), CodecError::TruncatedBuffer);
    assert_eq!(Str::deserialize(&[0x03, b'a', b'b']).unwrap_err(), CodecError::TruncatedBuffer);
}

#[test]
fn str_trailing_bytes_are_ignored() {
    let s = Str::deserialize(&[0x01, b'q', 0xee]).unwrap();
    assert_eq!(s.value, "q");
}

#[test]
fn str_invalid_utf8_decodes_lossily() {
    let s = Str::deserialize(&[0x02, 0xc3, 0x28]).unwrap();
    assert_eq!(s.value, "\u{fffd}(");
}

#[test]
fn verified_str_round_trip_witness() {
    let s = digitalservo_codec::rawstr::encode_then_decode_str("servo").unwrap();
    assert_eq!(s.value, "servo");
}
