use anchr::header::{OpCode, PayloadType, WsmHeader};

#[test]
fn header_round_trip_exact_fields() {
    let h = WsmHeader::with_reserved(0x06, 0x42, PayloadType::Json, 1_048_576, 0xFF);
    let bytes = h.to_bytes();
    assert_eq!(bytes.len(), 8);
    assert_eq!(bytes[0], 0x06);
    assert_eq!(bytes[1], 0x42);
    assert_eq!(bytes[2], 0x01);
    assert_eq!(bytes[3], 0xFF);
    // 1 MiB = 0x0010_0000, little-endian
    assert_eq!(&bytes[4..8], &[0x00, 0x00, 0x10, 0x00]);
    let back = WsmHeader::from_bytes(&bytes);
    assert_eq!(back.opcode, 0x06);
    assert_eq!(back.message_id, 0x42);
    assert_eq!(back.payload_type, 0x01);
    assert_eq!(back.reserved, 0xFF);
    assert_eq!(back.payload_len, 1_048_576);
    assert!(back.is_final());
}

#[test]
fn header_decode_then_encode_is_identity() {
    let raw: Vec<u8> = vec![0x02, 0x07, 0x03, 0xFF, 0x00, 0x00, 0x00, 0x00];
    let h = WsmHeader::from_bytes(&raw);
    assert_eq!(h.to_bytes(), raw);
}

#[test]
fn new_header_is_not_final() {
    let h = WsmHeader::new(0x01, 9, PayloadType::Raw, 0);
    assert_eq!(h.reserved, 0);
    assert!(!h.is_final());
}

#[test]
fn opcode_names_fold_case() {
    assert!(matches!(OpCode::from_name("PING"), Some(OpCode::Ping)));
    assert!(matches!(OpCode::from_name("auth"), Some(OpCode::Auth)));
    assert!(matches!(OpCode::from_name("Data"), Some(OpCode::Data)));
    assert!(matches!(OpCode::from_name("echo"), Some(OpCode::Echo)));
    assert!(matches!(OpCode::from_name("CUSTOM"), Some(OpCode::Custom)));
    assert!(OpCode::from_name("nope").is_none());
    assert!(OpCode::from_name("").is_none());
}

#[test]
fn opcode_wire_values() {
    assert_eq!(OpCode::Ping.code(), 0x01);
    assert_eq!(OpCode::Auth.code(), 0x02);
    assert_eq!(OpCode::Data.code(), 0x03);
    assert_eq!(OpCode::Echo.code(), 0x04);
    assert_eq!(OpCode::Custom.code(), 0xFF);
}

#[test]
fn payload_type_names_and_values() {
    assert!(matches!(PayloadType::from_name("json"), Some(PayloadType::Json)));
    assert!(matches!(PayloadType::from_name("BINCODE"), Some(PayloadType::Bincode)));
    assert!(matches!(PayloadType::from_name("raw"), Some(PayloadType::Raw)));
    assert!(matches!(PayloadType::from_name("Custom"), Some(PayloadType::Custom)));
    assert!(PayloadType::from_name("yaml").is_none());
    assert_eq!(PayloadType::Json.code(), 0x01);
    assert_eq!(PayloadType::Bincode.code(), 0x02);
    assert_eq!(PayloadType::Raw.code(), 0x03);
    assert_eq!(PayloadType::Custom.code(), 0xFF);
}
