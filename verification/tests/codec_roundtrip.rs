use falcon_protocol::codec::{decode_packet, encode_packet, EncodeError};
use falcon_protocol::packets::{FieldValue, PacketDirection, PacketKind};
use falcon_protocol::table::{lookup, resolve};
use falcon_protocol::wire::{read_bstring, read_var_i32, write_var_i32, DecodeError};

#[test]
fn varint_encodings() {
    let mut out: Vec<u8> = Vec::new();
    write_var_i32(&mut out, 300);
    assert_eq!(out, vec![0xAC, 0x02]);
    let (v, n) = read_var_i32(&out, 0).unwrap();
    assert_eq!(v, 300);
    assert_eq!(n, 2);

    let mut neg: Vec<u8> = Vec::new();
    write_var_i32(&mut neg, -1);
    assert_eq!(neg, vec![0xFF, 0xFF, 0xFF, 0xFF, 0x0F]);
    let (v, n) = read_var_i32(&neg, 0).unwrap();
    assert_eq!(v, -1);
    assert_eq!(n, 5);
}

#[test]
fn varint_rejects_overlong_and_truncated() {
    let overlong = vec![0x80, 0x80, 0x80, 0x80, 0x80];
    assert_eq!(read_var_i32(&overlong, 0), Err(DecodeError::InvalidVarInt));
    let truncated = vec![0x80];
    assert_eq!(read_var_i32(&truncated, 0), Err(DecodeError::UnexpectedEnd));
    let empty: Vec<u8> = Vec::new();
    assert_eq!(read_var_i32(&empty, 0), Err(DecodeError::UnexpectedEnd));
}

#[test]
fn keep_alive_round_trip() {
    let values = vec![FieldValue::I64(42)];
    let bytes = encode_packet(PacketKind::KeepAlive, 393, &values).unwrap();
    assert_eq!(bytes, vec![0x0E, 0, 0, 0, 0, 0, 0, 0, 42]);
    let (kind, decoded, n) = decode_packet(PacketDirection::Serverbound, 393, &bytes).unwrap();
    assert_eq!(kind, PacketKind::KeepAlive);
    assert_eq!(decoded, values);
    assert_eq!(n, bytes.len());
}

#[test]
fn keep_alive_opcode_differs_by_version() {
    let values = vec![FieldValue::I64(7)];
    let bytes = encode_packet(PacketKind::KeepAlive, 340, &values).unwrap();
    assert_eq!(bytes[0], 0x0B);
    let (kind, decoded, _) = decode_packet(PacketDirection::Serverbound, 340, &bytes).unwrap();
    assert_eq!(kind, PacketKind::KeepAlive);
    assert_eq!(decoded, values);
}

#[test]
fn join_game_round_trip_modern() {
    let values = vec![
        FieldValue::I32(123),
        FieldValue::U8(1),
        FieldValue::I32(-1),
        FieldValue::U8(20),
        FieldValue::Str(b"default".to_vec()),
        FieldValue::VarInt(10),
        FieldValue::Bool(false),
    ];
    let bytes = encode_packet(PacketKind::JoinGame, 477, &values).unwrap();
    assert_eq!(bytes[0], 0x25);
    let (kind, decoded, n) = decode_packet(PacketDirection::Clientbound, 477, &bytes).unwrap();
    assert_eq!(kind, PacketKind::JoinGame);
    assert_eq!(decoded, values);
    assert_eq!(n, bytes.len());
}

#[test]
fn join_game_round_trip_legacy() {
    let values = vec![
        FieldValue::I32(9),
        FieldValue::U8(0),
        FieldValue::I8(-1),
        FieldValue::U8(2),
        FieldValue::U8(60),
        FieldValue::Str(b"flat".to_vec()),
        FieldValue::Bool(true),
    ];
    let bytes = encode_packet(PacketKind::JoinGame, 47, &values).unwrap();
    assert_eq!(bytes[0], 0x01);
    let (kind, decoded, _) = decode_packet(PacketDirection::Clientbound, 47, &bytes).unwrap();
    assert_eq!(kind, PacketKind::JoinGame);
    assert_eq!(decoded, values);
}

#[test]
fn client_settings_round_trip() {
    let values = vec![
        FieldValue::Str(b"en_US".to_vec()),
        FieldValue::U8(10),
        FieldValue::VarInt(0),
        FieldValue::Bool(true),
        FieldValue::U8(127),
        FieldValue::VarInt(1),
    ];
    let bytes = encode_packet(PacketKind::ClientSettings, 335, &values).unwrap();
    assert_eq!(bytes[0], 0x05);
    let (kind, decoded, _) = decode_packet(PacketDirection::Serverbound, 335, &bytes).unwrap();
    assert_eq!(kind, PacketKind::ClientSettings);
    assert_eq!(decoded, values);

    let bytes = encode_packet(PacketKind::ClientSettings, 340, &values).unwrap();
    assert_eq!(bytes[0], 0x04);
}

#[test]
fn position_look_round_trip_carries_float_bits() {
    let values = vec![
        FieldValue::F64Bits((100.5f64).to_bits()),
        FieldValue::F64Bits((64.0f64).to_bits()),
        FieldValue::F64Bits((-8.25f64).to_bits()),
        FieldValue::F32Bits((90.0f32).to_bits()),
        FieldValue::F32Bits((0.0f32).to_bits()),
        FieldValue::U8(0),
        FieldValue::VarInt(1),
    ];
    let bytes = encode_packet(PacketKind::PositionLook, 573, &values).unwrap();
    assert_eq!(bytes[0], 0x36);
    let (kind, decoded, _) = decode_packet(PacketDirection::Clientbound, 573, &bytes).unwrap();
    assert_eq!(kind, PacketKind::PositionLook);
    assert_eq!(decoded, values);
    match &decoded[0] {
        FieldValue::F64Bits(bits) => assert_eq!(f64::from_bits(*bits), 100.5),
        other => panic!("wrong field {:?}", other),
    }
}

#[test]
fn unload_chunk_round_trip() {
    let values = vec![FieldValue::I32(3), FieldValue::I32(-2)];
    for (version, opcode) in [(107u32, 0x1Du8), (393, 0x1F), (573, 0x1E)] {
        let bytes = encode_packet(PacketKind::UnloadChunk, version, &values).unwrap();
        assert_eq!(bytes[0], opcode);
        let (kind, decoded, _) =
            decode_packet(PacketDirection::Clientbound, version, &bytes).unwrap();
        assert_eq!(kind, PacketKind::UnloadChunk);
        assert_eq!(decoded, values);
    }
}

#[test]
fn unsupported_version_is_refused() {
    // Protocol 47 has no update-view-position packet: encoding must fail
    // loudly, not fall back to another layout.
    let values = vec![FieldValue::VarInt(0), FieldValue::VarInt(0)];
    assert_eq!(
        encode_packet(PacketKind::UpdateViewPosition, 47, &values),
        Err(EncodeError::UnsupportedVersion)
    );
    assert!(lookup(PacketKind::UpdateViewPosition, 47).is_none());
    // Position-look starts at protocol 107.
    assert_eq!(
        encode_packet(PacketKind::PositionLook, 47, &vec![]),
        Err(EncodeError::UnsupportedVersion)
    );
}

#[test]
fn mismatched_fields_are_refused() {
    let wrong = vec![FieldValue::Bool(true)];
    assert_eq!(
        encode_packet(PacketKind::KeepAlive, 393, &wrong),
        Err(EncodeError::FieldMismatch)
    );
    // A locale above its 16-byte bound does not fit the layout.
    let long = vec![
        FieldValue::Str(b"x".repeat(17)),
        FieldValue::U8(10),
        FieldValue::VarInt(0),
        FieldValue::Bool(true),
        FieldValue::U8(127),
        FieldValue::VarInt(1),
    ];
    assert_eq!(
        encode_packet(PacketKind::ClientSettings, 335, &long),
        Err(EncodeError::FieldMismatch)
    );
}

#[test]
fn unknown_opcode_is_distinguishable() {
    let bytes = vec![0x7F];
    assert_eq!(
        decode_packet(PacketDirection::Serverbound, 393, &bytes),
        Err(DecodeError::UnknownOpcode)
    );
    assert!(resolve(PacketDirection::Serverbound, 393, 0x7F).is_none());
    assert_eq!(
        resolve(PacketDirection::Serverbound, 393, 0x0E),
        Some(PacketKind::KeepAlive)
    );
    // The same opcode means another packet in the other direction's table.
    assert_eq!(
        resolve(PacketDirection::Clientbound, 107, 0x2E),
        Some(PacketKind::PositionLook)
    );
}

#[test]
fn bounded_string_fails_before_payload() {
    // Client settings at protocol 340 (opcode 0x04): the locale declares 17
    // bytes against its 16-byte bound. The payload is absent on purpose:
    // the decoder must fail on the declared length alone.
    let bytes = vec![0x04, 17];
    assert_eq!(
        decode_packet(PacketDirection::Serverbound, 340, &bytes),
        Err(DecodeError::StringTooLong)
    );
    // The primitive alone behaves the same way.
    let raw = vec![17u8];
    assert_eq!(read_bstring(&raw, 0, 16), Err(DecodeError::StringTooLong));
    // A declared length inside the bound but past the buffer is a
    // different, later error.
    let raw = vec![5u8, b'a', b'b'];
    assert_eq!(read_bstring(&raw, 0, 16), Err(DecodeError::UnexpectedEnd));
}

#[test]
fn disconnect_round_trip() {
    let reason = br#"{"text":"Received invalid Keep Alive id!"}"#.to_vec();
    let values = vec![FieldValue::Str(reason)];
    for (version, opcode) in [(47u32, 0x40u8), (340, 0x1A), (578, 0x1B)] {
        let bytes = encode_packet(PacketKind::Disconnect, version, &values).unwrap();
        assert_eq!(bytes[0], opcode);
        let (kind, decoded, _) =
            decode_packet(PacketDirection::Clientbound, version, &bytes).unwrap();
        assert_eq!(kind, PacketKind::Disconnect);
        assert_eq!(decoded, values);
    }
}
