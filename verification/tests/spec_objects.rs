use falcon_protocol::chunks::ChunkPos;
use falcon_protocol::codec::{decode_packet, encode_packet};
use falcon_protocol::packets::{FieldValue, PacketDirection, PacketKind};
use falcon_protocol::specs::{
    disconnect_fields, unload_chunk_fields, update_view_position_fields, JoinGameSpec,
    PlayerAbilitiesSpec, PositionAndLookSpec, ServerDifficultySpec,
};

#[test]
fn join_game_spec_varies_by_version() {
    let spec = JoinGameSpec {
        entity_id: 1,
        game_mode: 1,
        dimension: -1,
        difficulty: 2,
        max_players: 60,
        level_type: b"default".to_vec(),
        view_distance: 10,
        reduced_debug: false,
    };
    let legacy = spec.to_fields(47);
    assert_eq!(legacy.len(), 7);
    assert_eq!(legacy[2], FieldValue::I8(-1));
    assert_eq!(legacy[3], FieldValue::U8(2));
    let bytes = encode_packet(PacketKind::JoinGame, 47, &legacy).unwrap();
    let (kind, decoded, _) = decode_packet(PacketDirection::Clientbound, 47, &bytes).unwrap();
    assert_eq!(kind, PacketKind::JoinGame);
    assert_eq!(decoded, legacy);

    let modern = spec.to_fields(498);
    assert_eq!(modern.len(), 7);
    assert_eq!(modern[2], FieldValue::I32(-1));
    assert_eq!(modern[5], FieldValue::VarInt(10));
    let bytes = encode_packet(PacketKind::JoinGame, 498, &modern).unwrap();
    let (kind, decoded, _) = decode_packet(PacketDirection::Clientbound, 498, &bytes).unwrap();
    assert_eq!(kind, PacketKind::JoinGame);
    assert_eq!(decoded, modern);
}

#[test]
fn difficulty_spec_gains_lock_flag() {
    let spec = ServerDifficultySpec { difficulty: 1, locked: true };
    let legacy = spec.to_fields(340);
    assert_eq!(legacy, vec![FieldValue::U8(1)]);
    let locked = spec.to_fields(573);
    assert_eq!(locked, vec![FieldValue::U8(1), FieldValue::Bool(true)]);
    let bytes = encode_packet(PacketKind::ServerDifficulty, 573, &locked).unwrap();
    assert_eq!(bytes[0], 0x0E);
}

#[test]
fn abilities_and_position_specs_encode_everywhere_registered() {
    let abilities = PlayerAbilitiesSpec {
        flags: 0x0F,
        flying_speed_bits: (0.05f32).to_bits(),
        fov_modifier_bits: (0.1f32).to_bits(),
    };
    let fields = abilities.to_fields();
    for v in [47u32, 210, 338, 393, 498, 578, 736] {
        let bytes = encode_packet(PacketKind::PlayerAbilities, v, &fields).unwrap();
        let (kind, decoded, _) = decode_packet(PacketDirection::Clientbound, v, &bytes).unwrap();
        assert_eq!(kind, PacketKind::PlayerAbilities);
        assert_eq!(decoded, fields);
    }

    let pos = PositionAndLookSpec {
        x_bits: (8.5f64).to_bits(),
        y_bits: (64.0f64).to_bits(),
        z_bits: (8.5f64).to_bits(),
        yaw_bits: (0.0f32).to_bits(),
        pitch_bits: (0.0f32).to_bits(),
        flags: 0,
        teleport_id: 1,
    };
    let fields = pos.to_fields();
    let bytes = encode_packet(PacketKind::PositionLook, 340, &fields).unwrap();
    assert_eq!(bytes[0], 0x2F);
}

#[test]
fn column_packets_from_coordinates() {
    let fields = unload_chunk_fields(3, -2);
    assert_eq!(fields, vec![FieldValue::I32(3), FieldValue::I32(-2)]);
    let fields = update_view_position_fields(3, -2);
    let bytes = encode_packet(PacketKind::UpdateViewPosition, 735, &fields).unwrap();
    assert_eq!(bytes[0], 0x40);
}

#[test]
fn disconnect_fields_enforce_reason_bound() {
    let ok = disconnect_fields(b"{\"text\":\"bye\"}".to_vec()).unwrap();
    assert_eq!(ok.len(), 1);
    let too_long = vec![b'x'; 262145];
    assert!(disconnect_fields(too_long).is_err());
}

#[test]
fn chunk_pos_tuple_conversions() {
    let pos = ChunkPos::from((3, -2));
    assert_eq!(pos, ChunkPos::new(3, -2));
    let t: (i32, i32) = pos.into();
    assert_eq!(t, (3, -2));
}
