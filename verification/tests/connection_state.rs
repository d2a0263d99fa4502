use falcon_protocol::codec::decode_packet;
use falcon_protocol::connection::{
    ClientSettingsPacket, ConnectionPhase, HandlerState, KeepAlivePacket, ViewDistanceUpdate,
};
use falcon_protocol::packets::{FieldValue, PacketDirection, PacketKind};

#[test]
fn keep_alive_matching_id_returns_to_idle() {
    let mut conn = HandlerState::new(340);
    conn.issue_keep_alive(42);
    assert_eq!(conn.phase(), ConnectionPhase::AwaitingKeepAlive);
    assert_eq!(conn.last_keep_alive(), 42);
    let r = KeepAlivePacket::new(42).handle_packet(&mut conn);
    assert!(r.is_ok());
    assert_eq!(conn.phase(), ConnectionPhase::Idle);
    assert!(conn.disconnect_reason().is_none());
}

#[test]
fn keep_alive_wrong_id_disconnects() {
    let mut conn = HandlerState::new(340);
    conn.issue_keep_alive(42);
    let r = KeepAlivePacket::new(7).handle_packet(&mut conn);
    assert!(r.is_ok());
    assert_eq!(conn.phase(), ConnectionPhase::Disconnecting);
    assert_eq!(
        conn.disconnect_reason().as_deref(),
        Some("Received invalid Keep Alive id!")
    );
}

#[test]
fn keep_alive_from_wire_to_handler() {
    let mut conn = HandlerState::new(393);
    conn.issue_keep_alive(42);
    let bytes = vec![0x0E, 0, 0, 0, 0, 0, 0, 0, 42];
    let (kind, values, _) = decode_packet(PacketDirection::Serverbound, 393, &bytes).unwrap();
    assert_eq!(kind, PacketKind::KeepAlive);
    let packet = KeepAlivePacket::from_fields(&values).unwrap();
    assert_eq!(packet.id, 42);
    packet.handle_packet(&mut conn).unwrap();
    assert_eq!(conn.phase(), ConnectionPhase::Idle);
}

#[test]
fn keep_alive_from_fields_rejects_other_shapes() {
    assert!(KeepAlivePacket::from_fields(&vec![]).is_none());
    assert!(KeepAlivePacket::from_fields(&vec![FieldValue::U8(1)]).is_none());
    assert!(
        KeepAlivePacket::from_fields(&vec![FieldValue::I64(1), FieldValue::I64(2)]).is_none()
    );
}

#[test]
fn client_settings_updates_view_distance_only_after_login() {
    let packet = ClientSettingsPacket {
        locale: b"en_US".to_vec(),
        view_distance: 8,
        chat_mode: 0,
        chat_colors: true,
        skin_parts: 127,
        main_hand: 1,
    };
    let mut conn = HandlerState::new(477);
    assert!(packet.clone().handle_packet(&conn).is_none());
    conn.set_player_uuid(0x1234_5678_9ABC_DEF0);
    assert_eq!(
        packet.handle_packet(&conn),
        Some(ViewDistanceUpdate { player_uuid: 0x1234_5678_9ABC_DEF0, view_distance: 8 })
    );
}

#[test]
fn client_settings_from_decoded_fields() {
    let values = vec![
        FieldValue::Str(b"en_GB".to_vec()),
        FieldValue::U8(12),
        FieldValue::VarInt(1),
        FieldValue::Bool(false),
        FieldValue::U8(64),
        FieldValue::VarInt(0),
    ];
    let p = ClientSettingsPacket::from_fields(&values).unwrap();
    assert_eq!(p.locale, b"en_GB".to_vec());
    assert_eq!(p.view_distance, 12);
    assert_eq!(p.chat_mode, 1);
    assert!(!p.chat_colors);
    assert_eq!(p.skin_parts, 64);
    assert_eq!(p.main_hand, 0);
    assert!(ClientSettingsPacket::from_fields(&vec![FieldValue::U8(1)]).is_none());
}

#[test]
fn packet_names() {
    assert_eq!(KeepAlivePacket::new(0).get_name(), "Keep alive (1.12.2)");
    let p = ClientSettingsPacket {
        locale: vec![],
        view_distance: 0,
        chat_mode: 0,
        chat_colors: false,
        skin_parts: 0,
        main_hand: 0,
    };
    assert_eq!(p.get_name(), "Client Settings (1.9)");
}

#[test]
fn handler_state_fields() {
    let mut conn = HandlerState::new(498);
    assert_eq!(conn.version(), 498);
    assert!(conn.player_uuid().is_none());
    assert_eq!(conn.view_distance(), 0);
    conn.set_player_uuid(5);
    assert_eq!(conn.player_uuid(), Some(5));
}
