use justmotd::handshake::{
    create_packet, decode_handshake, respond_modern, select_response, supports_custom_colors,
    HandshakeNextState, PacketHandleError,
};
use justmotd::var_int::{VarInt, VarIntDecodeError, VarString};
use justmotd::ComposedConfigs;

fn configs() -> ComposedConfigs {
    ComposedConfigs {
        status: "{\"text\":\"plain status\"}".to_string(),
        status_component: "{\"extra\":[\"rich status\"]}".to_string(),
        disconnect: "{\"text\":\"plain disconnect\"}".to_string(),
        disconnect_component: "{\"extra\":[\"rich disconnect\"]}".to_string(),
        legacy_motd: "legacy motd".to_string(),
        legacy_version_name: "Offline".to_string(),
        legacy_motd_colorless: "legacy motd".to_string(),
    }
}

fn body(packet_id: i32, proto: i32, host: &str, port: u16, next_state: i32) -> Vec<u8> {
    let mut b = Vec::new();
    VarInt::encode(packet_id, &mut b);
    VarInt::encode(proto, &mut b);
    VarString::encode(host, &mut b);
    b.push((port >> 8) as u8);
    b.push((port & 0xff) as u8);
    VarInt::encode(next_state, &mut b);
    b
}

#[test]
fn custom_colors_threshold() {
    assert!(!supports_custom_colors(734));
    assert!(supports_custom_colors(735));
    assert!(supports_custom_colors(765));
    assert!(!supports_custom_colors(47));
    assert!(!supports_custom_colors(-1));
}

#[test]
fn handshake_decodes_fields() {
    let b = body(0x00, 758, "localhost", 25565, 1);
    let h = decode_handshake(&b).unwrap();
    assert_eq!(h.packet_id, 0);
    assert_eq!(h.protocol_version, 758);
    assert_eq!(h.hostname, "localhost");
    assert_eq!(h.port, 25565);
    assert_eq!(h.next_state, HandshakeNextState::Status);
}

#[test]
fn handshake_accepts_negative_protocol_version() {
    let b = body(0x00, -1, "host", 1, 2);
    let h = decode_handshake(&b).unwrap();
    assert_eq!(h.protocol_version, -1);
    assert_eq!(h.next_state, HandshakeNextState::Login);
}

#[test]
fn status_new_client_gets_component_payload() {
    let cfg = configs();
    let b = body(0x00, 758, "localhost", 25565, 1);
    let h = decode_handshake(&b).unwrap();
    let payload = select_response(&cfg, h.next_state, h.protocol_version);
    assert_eq!(payload, cfg.status_component);
}

#[test]
fn status_old_client_gets_plain_payload() {
    let cfg = configs();
    let b = body(0x00, 47, "localhost", 25565, 1);
    let h = decode_handshake(&b).unwrap();
    let payload = select_response(&cfg, h.next_state, h.protocol_version);
    assert_eq!(payload, cfg.status);
}

#[test]
fn login_old_client_gets_plain_disconnect() {
    let cfg = configs();
    let b = body(0x00, 340, "localhost", 25565, 2);
    let h = decode_handshake(&b).unwrap();
    let payload = select_response(&cfg, h.next_state, h.protocol_version);
    assert_eq!(payload, cfg.disconnect);
}

#[test]
fn login_new_client_gets_component_disconnect() {
    let cfg = configs();
    let payload = select_response(&cfg, HandshakeNextState::Login, 760);
    assert_eq!(payload, cfg.disconnect_component);
}

#[test]
fn next_state_three_rejected() {
    let b = body(0x00, 758, "localhost", 25565, 3);
    assert_eq!(
        decode_handshake(&b).unwrap_err(),
        PacketHandleError::UnknownNextState
    );
}

#[test]
fn next_state_out_of_range_rejected() {
    for ns in [0, -1, 4, 100, i32::MAX, i32::MIN] {
        let b = body(0x00, 758, "localhost", 25565, ns);
        assert_eq!(
            decode_handshake(&b).unwrap_err(),
            PacketHandleError::UnknownNextState
        );
    }
}

#[test]
fn truncated_handshake_rejected() {
    // Ends after the hostname: no port, no next state.
    let mut b = Vec::new();
    VarInt::encode(0, &mut b);
    VarInt::encode(758, &mut b);
    VarString::encode("localhost", &mut b);
    assert_eq!(
        decode_handshake(&b).unwrap_err(),
        PacketHandleError::InvalidVarInt(VarIntDecodeError::Incomplete)
    );
}

#[test]
fn handshake_bad_hostname_rejected() {
    let mut b = Vec::new();
    VarInt::encode(0, &mut b);
    VarInt::encode(758, &mut b);
    // Declared length 5, only 2 bytes follow.
    b.extend_from_slice(&[0x05, b'a', b'b']);
    match decode_handshake(&b).unwrap_err() {
        PacketHandleError::InvalidVarString(_) => {}
        other => panic!("expected a VarString error, got {:?}", other),
    }
}

#[test]
fn create_packet_frames_id_and_payload() {
    let p = create_packet(0x00, "hi".to_string()).unwrap();
    // Body: id 0x00, then VarString "hi" (length 2). Length prefix: 4.
    assert_eq!(p, vec![0x04, 0x00, 0x02, b'h', b'i']);
}

#[test]
fn end_to_end_status_scenario() {
    // A client declaring hostname "localhost", port 25565, protocol 765,
    // next state Status.
    let cfg = configs();
    let b = body(0x00, 765, "localhost", 25565, 1);
    let expected_body: Vec<u8> = vec![
        0x00, 0xFD, 0x05, 0x09, b'l', b'o', b'c', b'a', b'l', b'h', b'o', b's', b't', 0x63, 0xDD,
        0x01,
    ];
    assert_eq!(b, expected_body);

    let packet = respond_modern(&b, &cfg).unwrap();
    // The framed response: length prefix, packet id 0x00, then the rich
    // status JSON as a VarString.
    let mut cur: &[u8] = &packet;
    let length = VarInt::decode(&mut cur).unwrap();
    assert_eq!(length as usize, cur.len());
    let packet_id = VarInt::decode(&mut cur).unwrap();
    assert_eq!(packet_id, 0x00);
    let payload = VarString::decode(&mut cur).unwrap();
    assert_eq!(payload, cfg.status_component);
    assert_eq!(cur.len(), 0);
}

#[test]
fn respond_modern_rejects_malformed_body() {
    let cfg = configs();
    assert_eq!(
        respond_modern(&[], &cfg).unwrap_err(),
        PacketHandleError::InvalidVarInt(VarIntDecodeError::Incomplete)
    );
}

#[test]
fn check_wf_accepts_ordinary_configs() {
    assert!(configs().check_wf());
}
