use justmotd::legacy::{
    classify_first_bytes, frame_kick_packet, legacy_response, strip_color_codes, LegacyPingKind,
    PeekClass,
};
use justmotd::ComposedConfigs;

fn configs() -> ComposedConfigs {
    ComposedConfigs {
        status: "{\"text\":\"plain status\"}".to_string(),
        status_component: "{\"extra\":[\"rich status\"]}".to_string(),
        disconnect: "{\"text\":\"plain disconnect\"}".to_string(),
        disconnect_component: "{\"extra\":[\"rich disconnect\"]}".to_string(),
        legacy_motd: "\u{00A7}cpowered by JustMotd".to_string(),
        legacy_version_name: "\u{00A7}4Offline".to_string(),
        legacy_motd_colorless: "powered by JustMotd".to_string(),
    }
}

#[test]
fn classify_v1_4_probe() {
    assert_eq!(
        classify_first_bytes(&[0xFE, 0x01, 0xFA]),
        PeekClass::Legacy(LegacyPingKind::V1_4To1_6)
    );
    assert_eq!(
        classify_first_bytes(&[0xFE, 0x01]),
        PeekClass::Legacy(LegacyPingKind::V1_4To1_6)
    );
}

#[test]
fn classify_beta_probe() {
    assert_eq!(
        classify_first_bytes(&[0xFE]),
        PeekClass::Legacy(LegacyPingKind::Beta1_8To1_3)
    );
    assert_eq!(
        classify_first_bytes(&[0xFE, 0x02, 0x00]),
        PeekClass::Legacy(LegacyPingKind::Beta1_8To1_3)
    );
}

#[test]
fn classify_modern_and_empty() {
    assert_eq!(classify_first_bytes(&[0x10, 0x00, 0xFD]), PeekClass::Modern);
    assert_eq!(classify_first_bytes(&[0x01]), PeekClass::Modern);
    assert_eq!(classify_first_bytes(&[]), PeekClass::Empty);
}

#[test]
fn strip_removes_code_pairs() {
    assert_eq!(
        strip_color_codes("\u{00A7}cHello \u{00A7}8World"),
        "Hello World"
    );
}

#[test]
fn strip_removes_trailing_code() {
    assert_eq!(strip_color_codes("Hello\u{00A7}c"), "Hello");
    assert_eq!(strip_color_codes("\u{00A7}c"), "");
}

#[test]
fn strip_removes_trailing_lone_sign() {
    assert_eq!(strip_color_codes("Hello\u{00A7}"), "Hello");
    assert_eq!(strip_color_codes("\u{00A7}"), "");
}

#[test]
fn strip_keeps_plain_text() {
    assert_eq!(strip_color_codes(""), "");
    assert_eq!(strip_color_codes("plain"), "plain");
}

fn expected_kick(payload: &str) -> Vec<u8> {
    let units: Vec<u16> = payload.encode_utf16().collect();
    let mut out = vec![0xFF];
    out.extend_from_slice(&(units.len() as u16).to_be_bytes());
    for u in units {
        out.extend_from_slice(&u.to_be_bytes());
    }
    out
}

#[test]
fn legacy_response_v1_4_is_nul_joined_kick() {
    let cfg = configs();
    let payload = format!(
        "\u{00A7}1\u{0000}127\u{0000}{}\u{0000}{}\u{0000}0\u{0000}0",
        cfg.legacy_motd, cfg.legacy_version_name
    );
    // Six fields joined by NUL: five separators.
    assert_eq!(payload.chars().filter(|c| *c == '\u{0000}').count(), 5);
    let response = legacy_response(&cfg, LegacyPingKind::V1_4To1_6);
    assert_eq!(response[0], 0xFF);
    assert_eq!(response, expected_kick(&payload));
}

#[test]
fn legacy_response_beta_is_sign_joined_kick() {
    let cfg = configs();
    let payload = format!("{}\u{00A7}0\u{00A7}0", cfg.legacy_motd_colorless);
    let response = legacy_response(&cfg, LegacyPingKind::Beta1_8To1_3);
    assert_eq!(response[0], 0xFF);
    assert_eq!(response, expected_kick(&payload));
}

#[test]
fn kick_frame_counts_units_not_bytes() {
    // One unit above the ASCII range: one code unit, two bytes.
    let units: Vec<u16> = vec![0x00A7, 0x0031];
    let framed = frame_kick_packet(&units);
    assert_eq!(framed, vec![0xFF, 0x00, 0x02, 0x00, 0xA7, 0x00, 0x31]);
}
