use codex_agent_indicator::config::{Color, DeviceConfig};
use codex_agent_indicator::protocol::{
    commit_packet, feature_query, g_key_diversion_packet, init_direct_packets,
    set_keys_one_color_packet, set_keys_packet, zone_presence_query,
};

const BLACK: Color = Color { red: 0, green: 0, blue: 0 };

#[test]
fn builds_root_feature_query() {
    let config = DeviceConfig::default();
    assert_eq!(
        feature_query(&config, 0x8081),
        [0x10, 0xff, 0x00, 0x0f, 0x80, 0x81, 0x00]
    );
}

#[test]
fn builds_zone_presence_query() {
    let config = DeviceConfig::default();
    assert_eq!(
        zone_presence_query(&config, 0x0a, 1),
        [0x10, 0xff, 0x0a, 0x0f, 0, 1, 0]
    );
}

#[test]
fn builds_g_key_diversion_packets() {
    let config = DeviceConfig::default();
    assert_eq!(
        &g_key_diversion_packet(&config, 0x05, true)[..6],
        &[0x11, 0xff, 0x05, 0x2f, 0x01, 0x00]
    );
    assert_eq!(
        &g_key_diversion_packet(&config, 0x05, false)[..6],
        &[0x11, 0xff, 0x05, 0x2f, 0x00, 0x00]
    );
}

#[test]
fn builds_single_key_and_commit_packets() {
    let config = DeviceConfig::default();
    let color = Color {
        red: 1,
        green: 2,
        blue: 3,
    };
    let key = set_keys_packet(&config, 0x0a, &[(0xb4, color)]);
    assert_eq!(&key[..9], &[0x11, 0xff, 0x0a, 0x1f, 0xb4, 1, 2, 3, 0xff]);

    let commit = commit_packet(&config, 0x0a);
    assert_eq!(&commit[..4], &[0x11, 0xff, 0x0a, 0x7f]);
}

#[test]
fn builds_multi_key_clear_packet() {
    let config = DeviceConfig::default();
    let packet =
        set_keys_one_color_packet(&config, 0x0a, &[0xb4, 0xb5, 0xb6], BLACK);
    assert_eq!(
        &packet[..11],
        &[0x11, 0xff, 0x0a, 0x6f, 0, 0, 0, 0xb4, 0xb5, 0xb6, 0xff]
    );
}

#[test]
fn builds_four_individual_keys_in_one_packet() {
    let config = DeviceConfig::default();
    let colors = [
        (
            0xb4,
            Color {
                red: 1,
                green: 2,
                blue: 3,
            },
        ),
        (
            0xb5,
            Color {
                red: 4,
                green: 5,
                blue: 6,
            },
        ),
        (
            0xb6,
            Color {
                red: 7,
                green: 8,
                blue: 9,
            },
        ),
        (
            0xb7,
            Color {
                red: 10,
                green: 11,
                blue: 12,
            },
        ),
    ];
    let packet = set_keys_packet(&config, 0x0a, &colors);
    assert_eq!(&packet[4..8], &[0xb4, 1, 2, 3]);
    assert_eq!(&packet[16..20], &[0xb7, 10, 11, 12]);
}

#[test]
fn fills_thirteen_same_color_keys_without_terminator() {
    let config = DeviceConfig::default();
    let keys: Vec<u8> = (1..=13).collect();
    let packet = set_keys_one_color_packet(&config, 0x0a, &keys, BLACK);
    assert_eq!(&packet[7..20], keys.as_slice());
}

#[test]
fn builds_direct_mode_initialization() {
    let config = DeviceConfig::default();
    let packets = init_direct_packets(&config, 0x0e, 0x09);
    assert_eq!(&packets[0][..4], &[0x11, 0xff, 0x0e, 0x3e]);
    assert_eq!(&packets[1][..4], &[0x11, 0xff, 0x0e, 0x1e]);
    assert_eq!(&packets[2][..4], &[0x11, 0xff, 0x09, 0x1e]);
    assert_eq!(packets[2][16], 1);
    assert_eq!(packets[3][4], 1);
}

#[test]
fn software_ids_use_only_their_low_half() {
    let mut config = DeviceConfig::default();
    config.lighting_software_id = 0xa7;
    assert_eq!(feature_query(&config, 0x0102), [0x10, 0xff, 0, 0x07, 0x01, 0x02, 0]);
    assert_eq!(commit_packet(&config, 3)[3], 0x77);
}

#[test]
fn surplus_keys_do_not_fit_a_packet() {
    let config = DeviceConfig::default();
    let keys: Vec<u8> = (1..=14).collect();
    let packet = set_keys_one_color_packet(&config, 0x0a, &keys, BLACK);
    assert_eq!(packet[19], 13);
    let lit: Vec<(u8, Color)> = (1..=5).map(|key| (key, BLACK)).collect();
    assert_eq!(
        set_keys_packet(&config, 0x0a, &lit),
        set_keys_packet(&config, 0x0a, &lit[..4])
    );
    let none = set_keys_packet(&config, 0x0a, &[]);
    assert_eq!(none[4], 0xff);
    assert_eq!(none[5..], [0; 15]);
}
