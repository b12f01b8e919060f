use codex_agent_indicator::config::{Color, DeviceConfig};
use codex_agent_indicator::device::{
    discover_feature_indices, discover_zone_ids, drain_timeout, fallback_zone_ids, find_interface,
    read_feature_reply, read_zone_reply, reply_timeout, FeatureIndices, GKeyState, Interface,
    NavigationRequest, G915,
};
use codex_agent_indicator::protocol::{
    commit_packet, g_key_diversion_packet, init_direct_packets, set_keys_one_color_packet,
    set_keys_packet,
};
use codex_agent_indicator::time::Duration;

const BLACK: Color = Color { red: 0, green: 0, blue: 0 };

#[test]
fn default_interface_matches_wired_g915() {
    let config = DeviceConfig::default();
    assert_eq!((config.vendor_id, config.product_id), (0x046d, 0xc33e));
    assert_eq!((config.usage_page, config.usage), (0xff00, 2));
}

#[test]
fn fallback_zones_include_all_five_g_keys() {
    let zones = fallback_zone_ids();
    assert!([0xb4, 0xb5, 0xb6, 0xb7, 0xb8].iter().all(|key| zones.contains(key)));
}

#[test]
fn decodes_only_rising_edges_from_g_key_notifications() {
    let config = DeviceConfig::default();
    let mut state = GKeyState::default();
    let pressed_g1_g2 = [0x11, config.device_index, 0x05, 0x00, 0b0000_0011, 0, 0, 0];

    assert_eq!(state.update_from_report(&pressed_g1_g2, &config, 0x05), vec![1, 2]);
    assert!(state.update_from_report(&pressed_g1_g2, &config, 0x05).is_empty());

    let released_g1 = [0x11, config.device_index, 0x05, 0x00, 0b0000_0010, 0, 0, 0];
    assert!(state.update_from_report(&released_g1, &config, 0x05).is_empty());
    assert_eq!(state.update_from_report(&pressed_g1_g2, &config, 0x05), vec![1]);
}

#[test]
fn foreign_reports_press_no_key() {
    let config = DeviceConfig::default();
    let mut state = GKeyState::default();
    assert!(state.update_from_report(&[0x11, 0xff, 5, 0, 1, 0, 0], &config, 5).is_empty());
    assert!(state.update_from_report(&[0x10, 0xff, 5, 0, 1, 0, 0, 0], &config, 5).is_empty());
    assert!(state.update_from_report(&[0x11, 0x01, 5, 0, 1, 0, 0, 0], &config, 5).is_empty());
    assert!(state.update_from_report(&[0x11, 0xff, 6, 0, 1, 0, 0, 0], &config, 5).is_empty());
    assert!(state.update_from_report(&[0x11, 0xff, 5, 1, 1, 0, 0, 0], &config, 5).is_empty());
    assert_eq!(state.down, 0);
    assert_eq!(
        state.update_from_report(&[0x11, 0xff, 5, 0, 0x30, 1, 2, 3], &config, 5),
        vec![5]
    );
    assert_eq!(state.down, 0x0302_0130);
}

#[test]
fn the_first_fitting_interface_is_taken() {
    let config = DeviceConfig::default();
    let fitting = Interface { vendor_id: 0x046d, product_id: 0xc33e, usage_page: 0xff00, usage: 2 };
    let other = Interface { usage: 1, ..fitting };
    assert_eq!(find_interface(&vec![other, fitting, fitting], &config), Some(1));
    assert_eq!(find_interface(&vec![other], &config), None);
}

#[test]
fn timeouts_stay_in_range() {
    assert_eq!(reply_timeout(Duration { nanos: 0 }), None);
    assert_eq!(reply_timeout(Duration { nanos: 1 }), Some(1));
    assert_eq!(reply_timeout(Duration::from_millis(60)), Some(60));
    assert_eq!(reply_timeout(Duration { nanos: u128::MAX }), Some(i32::MAX));
    assert_eq!(drain_timeout(60), 60);
    assert_eq!(drain_timeout(u64::MAX), i32::MAX);
}

#[test]
fn answers_are_told_from_other_reports() {
    let config = DeviceConfig::default();
    assert_eq!(read_feature_reply(&[0x11, 0xff, 0, 0x0f, 9, 0, 0], &config), Some(Some(9)));
    assert_eq!(read_feature_reply(&[0x10, 0xff, 0, 0x0f, 0, 0, 0], &config), Some(None));
    assert_eq!(read_feature_reply(&[0x11, 0xff, 0, 0x0e, 9, 0, 0], &config), None);
    assert_eq!(read_feature_reply(&[0x11, 0xff, 0, 0x0f, 9, 0], &config), None);
    let mut report = [0_u8; 20];
    report[..4].copy_from_slice(&[0x11, 0xff, 0x0a, 0x0f]);
    for (index, byte) in report.iter_mut().enumerate().skip(6) {
        *byte = index as u8;
    }
    let bits = read_zone_reply(&report, &config, 0x0a).unwrap();
    assert_eq!(bits.to_vec(), (6..20).collect::<Vec<u8>>());
    assert_eq!(read_zone_reply(&report, &config, 0x0b), None);
    assert_eq!(read_zone_reply(&report[..19], &config, 0x0a), None);
}

#[test]
fn missing_answers_fall_back_to_the_configuration() {
    let config = DeviceConfig::default();
    let (indices, queried) = discover_feature_indices(&config, Some(1), None, Some(3), None);
    assert_eq!((indices.per_key_lighting, indices.rgb_effects, indices.mode), (1, 0x09, 3));
    assert_eq!(indices.g_keys, None);
    assert!(!queried);
    let (indices, queried) = discover_feature_indices(&config, Some(1), Some(2), Some(3), Some(4));
    assert_eq!(indices.g_keys, Some(4));
    assert!(queried);
}

#[test]
fn lights_are_read_from_three_pages() {
    let mut pages = [[0_u8; 14]; 3];
    assert_eq!(discover_zone_ids(&pages), None);
    pages[0][0] = 0b0000_0011;
    pages[0][13] = 0b1000_0000;
    pages[1][0] = 0b0000_0001;
    pages[2][3] = 0b1100_0000;
    assert_eq!(discover_zone_ids(&pages), Some(vec![1, 111, 112, 254]));
}

fn keyboard(g_keys: Option<u8>) -> G915 {
    G915::new(
        DeviceConfig::default(),
        FeatureIndices { per_key_lighting: 0x0a, rgb_effects: 0x09, mode: 0x0e, g_keys },
        (1..=14).collect(),
    )
}

#[test]
fn keys_are_written_in_packets_and_committed() {
    let config = DeviceConfig::default();
    let keyboard = keyboard(None);
    assert!(keyboard.set_keys(&[]).is_empty());
    let keys: Vec<(u8, Color)> = (1..=5).map(|key| (key, BLACK)).collect();
    assert_eq!(
        keyboard.set_keys(&keys),
        [
            set_keys_packet(&config, 0x0a, &keys[..4]),
            set_keys_packet(&config, 0x0a, &keys[4..]),
            commit_packet(&config, 0x0a),
        ]
    );
    let zones: Vec<u8> = (1..=14).collect();
    assert_eq!(
        keyboard.set_background(BLACK),
        [
            set_keys_one_color_packet(&config, 0x0a, &zones[..13], BLACK),
            set_keys_one_color_packet(&config, 0x0a, &zones[13..], BLACK),
            commit_packet(&config, 0x0a),
        ]
    );
    assert!(keyboard.set_keys_one_color(&[], BLACK).is_empty());
    assert_eq!(keyboard.reassert_direct_mode(), init_direct_packets(&config, 0x0e, 0x09));
    let summary = keyboard.summary("G915".to_owned(), true);
    assert_eq!(summary.zone_count, 14);
    assert!(!summary.g_key_navigation_available);
    assert!(summary.feature_indices_queried);
}

#[test]
fn navigation_is_switched_on_and_off() {
    let config = DeviceConfig::default();
    let mut plain = keyboard(None);
    assert!(matches!(plain.set_g_key_navigation(true), NavigationRequest::Unavailable));
    assert_eq!(plain.reassert_g_key_navigation(), None);
    assert!(!plain.navigation_report(&[0x11, 0xff, 5, 0x2f]));
    plain.navigation_written(true);
    assert!(!plain.g_key_navigation_active());
    assert!(plain.closing_packet().is_none());

    let mut keyboard = keyboard(Some(5));
    assert!(keyboard.poll_g_key_presses(&vec![vec![0x11, 0xff, 5, 0, 1, 0, 0, 0]]).is_empty());
    let NavigationRequest::Write(packet) = keyboard.set_g_key_navigation(true) else {
        panic!("navigation has to be switched on");
    };
    assert_eq!(packet, g_key_diversion_packet(&config, 5, true));
    keyboard.navigation_written(true);
    assert!(matches!(keyboard.set_g_key_navigation(true), NavigationRequest::Unchanged));
    assert!(!keyboard.navigation_report(&[0x11, 0xff, 5, 0, 0b10, 0, 0, 0]));
    assert!(keyboard.navigation_report(&[0x10, 0xff, 5, 0x2f]));
    keyboard.navigation_confirmed(true);
    assert!(keyboard.g_key_navigation_active());
    let reports = vec![
        vec![0x11, 0xff, 5, 0, 0b11, 0, 0, 0],
        vec![0x11, 0xff, 5, 0, 0, 0, 0, 0],
        vec![0x11, 0xff, 5, 0, 0b10, 0, 0, 0],
    ];
    assert_eq!(keyboard.poll_g_key_presses(&reports), [2, 1, 2]);
    assert!(keyboard.poll_g_key_presses(&Vec::new()).is_empty());
    assert_eq!(keyboard.closing_packet(), Some(g_key_diversion_packet(&config, 5, false)));
    assert_eq!(
        keyboard.reassert_g_key_navigation(),
        Some(g_key_diversion_packet(&config, 5, true))
    );
    keyboard.navigation_written(false);
    keyboard.navigation_confirmed(false);
    assert!(!keyboard.g_key_navigation_active());
}

#[test]
fn all_keys_pressed_at_once_come_in_their_order() {
    let config = DeviceConfig::default();
    let mut keys = GKeyState { down: 0b00010 };
    let report = [0x11, config.device_index, 5, 0, 0b11011, 0, 0, 0];
    assert_eq!(keys.update_from_report(&report, &config, 5), [1, 4, 5]);
}
