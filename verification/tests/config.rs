use codex_agent_indicator::config::{AppConfig, Color, ConfigError, LightingMode, Paths};
use codex_agent_indicator::state::StateKind;

const BLACK: Color = Color { red: 0, green: 0, blue: 0 };

#[test]
fn parses_and_displays_color() {
    let color: Color = "#12aBcD".parse().unwrap();
    assert_eq!((color.red, color.green, color.blue), (0x12, 0xab, 0xcd));
    assert_eq!(color.to_string(), "#12abcd");
}

#[test]
fn scales_color_for_flash_dim_phase() {
    let color: Color = "#64c832".parse().unwrap();
    assert_eq!(color.scale_percent(25).to_string(), "#19320c");
    assert_eq!(color.scale_percent(0), BLACK);
}

#[test]
fn rejects_invalid_color() {
    assert!("red".parse::<Color>().is_err());
    assert!("#00000g".parse::<Color>().is_err());
}

#[test]
fn reads_colors_with_and_without_a_sign() {
    assert_eq!(Color::parse("  00ff10 ").unwrap().to_string(), "#00ff10");
    assert_eq!(Color::parse("##12345").unwrap_err().value, "##12345");
    assert!(Color::parse("").is_err());
    assert!(Color::parse("#12345").is_err());
    assert!(Color::parse("#1234567").is_err());
    assert!(Color::parse("#12345\u{e9}").is_err());
}

#[test]
fn full_brightness_keeps_a_color() {
    let color = Color { red: 1, green: 127, blue: 255 };
    assert_eq!(color.scale_percent(100), color);
    assert_eq!(color.scale_percent(50), Color { red: 0, green: 63, blue: 127 });
}

#[test]
fn every_limit_of_a_configuration_is_checked() {
    let check = |change: fn(&mut AppConfig)| {
        let mut config = AppConfig::default();
        change(&mut config);
        config.validate()
    };
    assert_eq!(check(|_| {}), Ok(()));
    assert_eq!(check(|c| c.device.slot_keys.clear()), Err(ConfigError::SlotKeyCount));
    assert_eq!(check(|c| c.device.slot_keys.push(1)), Err(ConfigError::SlotKeyCount));
    assert_eq!(check(|c| c.behavior.max_sessions = 0), Err(ConfigError::SessionCount));
    assert_eq!(check(|c| c.behavior.max_sessions = 6), Err(ConfigError::SessionCount));
    assert_eq!(check(|c| c.device.lighting_software_id = 16), Err(ConfigError::SoftwareId));
    assert_eq!(check(|c| c.device.init_software_id = 255), Err(ConfigError::SoftwareId));
    assert_eq!(check(|c| c.device.response_timeout_ms = 1_001), Err(ConfigError::ResponseTimeout));
    assert_eq!(check(|c| c.lighting.flash_interval_ms = 199), Err(ConfigError::FlashInterval));
    assert_eq!(check(|c| c.lighting.flash_interval_ms = 5_001), Err(ConfigError::FlashInterval));
    assert_eq!(check(|c| c.lighting.flash_dim_percent = 101), Err(ConfigError::FlashDimPercent));
    assert_eq!(
        ConfigError::SoftwareId.message(),
        "HID++ software IDs must fit in four bits"
    );
}

#[test]
fn each_state_has_its_color() {
    let config = AppConfig::default();
    let shown: Vec<String> = [
        StateKind::Idle,
        StateKind::Working,
        StateKind::Approval,
        StateKind::Requested,
        StateKind::Done,
        StateKind::Error,
    ]
    .into_iter()
    .map(|state| config.color_for(state).to_string())
    .collect();
    assert_eq!(shown, ["#101820", "#007aff", "#ff9500", "#af52de", "#34c759", "#ff3b30"]);
}

#[test]
fn default_configuration_names_five_keys() {
    let config = AppConfig::default();
    config.validate().unwrap();
    assert_eq!(config.device.slot_keys, [0xb4, 0xb5, 0xb6, 0xb7, 0xb8]);
    assert!(config.navigation.enabled);
    assert_eq!(config.events.post_tool_failure, StateKind::Working);
}

#[test]
fn night_may_lie_over_midnight_or_not() {
    let mut lighting = AppConfig::default().lighting;
    assert_eq!(lighting.mode_at_minute(16 * 60 + 59), LightingMode::Day);
    assert_eq!(lighting.mode_at_minute(17 * 60), LightingMode::Night);
    assert_eq!(lighting.mode_at_minute(0), LightingMode::Night);
    assert_eq!(lighting.mode_at_minute(7 * 60), LightingMode::Day);
    lighting.night_start_minute = 60;
    lighting.night_end_minute = 120;
    assert_eq!(lighting.mode_at_minute(59), LightingMode::Day);
    assert_eq!(lighting.mode_at_minute(60), LightingMode::Night);
    assert_eq!(lighting.mode_at_minute(120), LightingMode::Day);
}

#[test]
fn files_lie_under_the_home_directory() {
    let paths = Paths::under_home("/people/me", None);
    assert_eq!(paths.config, "/people/me/.config/codex-agent-indicator/config.toml");
    assert_eq!(paths.runtime_dir, "/people/me/.cache/codex-agent-indicator");
    assert_eq!(paths.socket, "/people/me/.cache/codex-agent-indicator/indicator.sock");
    assert_eq!(paths.status, "/people/me/.cache/codex-agent-indicator/status.json");
    assert_eq!(paths.codex_sessions, "/people/me/.codex/sessions");
    assert_eq!(paths.log, "/people/me/Library/Logs/codex-agent-indicator.log");
    let other = Paths::under_home("/people/me/", Some("/etc/indicator.toml".to_owned()));
    assert_eq!(other.config, "/etc/indicator.toml");
    assert_eq!(other.codex_sessions, "/people/me/.codex/sessions");
}

#[test]
fn a_higher_percentage_is_never_darker() {
    let color = Color { red: 255, green: 7, blue: 0 };
    let mut last = color.scale_percent(0);
    for percent in 1..=100 {
        let next = color.scale_percent(percent);
        assert!(next.red >= last.red && next.green >= last.green && next.blue >= last.blue);
        last = next;
    }
    assert_eq!(last, color);
}
