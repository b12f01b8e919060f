//! The configuration: colours, the keyboard, behaviour, lighting, and where files lie.
use std::str::FromStr;

use vstd::prelude::*;

use crate::paths;
use crate::state::StateKind;
use crate::text;

verus! {

/// An RGB colour.
#[derive(Clone, Copy, Debug, PartialEq, Eq, Structural)]
pub struct Color {
    pub red: u8,
    pub green: u8,
    pub blue: u8,
}

/// A string that is not a colour.
#[derive(Clone, Debug, PartialEq, Eq)]
pub struct ParseColorError {
    pub value: String,
}

/// One channel at `percent` per cent, in eight bits.
pub open spec fn scaled_channel(channel: u8, percent: u8) -> u8 {
    (((channel * percent) / 100) % 256) as u8
}

/// The six digits that a colour is written with: the trimmed text without one leading `#`.
pub open spec fn color_digits(value: Seq<char>) -> Seq<char> {
    let t = text::trimmed(value);
    if t.len() > 0 && t[0] == '#' {
        t.skip(1)
    } else {
        t
    }
}

/// The byte that two hexadecimal digits stand for.
pub open spec fn hex_byte(high: char, low: char) -> u8 {
    (text::hex_value(high) * 16 + text::hex_value(low)) as u8
}

/// The colour that a string stands for, if it is a six-digit hexadecimal value.
pub open spec fn color_value(value: Seq<char>) -> Option<Color> {
    let d = color_digits(value);
    if d.len() == 6 && forall|i: int| 0 <= i < 6 ==> text::is_hex_digit(#[trigger] d[i]) {
        Some(
            Color {
                red: hex_byte(d[0], d[1]),
                green: hex_byte(d[2], d[3]),
                blue: hex_byte(d[4], d[5]),
            },
        )
    } else {
        None
    }
}

/// The two hexadecimal digits of a byte.
pub open spec fn byte_digits(byte: u8) -> Seq<char> {
    seq![text::hex_char((byte / 16) as int), text::hex_char((byte % 16) as int)]
}

/// A colour in the form `#rrggbb`.
pub open spec fn color_text(color: Color) -> Seq<char> {
    seq!['#'] + byte_digits(color.red) + byte_digits(color.green) + byte_digits(color.blue)
}

fn scale_channel(channel: u8, percent: u8) -> (r: u8)
    ensures
        r == scaled_channel(channel, percent),
{
    assert(channel * percent <= 255 * 255) by (nonlinear_arith)
        requires
            channel <= 255,
            percent <= 255,
    ;
    let scaled: u16 = (channel as u16 * percent as u16) / 100;
    (scaled % 256) as u8
}

impl Color {
    /// The colour with every channel at `percent` per cent.
    pub fn scale_percent(self, percent: u8) -> (r: Self)
        ensures
            r.red == scaled_channel(self.red, percent),
            r.green == scaled_channel(self.green, percent),
            r.blue == scaled_channel(self.blue, percent),
    {
        Color {
            red: scale_channel(self.red, percent),
            green: scale_channel(self.green, percent),
            blue: scale_channel(self.blue, percent),
        }
    }

    /// The colour in the form `#rrggbb`.
    pub fn to_string(&self) -> (r: String)
        ensures
            r@ == color_text(*self),
    {
        let mut r: String = "#".to_owned();
        proof {
            reveal_strlit("#");
            assert(r@ == seq!['#']);
        }
        text::append_hex_byte(&mut r, self.red);
        text::append_hex_byte(&mut r, self.green);
        text::append_hex_byte(&mut r, self.blue);
        r
    }

    /// Reads a six-digit hexadecimal colour, with or without a leading `#`.
    pub fn parse(value: &str) -> (r: Result<Self, ParseColorError>)
        ensures
            match r {
                Ok(color) => color_value(value@) == Some(color),
                Err(error) => color_value(value@) is None && error.value@ == value@,
            },
    {
        let trimmed: &str = text::trim(value);
        let chars: Vec<char> = text::chars_of(trimmed);
        let start: usize = if chars.len() > 0 && chars[0] == '#' {
            1
        } else {
            0
        };
        assert(color_digits(value@) == chars@.skip(start as int));
        if chars.len() - start != 6 {
            return Err(ParseColorError { value: value.to_owned() });
        }
        let mut digits: Vec<u8> = Vec::new();
        let ghost d = color_digits(value@);
        let mut i: usize = 0;
        while i < 6
            invariant
                i <= 6,
                d == color_digits(value@),
                d == chars@.skip(start as int),
                d.len() == 6,
                start <= 1,
                chars@.len() == start + 6,
                digits@.len() == i,
                forall|k: int|
                    0 <= k < i ==> text::is_hex_digit(#[trigger] d[k]) && digits@[k]
                        == text::hex_value(d[k]) && digits@[k] < 16,
            decreases 6 - i,
        {
            assert(d[i as int] == chars@[start + i]);
            match text::hex_digit_value(chars[start + i]) {
                Some(digit) => {
                    digits.push(digit);
                },
                None => {
                    return Err(ParseColorError { value: value.to_owned() });
                },
            }
            i += 1;
        }
        Ok(
            Color {
                red: digits[0] * 16 + digits[1],
                green: digits[2] * 16 + digits[3],
                blue: digits[4] * 16 + digits[5],
            },
        )
    }
}

impl FromStr for Color {
    type Err = ParseColorError;

    fn from_str(value: &str) -> (r: Result<Self, ParseColorError>)
        ensures
            match r {
                Ok(color) => color_value(value@) == Some(color),
                Err(error) => color_value(value@) is None && error.value@ == value@,
            },
    {
        Color::parse(value)
    }
}

proof fn lemma_byte_digits(byte: u8)
    ensures
        text::is_hex_digit(byte_digits(byte)[0]),
        text::is_hex_digit(byte_digits(byte)[1]),
        hex_byte(byte_digits(byte)[0], byte_digits(byte)[1]) == byte,
{
    let high = (byte / 16) as int;
    let low = (byte % 16) as int;
    assert(byte == high * 16 + low);
    assert(text::hex_value(text::hex_char(high)) == high);
    assert(text::hex_value(text::hex_char(low)) == low);
}

/// Reading back a written colour gives the same colour.
pub proof fn law_color_text_round_trip(color: Color)
    ensures
        color_value(color_text(color)) == Some(color),
{
    let t = color_text(color);
    lemma_byte_digits(color.red);
    lemma_byte_digits(color.green);
    lemma_byte_digits(color.blue);
    assert(t.len() == 7);
    assert(t[6] == byte_digits(color.blue)[1]);
    assert(!text::is_space(t[0]));
    assert(!text::is_space(t[6]));
    assert(text::trimmed_start(t) == t);
    assert(text::trimmed_end(t) == t);
    let d = color_digits(t);
    assert(d[0] == byte_digits(color.red)[0]);
    assert(d[1] == byte_digits(color.red)[1]);
    assert(d[2] == byte_digits(color.green)[0]);
    assert(d[3] == byte_digits(color.green)[1]);
    assert(d[4] == byte_digits(color.blue)[0]);
    assert(d[5] == byte_digits(color.blue)[1]);
}

/// Scaling to no more than the full brightness never brightens a channel, and scaling to the full
/// brightness changes nothing.
pub proof fn law_scaling_dims(channel: u8, percent: u8)
    requires
        percent <= 100,
    ensures
        scaled_channel(channel, percent) <= channel,
        scaled_channel(channel, 100) == channel,
        scaled_channel(channel, 0) == 0,
{
    assert(channel * percent <= channel * 100) by (nonlinear_arith)
        requires
            percent <= 100,
            channel >= 0,
    ;
    assert(channel * percent >= 0) by (nonlinear_arith);
    assert(channel * 0 == 0);
}

/// A higher percentage never gives a darker channel, as long as the channel fits in eight bits.
pub proof fn law_scaling_is_monotone(channel: u8, low: u8, high: u8)
    requires
        low <= high,
        channel * high < 25_600,
    ensures
        scaled_channel(channel, low) <= scaled_channel(channel, high),
{
    assert(0 <= channel * low <= channel * high) by (nonlinear_arith)
        requires
            0 <= low <= high,
            0 <= channel,
    ;
}

/// Whether it is day or night for the lights.
#[derive(Clone, Copy, Debug, PartialEq, Eq, Structural)]
pub enum LightingMode {
    Day,
    Night,
}

/// The whole configuration.
#[derive(Clone, Debug)]
pub struct AppConfig {
    pub device: DeviceConfig,
    pub behavior: BehaviorConfig,
    pub lighting: LightingConfig,
    pub navigation: NavigationConfig,
    pub colors: ColorConfig,
    pub events: EventConfig,
}

/// How to find and address the keyboard.
#[derive(Clone, Debug)]
pub struct DeviceConfig {
    pub vendor_id: u16,
    pub product_id: u16,
    pub usage_page: u16,
    pub usage: u16,
    pub device_index: u8,
    pub lighting_software_id: u8,
    pub init_software_id: u8,
    pub per_key_feature_index: u8,
    pub rgb_effects_feature_index: u8,
    pub mode_feature_index: u8,
    pub response_timeout_ms: u64,
    pub slot_keys: Vec<u8>,
}

/// How many tasks are shown, and whether questions are told from results.
#[derive(Clone, Debug)]
pub struct BehaviorConfig {
    pub max_sessions: usize,
    pub detect_questions: bool,
}

/// The background, the flashing, the watchdog, and the nightly hours without flashing.
#[derive(Clone, Debug)]
pub struct LightingConfig {
    pub background: Color,
    pub flash_enabled: bool,
    pub flash_interval_ms: u64,
    pub flash_dim_percent: u8,
    pub reassert_interval_ms: u64,
    pub night_start_minute: u16,
    pub night_end_minute: u16,
}

/// Whether G-keys open tasks.
#[derive(Clone, Debug)]
pub struct NavigationConfig {
    pub enabled: bool,
}

/// The colour of each state.
#[derive(Clone, Debug)]
pub struct ColorConfig {
    pub idle: Color,
    pub working: Color,
    pub approval: Color,
    pub requested: Color,
    pub done: Color,
    pub error: Color,
}

/// The state that each event leads to.
#[derive(Clone, Debug)]
pub struct EventConfig {
    pub user_prompt_submit: StateKind,
    pub permission_request: StateKind,
    pub post_tool_success: StateKind,
    pub post_tool_failure: StateKind,
    pub stop_complete: StateKind,
    pub stop_question: StateKind,
    pub stop_failure: StateKind,
}

/// A configuration that cannot be used.
#[derive(Clone, Copy, Debug, PartialEq, Eq, Structural)]
pub enum ConfigError {
    SlotKeyCount,
    SessionCount,
    SoftwareId,
    ResponseTimeout,
    FlashInterval,
    FlashDimPercent,
}

impl ConfigError {
    /// What is wrong with the configuration.
    pub fn message(&self) -> (r: &'static str)
        ensures
            r@ == (match *self {
                ConfigError::SlotKeyCount =>
                    "device.slot_keys must contain between one and five G-key addresses"@,
                ConfigError::SessionCount =>
                    "behavior.max_sessions must be between one and the number of device.slot_keys"@,
                ConfigError::SoftwareId => "HID++ software IDs must fit in four bits"@,
                ConfigError::ResponseTimeout => "device.response_timeout_ms must not exceed 1000"@,
                ConfigError::FlashInterval =>
                    "lighting.flash_interval_ms must be between 200 and 5000"@,
                ConfigError::FlashDimPercent =>
                    "lighting.flash_dim_percent must not exceed 100"@,
            }),
    {
        match self {
            ConfigError::SlotKeyCount =>
                "device.slot_keys must contain between one and five G-key addresses",
            ConfigError::SessionCount =>
                "behavior.max_sessions must be between one and the number of device.slot_keys",
            ConfigError::SoftwareId => "HID++ software IDs must fit in four bits",
            ConfigError::ResponseTimeout => "device.response_timeout_ms must not exceed 1000",
            ConfigError::FlashInterval =>
                "lighting.flash_interval_ms must be between 200 and 5000",
            ConfigError::FlashDimPercent => "lighting.flash_dim_percent must not exceed 100",
        }
    }
}

/// The first thing that is wrong with a configuration.
pub open spec fn first_problem(config: AppConfig) -> Option<ConfigError> {
    let keys = config.device.slot_keys@.len();
    if !(1 <= keys <= 5) {
        Some(ConfigError::SlotKeyCount)
    } else if !(1 <= config.behavior.max_sessions <= keys) {
        Some(ConfigError::SessionCount)
    } else if config.device.lighting_software_id >= 16 || config.device.init_software_id >= 16 {
        Some(ConfigError::SoftwareId)
    } else if config.device.response_timeout_ms > 1000 {
        Some(ConfigError::ResponseTimeout)
    } else if !(200 <= config.lighting.flash_interval_ms <= 5000) {
        Some(ConfigError::FlashInterval)
    } else if config.lighting.flash_dim_percent > 100 {
        Some(ConfigError::FlashDimPercent)
    } else {
        None
    }
}

/// The colour of a state.
pub open spec fn state_color(colors: ColorConfig, state: StateKind) -> Color {
    match state {
        StateKind::Idle => colors.idle,
        StateKind::Working => colors.working,
        StateKind::Approval => colors.approval,
        StateKind::Requested => colors.requested,
        StateKind::Done => colors.done,
        StateKind::Error => colors.error,
    }
}

impl AppConfig {
    /// Checks the limits that the keyboard and the lights set.
    pub fn validate(&self) -> (r: Result<(), ConfigError>)
        ensures
            r == (match first_problem(*self) {
                None => Ok::<(), ConfigError>(()),
                Some(problem) => Err(problem),
            }),
    {
        if self.device.slot_keys.len() == 0 || self.device.slot_keys.len() > 5 {
            return Err(ConfigError::SlotKeyCount);
        }
        if self.behavior.max_sessions == 0 || self.behavior.max_sessions
            > self.device.slot_keys.len() {
            return Err(ConfigError::SessionCount);
        }
        if self.device.lighting_software_id > 0x0f || self.device.init_software_id > 0x0f {
            return Err(ConfigError::SoftwareId);
        }
        if self.device.response_timeout_ms > 1_000 {
            return Err(ConfigError::ResponseTimeout);
        }
        if self.lighting.flash_interval_ms < 200 || self.lighting.flash_interval_ms > 5_000 {
            return Err(ConfigError::FlashInterval);
        }
        if self.lighting.flash_dim_percent > 100 {
            return Err(ConfigError::FlashDimPercent);
        }
        Ok(())
    }

    /// The colour of a state.
    pub fn color_for(&self, state: StateKind) -> (r: Color)
        ensures
            r == state_color(self.colors, state),
    {
        match state {
            StateKind::Idle => self.colors.idle,
            StateKind::Working => self.colors.working,
            StateKind::Approval => self.colors.approval,
            StateKind::Requested => self.colors.requested,
            StateKind::Done => self.colors.done,
            StateKind::Error => self.colors.error,
        }
    }
}

/// Night runs from its first minute up to its last, over midnight where it begins later than it
/// ends.
pub open spec fn is_night(config: LightingConfig, minute_of_day: u16) -> bool {
    let start = config.night_start_minute;
    let end = config.night_end_minute;
    if start <= end {
        start <= minute_of_day < end
    } else {
        minute_of_day >= start || minute_of_day < end
    }
}

impl LightingConfig {
    /// Whether the given minute of the day belongs to the day or to the night.
    pub fn mode_at_minute(&self, minute_of_day: u16) -> (r: LightingMode)
        ensures
            r == (if is_night(*self, minute_of_day) {
                LightingMode::Night
            } else {
                LightingMode::Day
            }),
    {
        let night: bool = if self.night_start_minute <= self.night_end_minute {
            self.night_start_minute <= minute_of_day && minute_of_day < self.night_end_minute
        } else {
            minute_of_day >= self.night_start_minute || minute_of_day < self.night_end_minute
        };
        if night {
            LightingMode::Night
        } else {
            LightingMode::Day
        }
    }
}

/// The wired G915, with its five G-keys.
pub open spec fn is_default_device(device: DeviceConfig) -> bool {
    &&& device.vendor_id == 0x046d
    &&& device.product_id == 0xc33e
    &&& device.usage_page == 0xff00
    &&& device.usage == 2
    &&& device.device_index == 0xff
    &&& device.lighting_software_id == 0x0f
    &&& device.init_software_id == 0x0e
    &&& device.per_key_feature_index == 0x0a
    &&& device.rgb_effects_feature_index == 0x09
    &&& device.mode_feature_index == 0x0e
    &&& device.response_timeout_ms == 60
    &&& device.slot_keys@ == seq![0xb4u8, 0xb5u8, 0xb6u8, 0xb7u8, 0xb8u8]
}

impl Default for DeviceConfig {
    /// The wired G915.
    fn default() -> (r: Self)
        ensures
            is_default_device(r),
    {
        DeviceConfig {
            vendor_id: 0x046d,
            product_id: 0xc33e,
            usage_page: 0xff00,
            usage: 2,
            device_index: 0xff,
            lighting_software_id: 0x0f,
            init_software_id: 0x0e,
            per_key_feature_index: 0x0a,
            rgb_effects_feature_index: 0x09,
            mode_feature_index: 0x0e,
            response_timeout_ms: 60,
            slot_keys: vec![0xb4, 0xb5, 0xb6, 0xb7, 0xb8],
        }
    }
}

/// Five tasks, with questions told from results.
pub open spec fn default_behavior() -> BehaviorConfig {
    BehaviorConfig {
        max_sessions: 5,
        detect_questions: true,
    }
}

impl Default for BehaviorConfig {
    fn default() -> (r: Self)
        ensures
            r == default_behavior(),
    {
        BehaviorConfig { max_sessions: 5, detect_questions: true }
    }
}

/// A dim background, flashing every half second by day, and night from 17:00 to 07:00.
pub open spec fn default_lighting() -> LightingConfig {
    LightingConfig {
        background: Color { red: 0x10, green: 0x18, blue: 0x20 },
        flash_enabled: true,
        flash_interval_ms: 500,
        flash_dim_percent: 5,
        reassert_interval_ms: 5000,
        night_start_minute: 1020,
        night_end_minute: 420,
    }
}

impl Default for LightingConfig {
    fn default() -> (r: Self)
        ensures
            r == default_lighting(),
    {
        LightingConfig {
            background: Color { red: 0x10, green: 0x18, blue: 0x20 },
            flash_enabled: true,
            flash_interval_ms: 500,
            flash_dim_percent: 5,
            reassert_interval_ms: 5_000,
            night_start_minute: 1_020,
            night_end_minute: 420,
        }
    }
}

/// G-keys open tasks.
pub open spec fn default_navigation() -> NavigationConfig {
    NavigationConfig {
        enabled: true,
    }
}

impl Default for NavigationConfig {
    fn default() -> (r: Self)
        ensures
            r == default_navigation(),
    {
        NavigationConfig { enabled: true }
    }
}

/// Blue, amber, purple, green and red.
pub open spec fn default_colors() -> ColorConfig {
    ColorConfig {
        idle: Color { red: 0x10, green: 0x18, blue: 0x20 },
        working: Color { red: 0x00, green: 0x7a, blue: 0xff },
        approval: Color { red: 0xff, green: 0x95, blue: 0x00 },
        requested: Color { red: 0xaf, green: 0x52, blue: 0xde },
        done: Color { red: 0x34, green: 0xc7, blue: 0x59 },
        error: Color { red: 0xff, green: 0x3b, blue: 0x30 },
    }
}

impl Default for ColorConfig {
    fn default() -> (r: Self)
        ensures
            r == default_colors(),
    {
        ColorConfig {
            idle: Color { red: 0x10, green: 0x18, blue: 0x20 },
            working: Color { red: 0x00, green: 0x7a, blue: 0xff },
            approval: Color { red: 0xff, green: 0x95, blue: 0x00 },
            requested: Color { red: 0xaf, green: 0x52, blue: 0xde },
            done: Color { red: 0x34, green: 0xc7, blue: 0x59 },
            error: Color { red: 0xff, green: 0x3b, blue: 0x30 },
        }
    }
}

/// A failed tool leaves its task working; only a turn that stops with a failure is an error.
pub open spec fn default_events() -> EventConfig {
    EventConfig {
        user_prompt_submit: StateKind::Working,
        permission_request: StateKind::Approval,
        post_tool_success: StateKind::Working,
        post_tool_failure: StateKind::Working,
        stop_complete: StateKind::Done,
        stop_question: StateKind::Requested,
        stop_failure: StateKind::Error,
    }
}

impl Default for EventConfig {
    fn default() -> (r: Self)
        ensures
            r == default_events(),
    {
        EventConfig {
            user_prompt_submit: StateKind::Working,
            permission_request: StateKind::Approval,
            post_tool_success: StateKind::Working,
            post_tool_failure: StateKind::Working,
            stop_complete: StateKind::Done,
            stop_question: StateKind::Requested,
            stop_failure: StateKind::Error,
        }
    }
}

impl Default for AppConfig {
    /// The defaults of every part. They form a configuration without a problem.
    fn default() -> (r: Self)
        ensures
            first_problem(r) is None,
            is_default_device(r.device),
            r.behavior == default_behavior(),
            r.lighting == default_lighting(),
            r.navigation == default_navigation(),
            r.colors == default_colors(),
            r.events == default_events(),
    {
        AppConfig {
            device: DeviceConfig::default(),
            behavior: BehaviorConfig::default(),
            lighting: LightingConfig::default(),
            navigation: NavigationConfig::default(),
            colors: ColorConfig::default(),
            events: EventConfig::default(),
        }
    }
}

/// Where the files of the indicator lie.
#[derive(Clone, Debug)]
pub struct Paths {
    pub config: String,
    pub codex_sessions: String,
    pub log: String,
    pub runtime_dir: String,
    pub socket: String,
    pub status: String,
}

impl Paths {
    /// The files of the user whose home directory is `home`. `config` takes the place of the usual
    /// configuration file where it is given.
    pub fn under_home(home: &str, config: Option<String>) -> (r: Self)
        ensures
            r.config@ == (match config {
                Some(path) => path@,
                None => paths::joined(
                    paths::joined(
                        paths::joined(home@, ".config"@),
                        "codex-agent-indicator"@,
                    ),
                    "config.toml"@,
                ),
            }),
            r.codex_sessions@ == paths::joined(paths::joined(home@, ".codex"@), "sessions"@),
            r.log@ == paths::joined(
                paths::joined(paths::joined(home@, "Library"@), "Logs"@),
                "codex-agent-indicator.log"@,
            ),
            r.runtime_dir@ == paths::joined(
                paths::joined(home@, ".cache"@),
                "codex-agent-indicator"@,
            ),
            r.socket@ == paths::joined(r.runtime_dir@, "indicator.sock"@),
            r.status@ == paths::joined(r.runtime_dir@, "status.json"@),
    {
        let config: String = match config {
            Some(path) => path,
            None => {
                let base: String = paths::join(home, ".config");
                let directory: String = paths::join(base.as_str(), "codex-agent-indicator");
                paths::join(directory.as_str(), "config.toml")
            },
        };
        let codex: String = paths::join(home, ".codex");
        let library: String = paths::join(home, "Library");
        let logs: String = paths::join(library.as_str(), "Logs");
        let cache: String = paths::join(home, ".cache");
        let runtime_dir: String = paths::join(cache.as_str(), "codex-agent-indicator");
        let socket: String = paths::join(runtime_dir.as_str(), "indicator.sock");
        let status: String = paths::join(runtime_dir.as_str(), "status.json");
        Paths {
            config,
            codex_sessions: paths::join(codex.as_str(), "sessions"),
            log: paths::join(logs.as_str(), "codex-agent-indicator.log"),
            runtime_dir,
            socket,
            status,
        }
    }
}

} // verus!
