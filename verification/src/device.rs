//! The keyboard: what it is asked, what it answers, and which of its G-keys are pressed.
//!
//! Nothing here talks to the keyboard. The functions give the packets to write and judge the
//! reports that were read.
use std::collections::VecDeque;

use vstd::prelude::*;
use vstd::slice::slice_subrange;

use crate::config::{Color, DeviceConfig};
use crate::protocol;
use crate::protocol::{
    commit_packet, g_key_diversion_packet, init_direct_packets, set_keys_one_color_packet,
    set_keys_packet, KEYS_PER_PACKET, LONG_REPORT_ID, ONE_COLOR_KEYS_PER_PACKET, SHORT_REPORT_ID,
};
use crate::time::Duration;

verus! {

/// Lights each key by itself.
pub const PER_KEY_LIGHTING_FEATURE: u16 = 0x8081;

/// Controls the built-in effects.
pub const RGB_EFFECTS_FEATURE: u16 = 0x8071;

/// Controls who lights the keys.
pub const MODE_FEATURE: u16 = 0x4522;

/// Reports the G-keys.
pub const G_KEYS_FEATURE: u16 = 0x8010;

/// How many G-keys there are.
pub const G_KEY_COUNT: u32 = 5;

/// How many lights one answer tells of.
pub const ZONES_PER_PAGE: usize = 112;

/// How many bytes of an answer tell of lights.
pub const ZONE_BYTES: usize = 14;

/// The last light.
pub const LAST_ZONE: usize = 254;

/// Where the features are.
#[derive(Clone, Copy, Debug)]
pub struct FeatureIndices {
    pub per_key_lighting: u8,
    pub rgb_effects: u8,
    pub mode: u8,
    pub g_keys: Option<u8>,
}

/// What is known of the keyboard.
#[derive(Clone, Debug)]
pub struct DeviceSummary {
    pub product: String,
    pub vendor_id: u16,
    pub product_id: u16,
    pub usage_page: u16,
    pub usage: u16,
    pub feature_indices: FeatureIndices,
    pub feature_indices_queried: bool,
    pub zone_count: usize,
    pub g_key_navigation_available: bool,
}

/// An interface of a device that is plugged in.
#[derive(Clone, Copy, Debug)]
pub struct Interface {
    pub vendor_id: u16,
    pub product_id: u16,
    pub usage_page: u16,
    pub usage: u16,
}

/// The key `bit` is down.
pub open spec fn is_down(down: u32, bit: u32) -> bool {
    (down >> bit) & 1u32 == 1u32
}

/// The G-keys, of the first `n`, that are down now and were not before.
pub open spec fn pressed_among(before: u32, now: u32, n: nat) -> Seq<usize>
    decreases n,
{
    if n == 0 {
        Seq::empty()
    } else if is_down(now, (n - 1) as u32) && !is_down(before, (n - 1) as u32) {
        pressed_among(before, now, (n - 1) as nat).push(n as usize)
    } else {
        pressed_among(before, now, (n - 1) as nat)
    }
}

/// The G-keys that are down now and were not before, counted from one.
pub open spec fn newly_pressed(before: u32, now: u32) -> Seq<usize> {
    pressed_among(before, now, G_KEY_COUNT as nat)
}

/// The report tells which G-keys are down.
pub open spec fn is_g_key_report(report: Seq<u8>, config: DeviceConfig, feature: u8) -> bool {
    &&& report.len() >= 8
    &&& report[0] == LONG_REPORT_ID
    &&& report[1] == config.device_index
    &&& report[2] == feature
    &&& report[3] == 0
}

/// The G-keys that a report says are down, one bit each.
pub open spec fn reported_keys(report: Seq<u8>) -> u32 {
    (report[4] + 256 * report[5] + 65536 * report[6] + 16777216 * report[7]) as u32
}

/// The G-keys that are down.
#[derive(Clone, Copy, Debug)]
pub struct GKeyState {
    pub down: u32,
}

impl Default for GKeyState {
    fn default() -> (r: Self)
        ensures
            r.down == 0,
    {
        GKeyState { down: 0 }
    }
}

impl GKeyState {
    /// Takes a report in. The result is the G-keys that have been pressed.
    pub fn update_from_report(
        &mut self,
        report: &[u8],
        config: &DeviceConfig,
        feature_index: u8,
    ) -> (r: Vec<usize>)
        ensures
            if is_g_key_report(report@, *config, feature_index) {
                &&& final(self).down == reported_keys(report@)
                &&& r@ == newly_pressed(old(self).down, final(self).down)
            } else {
                &&& final(self).down == old(self).down
                &&& r@ == Seq::<usize>::empty()
            },
    {
        let mut pressed: Vec<usize> = Vec::new();
        if report.len() < 8 || report[0] != LONG_REPORT_ID || report[1] != config.device_index
            || report[2] != feature_index || report[3] != 0 {
            return pressed;
        }
        let down: u32 = report[4] as u32 + 256 * report[5] as u32 + 65536 * report[6] as u32
            + 16777216 * report[7] as u32;
        let before: u32 = self.down;
        self.down = down;
        let mut bit: u32 = 0;
        while bit < G_KEY_COUNT
            invariant
                bit <= G_KEY_COUNT,
                pressed@ == pressed_among(before, down, bit as nat),
            decreases G_KEY_COUNT - bit,
        {
            if (down >> bit) & 1u32 == 1u32 && (before >> bit) & 1u32 != 1u32 {
                pressed.push(bit as usize + 1);
            }
            bit += 1;
        }
        pressed
    }
}

/// The same report again presses no key.
pub proof fn law_held_keys_are_pressed_once(down: u32, n: nat)
    ensures
        pressed_among(down, down, n) == Seq::<usize>::empty(),
    decreases n,
{
    if n > 0 {
        law_held_keys_are_pressed_once(down, (n - 1) as nat);
    }
}

/// The pressed keys are G-keys, and each was up before and is down now.
pub proof fn law_pressed_keys_are_rising_edges(before: u32, now: u32, n: nat, i: int)
    requires
        n <= G_KEY_COUNT,
        0 <= i < pressed_among(before, now, n).len(),
    ensures
        ({
            let key = pressed_among(before, now, n)[i];
            &&& 1 <= key <= n
            &&& is_down(now, (key - 1) as u32)
            &&& !is_down(before, (key - 1) as u32)
        }),
    decreases n,
{
    if n > 0 && i < pressed_among(before, now, (n - 1) as nat).len() {
        law_pressed_keys_are_rising_edges(before, now, (n - 1) as nat, i);
    }
}

/// The pressed keys come in their order, each once.
pub proof fn law_pressed_keys_ascend(before: u32, now: u32, n: nat, i: int, j: int)
    requires
        n <= G_KEY_COUNT,
        0 <= i < j < pressed_among(before, now, n).len(),
    ensures
        pressed_among(before, now, n)[i] < pressed_among(before, now, n)[j],
    decreases n,
{
    let shorter = pressed_among(before, now, (n - 1) as nat);
    if j < shorter.len() {
        law_pressed_keys_ascend(before, now, (n - 1) as nat, i, j);
    } else {
        law_pressed_keys_are_rising_edges(before, now, (n - 1) as nat, i);
    }
}

/// Every key that was up before and is down now is among the pressed keys.
pub proof fn law_every_rising_edge_is_pressed(before: u32, now: u32, n: nat, key: usize)
    requires
        n <= G_KEY_COUNT,
        1 <= key <= n,
        is_down(now, (key - 1) as u32),
        !is_down(before, (key - 1) as u32),
    ensures
        pressed_among(before, now, n).contains(key),
    decreases n,
{
    let pressed = pressed_among(before, now, n);
    let shorter = pressed_among(before, now, (n - 1) as nat);
    if key == n {
        assert(pressed[shorter.len() as int] == key);
    } else {
        law_every_rising_edge_is_pressed(before, now, (n - 1) as nat, key);
        let i = shorter.index_of(key);
        assert(pressed[i] == key);
    }
}

/// The interface is that of the configured keyboard.
pub open spec fn is_keyboard(interface: Interface, config: DeviceConfig) -> bool {
    &&& interface.vendor_id == config.vendor_id
    &&& interface.product_id == config.product_id
    &&& interface.usage_page == config.usage_page
    &&& interface.usage == config.usage
}

/// The interface of the configured keyboard: the first that fits.
pub fn find_interface(interfaces: &Vec<Interface>, config: &DeviceConfig) -> (r: Option<usize>)
    ensures
        match r {
            Some(i) => {
                &&& i < interfaces@.len()
                &&& is_keyboard(interfaces@[i as int], *config)
                &&& forall|j: int| 0 <= j < i ==> !is_keyboard(#[trigger] interfaces@[j], *config)
            },
            None => forall|j: int|
                0 <= j < interfaces@.len() ==> !is_keyboard(#[trigger] interfaces@[j], *config),
        },
{
    let mut i: usize = 0;
    while i < interfaces.len()
        invariant
            i <= interfaces@.len(),
            forall|j: int| 0 <= j < i ==> !is_keyboard(#[trigger] interfaces@[j], *config),
        decreases interfaces@.len() - i,
    {
        let interface: Interface = interfaces[i];
        if interface.vendor_id == config.vendor_id && interface.product_id == config.product_id
            && interface.usage_page == config.usage_page && interface.usage == config.usage {
            return Some(i);
        }
        i += 1;
    }
    None
}

/// How long to wait for the next report, in milliseconds, while `remaining` is left.
pub fn reply_timeout(remaining: Duration) -> (r: Option<i32>)
    ensures
        match r {
            Some(timeout) => {
                let whole = remaining.nanos / 1_000_000;
                &&& remaining.nanos > 0
                &&& timeout == if whole < 1 {
                    1
                } else if whole > i32::MAX {
                    i32::MAX as int
                } else {
                    whole as int
                }
            },
            None => remaining.nanos == 0,
        },
{
    if remaining.nanos == 0 {
        return None;
    }
    let whole: u128 = remaining.as_millis();
    if whole < 1 {
        Some(1)
    } else if whole > i32::MAX as u128 {
        Some(i32::MAX)
    } else {
        Some(whole as i32)
    }
}

/// How long to wait for an answer that is thrown away, in milliseconds.
pub fn drain_timeout(timeout_ms: u64) -> (r: i32)
    ensures
        r == (if timeout_ms > i32::MAX {
            i32::MAX as int
        } else {
            timeout_ms as int
        }),
{
    if timeout_ms > i32::MAX as u64 {
        i32::MAX
    } else {
        timeout_ms as i32
    }
}

/// The report is the answer to a question of ours to the feature `feature`.
pub open spec fn is_reply(
    report: Seq<u8>,
    config: DeviceConfig,
    feature: u8,
    function: u8,
) -> bool {
    &&& report[1] == config.device_index
    &&& report[2] == feature
    &&& report[3] == protocol::lighting_function(config, function)
}

/// What a report says of the place of a feature: nothing, where it is no answer; otherwise its
/// place, where the keyboard has the feature.
pub open spec fn feature_reply(report: Seq<u8>, config: DeviceConfig) -> Option<Option<u8>> {
    if report.len() >= 7 && (report[0] == SHORT_REPORT_ID || report[0] == LONG_REPORT_ID)
        && report[1] == config.device_index && report[2] == 0 && report[3]
        == protocol::low_nibble(config.lighting_software_id) {
        Some(
            if report[4] != 0 {
                Some(report[4])
            } else {
                None
            },
        )
    } else {
        None
    }
}

/// What a report says of the place of a feature.
pub fn read_feature_reply(report: &[u8], config: &DeviceConfig) -> (r: Option<Option<u8>>)
    ensures
        r == feature_reply(report@, *config),
{
    if report.len() >= 7 && (report[0] == SHORT_REPORT_ID || report[0] == LONG_REPORT_ID)
        && report[1] == config.device_index && report[2] == 0 && report[3] == (
    config.lighting_software_id & 0x0f) {
        if report[4] != 0 {
            Some(Some(report[4]))
        } else {
            Some(None)
        }
    } else {
        None
    }
}

/// What a report says of the lights of a page.
pub open spec fn zone_reply(report: Seq<u8>, config: DeviceConfig, feature: u8) -> Option<Seq<u8>> {
    if report.len() >= 20 && report[0] == LONG_REPORT_ID && report[1] == config.device_index
        && report[2] == feature && report[3] == protocol::low_nibble(config.lighting_software_id) {
        Some(report.subrange(6, 20))
    } else {
        None
    }
}

/// What a report says of the lights of a page.
pub fn read_zone_reply(report: &[u8], config: &DeviceConfig, feature_index: u8) -> (r: Option<
    [u8; 14],
>)
    ensures
        (match r {
            Some(bits) => Some(bits@),
            None => None,
        }) == zone_reply(report@, *config, feature_index),
{
    if report.len() >= 20 && report[0] == LONG_REPORT_ID && report[1] == config.device_index
        && report[2] == feature_index && report[3] == (config.lighting_software_id & 0x0f) {
        let mut bits: [u8; 14] = [0u8; 14];
        let mut i: usize = 0;
        while i < ZONE_BYTES
            invariant
                i <= ZONE_BYTES,
                bits@.len() == ZONE_BYTES,
                report@.len() >= 20,
                forall|j: int| 0 <= j < i ==> bits@[j] == report@[6 + j],
            decreases ZONE_BYTES - i,
        {
            bits[i] = report[6 + i];
            i += 1;
        }
        assert(bits@ =~= report@.subrange(6, 20));
        Some(bits)
    } else {
        None
    }
}

/// The report confirms that G-keys are reported, or not any more.
pub open spec fn confirms_diversion(report: Seq<u8>, config: DeviceConfig, feature: u8) -> bool {
    report.len() >= 4 && (report[0] == SHORT_REPORT_ID || report[0] == LONG_REPORT_ID)
        && is_reply(report, config, feature, 0x20)
}

/// Where the features are, given what the keyboard has answered, and whether it has answered all
/// that matters.
pub fn discover_feature_indices(
    config: &DeviceConfig,
    per_key: Option<u8>,
    rgb_effects: Option<u8>,
    mode: Option<u8>,
    g_keys: Option<u8>,
) -> (r: (FeatureIndices, bool))
    ensures
        r.0.per_key_lighting == (match per_key {
            Some(index) => index,
            None => config.per_key_feature_index,
        }),
        r.0.rgb_effects == (match rgb_effects {
            Some(index) => index,
            None => config.rgb_effects_feature_index,
        }),
        r.0.mode == (match mode {
            Some(index) => index,
            None => config.mode_feature_index,
        }),
        r.0.g_keys == g_keys,
        r.1 == (per_key is Some && rgb_effects is Some && mode is Some),
{
    let queried: bool = per_key.is_some() && rgb_effects.is_some() && mode.is_some();
    let per_key_lighting: u8 = match per_key {
        Some(index) => index,
        None => config.per_key_feature_index,
    };
    let rgb_effects: u8 = match rgb_effects {
        Some(index) => index,
        None => config.rgb_effects_feature_index,
    };
    let mode: u8 = match mode {
        Some(index) => index,
        None => config.mode_feature_index,
    };
    (FeatureIndices { per_key_lighting, rgb_effects, mode, g_keys }, queried)
}

/// The pages say that there is the light `zone`.
pub open spec fn has_zone(pages: Seq<Seq<u8>>, zone: int) -> bool {
    let byte = pages[zone / ZONES_PER_PAGE as int][(zone % ZONES_PER_PAGE as int) / 8];
    is_down(byte as u32, (zone % 8) as u32)
}

/// The lights up to `last`, in their order.
pub open spec fn zones_up_to(pages: Seq<Seq<u8>>, last: nat) -> Seq<u8>
    decreases last,
{
    if last == 0 {
        Seq::empty()
    } else if has_zone(pages, last as int) {
        zones_up_to(pages, (last - 1) as nat).push(last as u8)
    } else {
        zones_up_to(pages, (last - 1) as nat)
    }
}

/// The bytes of three pages.
pub open spec fn page_bytes(pages: [[u8; 14]; 3]) -> Seq<Seq<u8>> {
    pages@.map_values(|page: [u8; 14]| page@)
}

/// The lights that three pages tell of, where there are any.
pub fn discover_zone_ids(pages: &[[u8; 14]; 3]) -> (r: Option<Vec<u8>>)
    ensures
        match r {
            Some(zones) => zones@ == zones_up_to(page_bytes(*pages), LAST_ZONE as nat)
                && zones@.len() > 0,
            None => zones_up_to(page_bytes(*pages), LAST_ZONE as nat).len() == 0,
        },
{
    let mut zones: Vec<u8> = Vec::new();
    let mut zone: usize = 1;
    while zone <= LAST_ZONE
        invariant
            1 <= zone <= LAST_ZONE + 1,
            zones@ == zones_up_to(page_bytes(*pages), (zone - 1) as nat),
        decreases LAST_ZONE + 1 - zone,
    {
        let page: usize = zone / ZONES_PER_PAGE;
        let byte: u8 = pages[page][(zone % ZONES_PER_PAGE) / 8];
        let bit: u32 = (zone % 8) as u32;
        assert(page_bytes(*pages)[page as int] == pages@[page as int]@);
        assert(has_zone(page_bytes(*pages), zone as int) == is_down(byte as u32, bit));
        if (byte as u32 >> bit) & 1u32 == 1u32 {
            zones.push(zone as u8);
        }
        zone += 1;
    }
    if zones.len() == 0 {
        None
    } else {
        Some(zones)
    }
}

/// The lights come in ascending order, and neither the first number nor the last is one.
pub proof fn law_zones_are_ascending(pages: Seq<Seq<u8>>, last: nat)
    requires
        last <= LAST_ZONE,
    ensures
        forall|i: int|
            0 <= i < zones_up_to(pages, last).len() ==> 1 <= #[trigger] zones_up_to(pages, last)[i]
                <= last,
        forall|i: int, j: int|
            0 <= i < j < zones_up_to(pages, last).len() ==> #[trigger] zones_up_to(pages, last)[i]
                < #[trigger] zones_up_to(pages, last)[j],
    decreases last,
{
    if last > 0 {
        law_zones_are_ascending(pages, (last - 1) as nat);
        let before = zones_up_to(pages, (last - 1) as nat);
        let now = zones_up_to(pages, last);
        assert(now == before || now == before.push(last as u8));
        assert forall|i: int| 0 <= i < now.len() implies 1 <= #[trigger] now[i] <= last by {
            assert(i < before.len() ==> now[i] == before[i]);
        }
        assert forall|i: int, j: int| 0 <= i < j < now.len() implies #[trigger] now[i]
            < #[trigger] now[j] by {
            assert(now[i] == before[i]);
            assert(j < before.len() ==> now[j] == before[j]);
        }
    }
}

/// The lights of the keyboard, where it does not tell.
pub open spec fn known_zones() -> Seq<u8> {
    Seq::new(0x6f, |i: int| (i + 1) as u8) + seq![
        0x99u8,
        0x9bu8,
        0x9cu8,
        0x9du8,
        0x9eu8,
        0xb4u8,
        0xb5u8,
        0xb6u8,
        0xb7u8,
        0xb8u8,
        0xd2u8,
    ]
}

/// The lights of the keyboard, where it does not tell.
pub fn fallback_zone_ids() -> (r: Vec<u8>)
    ensures
        r@ == known_zones(),
{
    let mut zones: Vec<u8> = Vec::new();
    let mut zone: u8 = 1;
    while zone <= 0x6f
        invariant
            1 <= zone <= 0x70,
            zones@ == Seq::new((zone - 1) as nat, |i: int| (i + 1) as u8),
        decreases 0x70 - zone,
    {
        zones.push(zone);
        zone += 1;
        assert(zones@ =~= Seq::new((zone - 1) as nat, |i: int| (i + 1) as u8));
    }
    let ghost first = zones@;
    zones.push(0x99);
    zones.push(0x9b);
    zones.push(0x9c);
    zones.push(0x9d);
    zones.push(0x9e);
    zones.push(0xb4);
    zones.push(0xb5);
    zones.push(0xb6);
    zones.push(0xb7);
    zones.push(0xb8);
    zones.push(0xd2);
    assert(zones@ =~= known_zones());
    zones
}

/// The packets that light keys in their colours.
pub open spec fn key_reports(config: DeviceConfig, feature: u8, keys: Seq<(u8, Color)>) -> Seq<
    Seq<u8>,
>
    decreases keys.len(),
{
    if keys.len() == 0 {
        Seq::empty()
    } else if keys.len() <= KEYS_PER_PACKET {
        seq![protocol::keys_report(config, feature, keys)]
    } else {
        seq![protocol::keys_report(config, feature, keys.take(KEYS_PER_PACKET as int))]
            + key_reports(config, feature, keys.skip(KEYS_PER_PACKET as int))
    }
}

/// The packets that light keys in one colour.
pub open spec fn one_color_reports(
    config: DeviceConfig,
    feature: u8,
    keys: Seq<u8>,
    color: Color,
) -> Seq<Seq<u8>>
    decreases keys.len(),
{
    if keys.len() == 0 {
        Seq::empty()
    } else if keys.len() <= ONE_COLOR_KEYS_PER_PACKET {
        seq![protocol::one_color_report(config, feature, keys, color)]
    } else {
        seq![
            protocol::one_color_report(
                config,
                feature,
                keys.take(ONE_COLOR_KEYS_PER_PACKET as int),
                color,
            ),
        ] + one_color_reports(config, feature, keys.skip(ONE_COLOR_KEYS_PER_PACKET as int), color)
    }
}

/// Some packets, and one that makes them take effect, where there are any.
pub open spec fn committed(config: DeviceConfig, feature: u8, reports: Seq<Seq<u8>>) -> Seq<
    Seq<u8>,
> {
    if reports.len() == 0 {
        reports
    } else {
        reports.push(protocol::commit_report(config, feature))
    }
}

/// The bytes of some packets.
pub open spec fn packet_bytes(packets: Seq<[u8; 20]>) -> Seq<Seq<u8>> {
    packets.map_values(|packet: [u8; 20]| packet@)
}

/// What the keyboard is, and what it has been told.
#[derive(Debug)]
pub struct G915 {
    config: DeviceConfig,
    feature_indices: FeatureIndices,
    zone_ids: Vec<u8>,
    g_key_state: GKeyState,
    pending_g_key_presses: VecDeque<usize>,
    g_key_diversion_enabled: bool,
}

/// What the keyboard is, and what it has been told.
#[verifier::ext_equal]
pub struct KeyboardModel {
    pub config: DeviceConfig,
    pub indices: FeatureIndices,
    pub zones: Seq<u8>,
    pub down: u32,
    pub pending: Seq<usize>,
    pub diverted: bool,
}

/// What it takes to have G-keys reported, or not any more.
#[derive(Clone, Copy, Debug)]
pub enum NavigationRequest {
    /// The keyboard does not report G-keys.
    Unavailable,
    /// It is so already.
    Unchanged,
    /// The packet has to be written and its confirmation awaited.
    Write([u8; 20]),
}

impl View for G915 {
    type V = KeyboardModel;

    closed spec fn view(&self) -> KeyboardModel {
        KeyboardModel {
            config: self.config,
            indices: self.feature_indices,
            zones: self.zone_ids@,
            down: self.g_key_state.down,
            pending: self.pending_g_key_presses@,
            diverted: self.g_key_diversion_enabled,
        }
    }
}

impl KeyboardModel {
    /// What is known after a report: which G-keys are down, and which have been pressed.
    pub open spec fn after_report(self, report: Seq<u8>, feature: u8) -> (KeyboardModel, Seq<usize>) {
        if is_g_key_report(report, self.config, feature) {
            let down = reported_keys(report);
            (KeyboardModel { down, ..self }, newly_pressed(self.down, down))
        } else {
            (self, Seq::empty())
        }
    }

    /// What is known after some reports.
    pub open spec fn after_reports(self, reports: Seq<Vec<u8>>, feature: u8) -> (
        KeyboardModel,
        Seq<usize>,
    )
        decreases reports.len(),
    {
        if reports.len() == 0 {
            (self, Seq::empty())
        } else {
            let (before, pressed) = self.after_reports(reports.drop_last(), feature);
            let (after, more) = before.after_report(reports.last()@, feature);
            (after, pressed + more)
        }
    }

    /// The G-keys are reported.
    pub open spec fn navigates(self) -> bool {
        self.indices.g_keys is Some && self.diverted
    }
}

impl G915 {
    /// A keyboard that was just found.
    pub fn new(config: DeviceConfig, feature_indices: FeatureIndices, zone_ids: Vec<u8>) -> (r: Self)
        ensures
            r@ == (KeyboardModel {
                config,
                indices: feature_indices,
                zones: zone_ids@,
                down: 0,
                pending: Seq::empty(),
                diverted: false,
            }),
    {
        G915 {
            config,
            feature_indices,
            zone_ids,
            g_key_state: GKeyState { down: 0 },
            pending_g_key_presses: VecDeque::new(),
            g_key_diversion_enabled: false,
        }
    }

    /// What is known of the keyboard.
    pub fn summary(&self, product: String, queried: bool) -> (r: DeviceSummary)
        ensures
            r.product == product,
            r.vendor_id == self@.config.vendor_id,
            r.product_id == self@.config.product_id,
            r.usage_page == self@.config.usage_page,
            r.usage == self@.config.usage,
            r.feature_indices == self@.indices,
            r.feature_indices_queried == queried,
            r.zone_count == self@.zones.len(),
            r.g_key_navigation_available == (self@.indices.g_keys is Some),
    {
        DeviceSummary {
            product,
            vendor_id: self.config.vendor_id,
            product_id: self.config.product_id,
            usage_page: self.config.usage_page,
            usage: self.config.usage,
            feature_indices: self.feature_indices,
            feature_indices_queried: queried,
            zone_count: self.zone_ids.len(),
            g_key_navigation_available: self.feature_indices.g_keys.is_some(),
        }
    }

    /// The packets that light keys in their colours.
    pub fn set_keys(&self, keys: &[(u8, Color)]) -> (r: Vec<[u8; 20]>)
        ensures
            packet_bytes(r@) == committed(
                self@.config,
                self@.indices.per_key_lighting,
                key_reports(self@.config, self@.indices.per_key_lighting, keys@),
            ),
    {
        let feature: u8 = self.feature_indices.per_key_lighting;
        let ghost all = key_reports(self.config, feature, keys@);
        let mut packets: Vec<[u8; 20]> = Vec::new();
        let mut start: usize = 0;
        let total: usize = keys.len();
        assert(keys@.skip(0) =~= keys@);
        assert(packet_bytes(packets@) + all =~= all);
        while start < total
            invariant
                total == keys@.len(),
                start <= total,
                packet_bytes(packets@) + key_reports(
                    self.config,
                    feature,
                    keys@.skip(start as int),
                ) == all,
            decreases total - start,
        {
            let end: usize = if total - start > KEYS_PER_PACKET {
                start + KEYS_PER_PACKET
            } else {
                total
            };
            let chunk: &[(u8, Color)] = slice_subrange(keys, start, end);
            let packet: [u8; 20] = set_keys_packet(&self.config, feature, chunk);
            let ghost before = packets@;
            let ghost rest = keys@.skip(start as int);
            packets.push(packet);
            proof {
                let later = key_reports(self.config, feature, keys@.skip(end as int));
                if end == total {
                    assert(chunk@ =~= rest);
                    assert(keys@.skip(end as int) =~= Seq::empty());
                } else {
                    assert(chunk@ =~= rest.take(KEYS_PER_PACKET as int));
                    assert(rest.skip(KEYS_PER_PACKET as int) =~= keys@.skip(end as int));
                }
                assert(key_reports(self.config, feature, rest) =~= seq![packet@] + later);
                assert(packet_bytes(packets@) =~= packet_bytes(before).push(packet@));
                assert(packet_bytes(packets@) + later =~= packet_bytes(before) + (seq![packet@]
                    + later));
            }
            start = end;
        }
        proof {
            assert(keys@.skip(start as int) =~= Seq::empty());
            assert(packet_bytes(packets@) =~= all);
        }
        if packets.len() > 0 {
            let ghost before = packets@;
            packets.push(commit_packet(&self.config, feature));
            assert(packet_bytes(packets@) =~= packet_bytes(before).push(
                protocol::commit_report(self.config, feature),
            ));
        }
        packets
    }

    /// The packets that light keys in one colour.
    pub fn set_keys_one_color(&self, keys: &[u8], color: Color) -> (r: Vec<[u8; 20]>)
        ensures
            packet_bytes(r@) == committed(
                self@.config,
                self@.indices.per_key_lighting,
                one_color_reports(self@.config, self@.indices.per_key_lighting, keys@, color),
            ),
    {
        let feature: u8 = self.feature_indices.per_key_lighting;
        let ghost all = one_color_reports(self.config, feature, keys@, color);
        let mut packets: Vec<[u8; 20]> = Vec::new();
        let mut start: usize = 0;
        let total: usize = keys.len();
        assert(keys@.skip(0) =~= keys@);
        assert(packet_bytes(packets@) + all =~= all);
        while start < total
            invariant
                total == keys@.len(),
                start <= total,
                packet_bytes(packets@) + one_color_reports(
                    self.config,
                    feature,
                    keys@.skip(start as int),
                    color,
                ) == all,
            decreases total - start,
        {
            let end: usize = if total - start > ONE_COLOR_KEYS_PER_PACKET {
                start + ONE_COLOR_KEYS_PER_PACKET
            } else {
                total
            };
            let chunk: &[u8] = slice_subrange(keys, start, end);
            let packet: [u8; 20] = set_keys_one_color_packet(&self.config, feature, chunk, color);
            let ghost before = packets@;
            let ghost rest = keys@.skip(start as int);
            packets.push(packet);
            proof {
                let later = one_color_reports(self.config, feature, keys@.skip(end as int), color);
                if end == total {
                    assert(chunk@ =~= rest);
                    assert(keys@.skip(end as int) =~= Seq::empty());
                } else {
                    assert(chunk@ =~= rest.take(ONE_COLOR_KEYS_PER_PACKET as int));
                    assert(rest.skip(ONE_COLOR_KEYS_PER_PACKET as int) =~= keys@.skip(end as int));
                }
                assert(one_color_reports(self.config, feature, rest, color) =~= seq![packet@]
                    + later);
                assert(packet_bytes(packets@) =~= packet_bytes(before).push(packet@));
                assert(packet_bytes(packets@) + later =~= packet_bytes(before) + (seq![packet@]
                    + later));
            }
            start = end;
        }
        proof {
            assert(keys@.skip(start as int) =~= Seq::empty());
            assert(packet_bytes(packets@) =~= all);
        }
        if packets.len() > 0 {
            let ghost before = packets@;
            packets.push(commit_packet(&self.config, feature));
            assert(packet_bytes(packets@) =~= packet_bytes(before).push(
                protocol::commit_report(self.config, feature),
            ));
        }
        packets
    }

    /// The packets that light the whole keyboard in one colour.
    pub fn set_background(&self, color: Color) -> (r: Vec<[u8; 20]>)
        ensures
            packet_bytes(r@) == committed(
                self@.config,
                self@.indices.per_key_lighting,
                one_color_reports(
                    self@.config,
                    self@.indices.per_key_lighting,
                    self@.zones,
                    color,
                ),
            ),
    {
        self.set_keys_one_color(self.zone_ids.as_slice(), color)
    }

    /// What it takes to have G-keys reported, or not any more.
    pub fn set_g_key_navigation(&self, enabled: bool) -> (r: NavigationRequest)
        ensures
            match r {
                NavigationRequest::Unavailable => self@.indices.g_keys is None,
                NavigationRequest::Unchanged => self@.indices.g_keys is Some && self@.diverted
                    == enabled,
                NavigationRequest::Write(packet) => {
                    &&& self@.indices.g_keys matches Some(feature) && packet@
                        == protocol::diversion_report(self@.config, feature, enabled)
                    &&& self@.diverted != enabled
                },
            },
    {
        match self.feature_indices.g_keys {
            Some(feature) => {
                if self.g_key_diversion_enabled == enabled {
                    NavigationRequest::Unchanged
                } else {
                    NavigationRequest::Write(g_key_diversion_packet(&self.config, feature, enabled))
                }
            },
            None => NavigationRequest::Unavailable,
        }
    }

    /// The packet of [`set_g_key_navigation`](Self::set_g_key_navigation) has been written.
    pub fn navigation_written(&mut self, enabled: bool)
        ensures
            final(self)@ == (KeyboardModel { diverted: enabled, ..old(self)@ }),
    {
        self.g_key_diversion_enabled = enabled;
    }

    /// A report came while the confirmation is awaited. Pressed keys are kept for later. The result
    /// says whether this was the confirmation.
    pub fn navigation_report(&mut self, report: &[u8]) -> (r: bool)
        ensures
            match old(self)@.indices.g_keys {
                Some(feature) => {
                    let (after, pressed) = old(self)@.after_report(report@, feature);
                    &&& final(self)@ == (KeyboardModel {
                        pending: old(self)@.pending + pressed,
                        ..after
                    })
                    &&& r == confirms_diversion(report@, old(self)@.config, feature)
                },
                None => final(self)@ == old(self)@ && !r,
            },
    {
        match self.feature_indices.g_keys {
            Some(feature) => {
                let pressed: Vec<usize> = self.g_key_state.update_from_report(
                    report,
                    &self.config,
                    feature,
                );
                let ghost before = self.pending_g_key_presses@;
                let mut i: usize = 0;
                assert(before + pressed@.take(0) =~= before);
                while i < pressed.len()
                    invariant
                        i <= pressed@.len(),
                        self.pending_g_key_presses@ == before + pressed@.take(i as int),
                        self@ == (KeyboardModel {
                            pending: self.pending_g_key_presses@,
                            down: self.g_key_state.down,
                            ..old(self)@
                        }),
                        self.g_key_state.down == old(self)@.after_report(report@, feature).0.down,
                        self.feature_indices == old(self).feature_indices,
                        self.config == old(self).config,
                    decreases pressed@.len() - i,
                {
                    self.pending_g_key_presses.push_back(pressed[i]);
                    i += 1;
                    assert(self.pending_g_key_presses@ =~= before + pressed@.take(i as int));
                }
                assert(pressed@.take(i as int) =~= pressed@);
                report.len() >= 4 && (report[0] == SHORT_REPORT_ID || report[0] == LONG_REPORT_ID)
                    && report[1] == self.config.device_index && report[2] == feature && report[3]
                    == (0x20 | (self.config.lighting_software_id & 0x0f))
            },
            None => false,
        }
    }

    /// The confirmation has come.
    pub fn navigation_confirmed(&mut self, enabled: bool)
        ensures
            final(self)@ == if enabled {
                old(self)@
            } else {
                KeyboardModel { down: 0, pending: Seq::empty(), ..old(self)@ }
            },
    {
        if !enabled {
            self.g_key_state = GKeyState { down: 0 };
            self.pending_g_key_presses.clear();
        }
    }

    /// The G-keys that have been pressed, those that were kept for later first. `reports` are the
    /// reports that have come since.
    pub fn poll_g_key_presses(&mut self, reports: &Vec<Vec<u8>>) -> (r: Vec<usize>)
        ensures
            if old(self)@.navigates() {
                let (after, pressed) = old(self)@.after_reports(
                    reports@,
                    old(self)@.indices.g_keys->0,
                );
                &&& final(self)@ == (KeyboardModel { pending: Seq::empty(), ..after })
                &&& r@ == old(self)@.pending + pressed
            } else {
                &&& final(self)@ == old(self)@
                &&& r@ == Seq::<usize>::empty()
            },
    {
        let mut pressed: Vec<usize> = Vec::new();
        if !self.g_key_diversion_enabled {
            return pressed;
        }
        match self.feature_indices.g_keys {
            Some(feature) => {
                let ghost kept = self.pending_g_key_presses@;
                let mut i: usize = 0;
                assert(kept.take(0) =~= Seq::empty());
                while i < self.pending_g_key_presses.len()
                    invariant
                        i <= self.pending_g_key_presses@.len(),
                        kept == self.pending_g_key_presses@,
                        pressed@ == kept.take(i as int),
                    decreases self.pending_g_key_presses@.len() - i,
                {
                    pressed.push(self.pending_g_key_presses[i]);
                    i += 1;
                    assert(pressed@ =~= kept.take(i as int));
                }
                assert(kept.take(i as int) =~= kept);
                self.pending_g_key_presses.clear();
                let mut k: usize = 0;
                assert(reports@.take(0) =~= Seq::empty());
                assert(pressed@ =~= kept + Seq::<usize>::empty());
                while k < reports.len()
                    invariant
                        k <= reports@.len(),
                        ({
                            let (now, told) = old(self)@.after_reports(
                                reports@.take(k as int),
                                feature,
                            );
                            &&& self@ == (KeyboardModel { pending: Seq::empty(), ..now })
                            &&& pressed@ == kept + told
                        }),
                        self.config == old(self)@.config,
                    decreases reports@.len() - k,
                {
                    proof {
                        assert(reports@.take(k + 1).drop_last() =~= reports@.take(k as int));
                        assert(reports@.take(k + 1).last() == reports@[k as int]);
                    }
                    let more: Vec<usize> = self.g_key_state.update_from_report(
                        reports[k].as_slice(),
                        &self.config,
                        feature,
                    );
                    let ghost before = pressed@;
                    let mut j: usize = 0;
                    assert(before + more@.take(0) =~= before);
                    while j < more.len()
                        invariant
                            j <= more@.len(),
                            pressed@ == before + more@.take(j as int),
                        decreases more@.len() - j,
                    {
                        pressed.push(more[j]);
                        j += 1;
                        assert(pressed@ =~= before + more@.take(j as int));
                    }
                    proof {
                        assert(more@.take(j as int) =~= more@);
                        let told = old(self)@.after_reports(reports@.take(k as int), feature).1;
                        assert(kept + told + more@ =~= kept + (told + more@));
                    }
                    k += 1;
                }
                assert(reports@.take(k as int) =~= reports@);
                pressed
            },
            None => pressed,
        }
    }

    /// Whether G-keys are reported.
    pub fn g_key_navigation_active(&self) -> (r: bool)
        ensures
            r == self@.navigates(),
    {
        self.feature_indices.g_keys.is_some() && self.g_key_diversion_enabled
    }

    /// The packets that let software light the keys.
    pub fn reassert_direct_mode(&self) -> (r: [[u8; 20]; 4])
        ensures
            packet_bytes(r@) == protocol::init_reports(
                self@.config,
                self@.indices.mode,
                self@.indices.rgb_effects,
            ),
    {
        init_direct_packets(
            &self.config,
            self.feature_indices.mode,
            self.feature_indices.rgb_effects,
        )
    }

    /// The packet that has G-keys reported, where the keyboard can do that.
    pub fn reassert_g_key_navigation(&self) -> (r: Option<[u8; 20]>)
        ensures
            match self@.indices.g_keys {
                Some(feature) => r matches Some(packet) && packet@ == protocol::diversion_report(
                    self@.config,
                    feature,
                    true,
                ),
                None => r is None,
            },
    {
        match self.feature_indices.g_keys {
            Some(feature) => Some(g_key_diversion_packet(&self.config, feature, true)),
            None => None,
        }
    }

    /// The packet that gives the G-keys back, where they are reported.
    pub fn closing_packet(&self) -> (r: Option<[u8; 20]>)
        ensures
            match r {
                Some(packet) => self@.navigates() && packet@ == protocol::diversion_report(
                    self@.config,
                    self@.indices.g_keys->0,
                    false,
                ),
                None => !self@.navigates(),
            },
    {
        if !self.g_key_diversion_enabled {
            return None;
        }
        match self.feature_indices.g_keys {
            Some(feature) => Some(g_key_diversion_packet(&self.config, feature, false)),
            None => None,
        }
    }
}

} // verus!
