//! What the operations on the keyboard, on clocks and on the command line do, stated of what goes
//! in and what comes out.
use vstd::prelude::*;

use crate::cli::{clear_message, requested_command, set_message, wants_force, Command, SetStateError};
use crate::config::{AppConfig, Color, ConfigError, DeviceConfig, ParseColorError, Paths};
use crate::config_laws;
use crate::device;
use crate::device::{
    discover_feature_indices, discover_zone_ids, drain_timeout, fallback_zone_ids,
    read_feature_reply, read_zone_reply, reply_timeout, FeatureIndices, GKeyState, G915,
};
use crate::device_laws;
use crate::hardware;
use crate::hardware::{Attempt, Hardware, HardwareAction, Plan};
use crate::hardware_laws;
use crate::lighting::{minute_of_day, LightingModeController, LightingWatchdog};
use crate::log_rotation::LogRotator;
use crate::navigation::{codex_open_arguments, codex_thread_url};
use crate::paths;
use crate::protocol;
use crate::protocol::{
    commit_packet, feature_query, g_key_diversion_packet, init_direct_packets,
    set_keys_one_color_packet, set_keys_packet, zone_presence_query,
};
use crate::schedule_laws;
use crate::state::LightingChange;
use crate::status::{
    EventLoopHealth, PublishReport, StatusPersistence, StatusPublisher, StatusWait,
    StatusWriteRequest,
};
use crate::text;
use crate::time::{Duration, Instant};
use crate::update::{UpdateError, UpdatePlan};
use crate::wire::EventMessage;

verus! {

/// A packet that lights keys in one colour: red, green and blue from byte 4 on, then the keys.
pub proof fn law_one_color_packet(
    config: &DeviceConfig,
    feature: u8,
    keys: &[u8],
    color: Color,
    r: [u8; 20],
    i: int,
)
    requires
        call_ensures(set_keys_one_color_packet, (config, feature, keys, color), r),
    ensures
        r@[0] == 0x11,
        r@[1] == config.device_index,
        r@[2] == feature,
        r@[3] == 0x60u8 | (config.lighting_software_id & 0x0f),
        r@[4] == color.red,
        r@[5] == color.green,
        r@[6] == color.blue,
        0 <= i < keys@.len() && i < 13 ==> r@[7 + i] == keys@[i],
        keys@.len() < 13 ==> r@[7 + keys@.len() as int] == 0xff,
        7 + keys@.len() < i < 20 ==> r@[i] == 0,
{
    protocol::law_one_color_packet_holds_color_and_keys(*config, feature, keys@, color, i);
}

/// A packet that lights keys in their colours: from byte 4 on each key, its red, its green and its
/// blue.
pub proof fn law_keys_packet(
    config: &DeviceConfig,
    feature: u8,
    keys: &[(u8, Color)],
    r: [u8; 20],
    i: int,
)
    requires
        call_ensures(set_keys_packet, (config, feature, keys), r),
    ensures
        r@[0] == 0x11,
        r@[1] == config.device_index,
        r@[2] == feature,
        r@[3] == 0x10u8 | (config.lighting_software_id & 0x0f),
        0 <= i < keys@.len() && i < 4 ==> r@[4 + 4 * i] == keys@[i].0 && r@[5 + 4 * i]
            == keys@[i].1.red && r@[6 + 4 * i] == keys@[i].1.green && r@[7 + 4 * i]
            == keys@[i].1.blue,
        keys@.len() < 4 ==> r@[4 + 4 * keys@.len() as int] == 0xff,
        keys@.len() < 4 && 4 + 4 * keys@.len() < i < 20 ==> r@[i] == 0,
{
    protocol::law_keys_packet_is_addressed(*config, feature, keys@, i);
    if 0 <= i < keys@.len() && i < 4 {
        protocol::law_key_stands_at_its_place(*config, feature, keys@, i);
    }
}

/// The other packets, byte by byte.
pub proof fn law_plain_packets(
    config: &DeviceConfig,
    feature: u8,
    id: u16,
    page: u8,
    enabled: bool,
    commit: [u8; 20],
    divert: [u8; 20],
    query: [u8; 7],
    zones: [u8; 7],
    i: int,
)
    requires
        call_ensures(commit_packet, (config, feature), commit),
        call_ensures(g_key_diversion_packet, (config, feature, enabled), divert),
        call_ensures(feature_query, (config, id), query),
        call_ensures(zone_presence_query, (config, feature, page), zones),
    ensures
        commit@[0] == 0x11,
        commit@[1] == config.device_index,
        commit@[2] == feature,
        commit@[3] == 0x70u8 | (config.lighting_software_id & 0x0f),
        4 <= i < 20 ==> commit@[i] == 0,
        divert@[0] == 0x11,
        divert@[1] == config.device_index,
        divert@[2] == feature,
        divert@[3] == 0x20u8 | (config.lighting_software_id & 0x0f),
        divert@[4] == 1 <==> enabled,
        divert@[4] == 0 <==> !enabled,
        5 <= i < 20 ==> divert@[i] == 0,
        query@[0] == 0x10,
        query@[1] == config.device_index,
        query@[2] == 0,
        query@[3] == config.lighting_software_id & 0x0f,
        256 * query@[4] + query@[5] == id,
        query@[6] == 0,
        zones@[0] == 0x10,
        zones@[1] == config.device_index,
        zones@[2] == feature,
        zones@[3] == config.lighting_software_id & 0x0f,
        zones@[4] == 0,
        zones@[5] == page,
        zones@[6] == 0,
{
    protocol::law_commit_packet_is_bare(*config, feature, i);
    protocol::law_diversion_packet_says_whether(*config, feature, enabled, i);
}

/// Four packets let software light the keys.
pub proof fn law_init_packets(
    config: &DeviceConfig,
    mode: u8,
    rgb_effects: u8,
    r: [[u8; 20]; 4],
    n: int,
    i: int,
)
    requires
        call_ensures(init_direct_packets, (config, mode, rgb_effects), r),
        0 <= n < 4,
    ensures
        ({
            let packet = r@[n]@;
            &&& packet[0] == 0x11
            &&& packet[1] == config.device_index
            &&& n < 2 ==> packet[2] == mode
            &&& n >= 2 ==> packet[2] == rgb_effects
            &&& n == 0 ==> packet[3] == 0x30u8 | (config.init_software_id & 0x0f)
            &&& n > 0 ==> packet[3] == 0x10u8 | (config.init_software_id & 0x0f)
            &&& n >= 2 ==> packet[4] == n - 2 && packet[16] == 1
            &&& n < 2 && 4 <= i < 20 ==> packet[i] == 0
            &&& n >= 2 && 4 < i < 20 && i != 16 ==> packet[i] == 0
        }),
{
    protocol::law_init_packets_hand_over_lights(*config, mode, rgb_effects, n, i);
    let packets = protocol::init_reports(*config, mode, rgb_effects);
    assert(device::packet_bytes(r@)[n] == r@[n]@);
}

/// A report of G-keys tells which are down, and those of the five are pressed that were up before.
/// Any other report changes nothing.
pub proof fn law_g_key_report(
    keys: &mut GKeyState,
    report: &[u8],
    config: &DeviceConfig,
    feature: u8,
    r: Vec<usize>,
    key: usize,
)
    requires
        call_ensures(GKeyState::update_from_report, (keys, report, config, feature), r),
    ensures
        ({
            let told = report@.len() >= 8 && report@[0] == 0x11 && report@[1] == config.device_index
                && report@[2] == feature && report@[3] == 0;
            let bit = (key - 1) as u8;
            &&& !told ==> final(keys).down == old(keys).down && r@.len() == 0
            &&& told && 1 <= key <= 5 ==> (r@.contains(key) <==> device_laws::has_bit(
                report@[4],
                bit,
            ) && (old(keys).down >> bit as u32) & 1u32 == 0u32)
            &&& told && 1 <= key <= 5 ==> ((final(keys).down >> bit as u32) & 1u32 == 1u32
                <==> device_laws::has_bit(report@[4], bit))
            &&& !(1 <= key <= 5) ==> !r@.contains(key)
        }),
{
    device_laws::law_reports_of_g_keys_are_recognised(report@, *config, feature);
    if device::is_g_key_report(report@, *config, feature) {
        device_laws::law_five_keys_are_watched(old(keys).down, final(keys).down, key, 0, 0);
        if 1 <= key <= 5 {
            device_laws::law_report_holds_a_bit_for_each_key(report@, (key - 1) as u32);
            assert(((key - 1) as u32 % 8) as u8 == (key - 1) as u8);
        }
    }
}

/// A wait lasts whole milliseconds, one at least while any time is left, and never longer than a
/// number of thirty-one bits holds.
pub proof fn law_timeouts(
    remaining: Duration,
    r: Option<i32>,
    timeout_ms: u64,
    drain: i32,
)
    requires
        call_ensures(reply_timeout, (remaining,), r),
        call_ensures(drain_timeout, (timeout_ms,), drain),
    ensures
        r is None <==> remaining.nanos == 0,
        r matches Some(ms) ==> ms >= 1,
        0 < remaining.nanos < 2_000_000 ==> r == Some(1i32),
        1_000_000 <= remaining.nanos < 2_147_483_648_000_000 ==> r is Some && r->0 * 1_000_000
            <= remaining.nanos < (r->0 + 1) * 1_000_000,
        remaining.nanos >= 2_147_483_647_000_000 ==> r == Some(2_147_483_647i32),
        timeout_ms <= 2_147_483_647 ==> drain == timeout_ms,
        timeout_ms >= 2_147_483_647 ==> drain == 2_147_483_647,
{
}

/// Answers are read where they are answers, and features are where the keyboard says, or else where
/// the configuration says.
pub proof fn law_answers(
    report: &[u8],
    config: &DeviceConfig,
    feature: u8,
    place: Option<Option<u8>>,
    zones: Option<[u8; 14]>,
    i: int,
)
    requires
        call_ensures(read_feature_reply, (report, config), place),
        call_ensures(read_zone_reply, (report, config, feature), zones),
    ensures
        ({
            let short = report@.len() >= 7 && (report@[0] == 0x10 || report@[0] == 0x11)
                && report@[1] == config.device_index && report@[2] == 0 && report@[3]
                == config.lighting_software_id % 16;
            let long = report@.len() >= 20 && report@[0] == 0x11 && report@[1]
                == config.device_index && report@[2] == feature && report@[3]
                == config.lighting_software_id % 16;
            &&& place is Some <==> short
            &&& short && report@[4] == 0 ==> place->0 is None
            &&& short && report@[4] != 0 ==> place->0 == Some(report@[4])
            &&& zones is Some <==> long
            &&& long && 0 <= i < 14 ==> zones->0@[i] == report@[6 + i]
        }),
{
    device_laws::law_feature_answers_are_recognised(report@, *config);
    device_laws::law_zone_answers_are_recognised(report@, *config, feature, i);
}

/// Features are where the keyboard says, or else where the configuration says.
pub proof fn law_places_of_features(
    config: &DeviceConfig,
    per_key: Option<u8>,
    rgb_effects: Option<u8>,
    mode: Option<u8>,
    g_keys: Option<u8>,
    r: (FeatureIndices, bool),
)
    requires
        call_ensures(discover_feature_indices, (config, per_key, rgb_effects, mode, g_keys), r),
    ensures
        per_key is Some ==> r.0.per_key_lighting == per_key->0,
        per_key is None ==> r.0.per_key_lighting == config.per_key_feature_index,
        rgb_effects is Some ==> r.0.rgb_effects == rgb_effects->0,
        rgb_effects is None ==> r.0.rgb_effects == config.rgb_effects_feature_index,
        mode is Some ==> r.0.mode == mode->0,
        mode is None ==> r.0.mode == config.mode_feature_index,
        r.0.g_keys == g_keys,
        r.1 <==> !(per_key is None || rgb_effects is None || mode is None),
{
}

/// A light is found exactly where its bit is set, and nothing is found where no bit is.
pub proof fn law_found_lights(
    pages: &[[u8; 14]; 3],
    r: Option<Vec<u8>>,
    known: Vec<u8>,
    zone: u8,
)
    requires
        call_ensures(discover_zone_ids, (pages,), r),
        call_ensures(fallback_zone_ids, (), known),
    ensures
        1 <= zone <= 254 && device_laws::has_bit(
            pages@[zone as int / 112]@[(zone as int % 112) / 8],
            (zone % 8) as u8,
        ) <==> r is Some && r->0@.contains(zone),
        r is Some ==> r->0@.len() > 0,
        known@.contains(zone) <==> 1 <= zone <= 111 || zone == 153 || 155 <= zone <= 158 || 180
            <= zone <= 184 || zone == 210,
{
    let bytes = device::page_bytes(*pages);
    device_laws::law_every_light_is_found(bytes, zone);
    device_laws::law_known_lights(zone);
    if 1 <= zone <= 254 {
        assert(bytes[zone as int / 112] == pages@[zone as int / 112]@);
    }
    if r is None {
        assert(!device::zones_up_to(bytes, 254).contains(zone));
    }
}

/// Keys go out four to a packet, and the last packet makes them take effect.
pub proof fn law_keys_are_set(
    keyboard: &G915,
    keys: &[(u8, Color)],
    r: Vec<[u8; 20]>,
    n: int,
)
    requires
        call_ensures(G915::set_keys, (keyboard, keys), r),
    ensures
        ({
            let feature = keyboard@.indices.per_key_lighting;
            let count = keys@.len();
            &&& count == 0 ==> r@.len() == 0
            &&& count > 0 ==> r@.len() == (count + 3) / 4 + 1 && r@.last()@
                == protocol::commit_report(keyboard@.config, feature)
            &&& 0 <= n && 4 * n + 4 <= count ==> r@[n]@ == protocol::keys_report(
                keyboard@.config,
                feature,
                keys@.subrange(4 * n, 4 * n + 4),
            )
            &&& 0 <= n && 4 * n < count < 4 * n + 4 ==> r@[n]@ == protocol::keys_report(
                keyboard@.config,
                feature,
                keys@.subrange(4 * n, count as int),
            )
        }),
{
    let bytes = device::packet_bytes(r@);
    hardware_laws::law_lights_reach_the_keyboard(keyboard@, keys@, n);
    assert(bytes == hardware::lights_packets(keyboard@, keys@));
    assert(bytes.len() == r@.len());
    if keys@.len() > 0 {
        assert(bytes.last() == r@.last()@);
    }
    if 0 <= n < r@.len() {
        assert(bytes[n] == r@[n]@);
    }
}

/// The background goes out to every light, thirteen to a packet, and the last packet makes it take
/// effect.
pub proof fn law_background_is_set(keyboard: &G915, color: Color, r: Vec<[u8; 20]>, n: int)
    requires
        call_ensures(G915::set_background, (keyboard, color), r),
    ensures
        ({
            let feature = keyboard@.indices.per_key_lighting;
            let zones = keyboard@.zones;
            &&& zones.len() == 0 ==> r@.len() == 0
            &&& zones.len() > 0 ==> r@.len() == (zones.len() + 12) / 13 + 1 && r@.last()@
                == protocol::commit_report(keyboard@.config, feature)
            &&& 0 <= n && 13 * n + 13 <= zones.len() ==> r@[n]@ == protocol::one_color_report(
                keyboard@.config,
                feature,
                zones.subrange(13 * n, 13 * n + 13),
                color,
            )
            &&& 0 <= n && 13 * n < zones.len() < 13 * n + 13 ==> r@[n]@
                == protocol::one_color_report(
                keyboard@.config,
                feature,
                zones.subrange(13 * n, zones.len() as int),
                color,
            )
        }),
{
    let bytes = device::packet_bytes(r@);
    hardware_laws::law_background_reaches_every_light(keyboard@, color, n);
    assert(bytes == hardware::background_packets(keyboard@, color));
    assert(bytes.len() == r@.len());
    if keyboard@.zones.len() > 0 {
        assert(bytes.last() == r@.last()@);
    }
    if 0 <= n < r@.len() {
        assert(bytes[n] == r@[n]@);
    }
}

/// A keyboard that fails is given up for five seconds, and the failure is told once.
pub proof fn law_keyboard_fails(
    hardware: &mut Hardware,
    attempt: Attempt,
    error: &str,
    at: u64,
    now: Instant,
    r: Option<String>,
)
    requires
        call_ensures(Hardware::schedule_retry, (hardware, attempt, error, at, now), r),
        now.nanos + 5_000_000_000 <= u128::MAX,
    ensures
        ({
            let before = old(hardware)@;
            let after = final(hardware)@;
            let message = hardware::failure_text(attempt, error@);
            &&& after.keyboard is None
            &&& after.next_retry.nanos == now.nanos + 5_000_000_000
            &&& after.last_error == Some(message)
            &&& after.last_failure is Some && after.last_failure->0.message == message
                && after.last_failure->0.occurred_at == at
            &&& before.failure_count < u64::MAX ==> after.failure_count == before.failure_count + 1
            &&& after.connection_count == before.connection_count
            &&& before.last_error == Some(message) ==> r is None
            &&& before.last_error != Some(message) ==> r is Some && r->0@ == message
        }),
{
    hardware_laws::law_failure_is_noted(
        old(hardware)@,
        hardware::failure_text(attempt, error@),
        at,
        now,
    );
}

/// Keys are lit on a keyboard that is there, and one that is not there is looked for in its time.
pub proof fn law_lights_are_applied(
    hardware: &Hardware,
    changes: &Vec<LightingChange>,
    now: Instant,
    r: HardwareAction,
    due: bool,
)
    requires
        call_ensures(Hardware::apply, (hardware, changes, now), r),
        call_ensures(Hardware::retry_due, (hardware, now), due),
    ensures
        changes@.len() == 0 ==> r is Nothing,
        changes@.len() > 0 && hardware@.keyboard is Some ==> r@ == Plan::Write(
            hardware::lights_packets(hardware@.keyboard->0, hardware::keys_of(changes@)),
        ),
        changes@.len() > 0 && hardware@.keyboard is None && now.nanos >= hardware@.next_retry.nanos
            ==> r is Connect,
        changes@.len() > 0 && hardware@.keyboard is None && now.nanos < hardware@.next_retry.nanos
            ==> r is Nothing,
        due <==> hardware@.keyboard is None && now.nanos >= hardware@.next_retry.nanos,
{
}

/// The minute of the day, of the hour and the minute.
pub proof fn law_minute_of_day(hour: i32, minute: i32, r: Option<u16>)
    requires
        call_ensures(minute_of_day, (hour, minute), r),
    ensures
        0 <= hour < 24 && 0 <= minute < 60 ==> r is Some && r->0 == 60 * hour + minute,
        !(0 <= hour < 24 && 0 <= minute < 60) ==> r is None,
{
}

/// Things are due once their time has passed, and then their time is counted anew.
pub proof fn law_due(
    watchdog: &mut LightingWatchdog,
    rotator: &mut LogRotator,
    mode: &LightingModeController,
    wait: &StatusWait,
    now: Instant,
    interval: Duration,
    written: Option<i128>,
    reassert: bool,
    rotate: bool,
    check: bool,
    over: bool,
)
    requires
        call_ensures(LightingWatchdog::take_if_due, (watchdog, now, interval), reassert),
        call_ensures(LogRotator::take_if_due, (rotator, now), rotate),
        call_ensures(LightingModeController::is_due, (mode, now), check),
        call_ensures(StatusWait::is_over, (wait, now, written), over),
    ensures
        interval.nanos > 0 ==> (reassert <==> now.nanos >= old(watchdog).last_reassert.nanos
            + interval.nanos),
        reassert ==> final(watchdog).last_reassert == now,
        !reassert ==> final(watchdog).last_reassert == old(watchdog).last_reassert,
        rotate <==> now.nanos >= old(rotator).last_checked.nanos + 60_000_000_000,
        rotate ==> final(rotator).last_checked == now,
        !rotate ==> final(rotator).last_checked == old(rotator).last_checked,
        final(rotator).max_bytes == old(rotator).max_bytes,
        final(rotator).retained_files == old(rotator).retained_files,
        check <==> now.nanos >= mode.last_checked.nanos + 1_000_000_000,
        over <==> written != wait.written || now.nanos >= wait.started.nanos + 500_000_000,
{
    schedule_laws::law_how_often_things_are_looked_at(old(rotator).last_checked, now);
    schedule_laws::law_how_often_things_are_looked_at(mode.last_checked, now);
    schedule_laws::law_how_often_things_are_looked_at(wait.started, now);
}

/// A request to write at once is written at once, a deferred one a quarter of a second after the
/// first, and once it was written it is not due again.
pub proof fn law_status_requests(
    persistence: &mut StatusPersistence,
    now: Instant,
    request: StatusWriteRequest,
    r: bool,
)
    requires
        call_ensures(StatusPersistence::note, (persistence, now, request), r),
        now.nanos + 250_000_000 <= u128::MAX,
    ensures
        r <==> request is Immediate,
        request is Immediate ==> final(persistence).deadline is None,
        request is Unneeded ==> final(persistence).deadline == old(persistence).deadline,
        request is Deferred && old(persistence).deadline is Some ==> final(persistence).deadline
            == old(persistence).deadline,
        request is Deferred && old(persistence).deadline is None ==> final(persistence).deadline is Some && final(persistence).deadline->0.nanos == now.nanos + 250_000_000,
{
}

/// A deferred write is taken when its moment has come, once.
pub proof fn law_status_is_due(persistence: &mut StatusPersistence, now: Instant, r: bool)
    requires
        call_ensures(StatusPersistence::take_if_due, (persistence, now), r),
    ensures
        r <==> old(persistence).deadline is Some && old(persistence).deadline->0.nanos <= now.nanos,
        r ==> final(persistence).deadline is None,
        !r ==> final(persistence).deadline == old(persistence).deadline,
{
}

/// An event loop that comes back a quarter of a second late is counted, with how late it was.
pub proof fn law_late_event_loop(health: &mut EventLoopHealth, now: Instant, at: u64, r: bool)
    requires
        call_ensures(EventLoopHealth::observe_at, (health, now, at), r),
        now.nanos < 1_000_000 * u64::MAX,
    ensures
        final(health).wait_deadline is None,
        final(health).last_reported_at == old(health).last_reported_at,
        old(health).wait_deadline is None ==> !r,
        old(health).wait_deadline matches Some(due) ==> (r <==> now.nanos >= due.nanos
            + 250_000_000),
        !r ==> final(health).delay_count == old(health).delay_count && final(health).last_delay
            == old(health).last_delay && final(health).max_delay_ms == old(health).max_delay_ms,
        r ==> ({
            let late = now.nanos - old(health).wait_deadline->0.nanos;
            let delay = final(health).last_delay;
            &&& delay is Some
            &&& delay->0.occurred_at == at
            &&& delay->0.delay_ms * 1_000_000 <= late < (delay->0.delay_ms + 1) * 1_000_000
            &&& final(health).max_delay_ms >= delay->0.delay_ms
            &&& final(health).max_delay_ms >= old(health).max_delay_ms
            &&& old(health).delay_count < u64::MAX ==> final(health).delay_count == old(health).delay_count + 1
        }),
{
}

/// A status that cannot be written is told once, and that it can be written again too.
pub proof fn law_status_is_published(
    publisher: &mut StatusPublisher,
    outcome: Result<(), String>,
    at: u64,
    r: PublishReport,
)
    requires
        call_ensures(StatusPublisher::publish, (publisher, outcome, at), r),
    ensures
        outcome is Ok ==> final(publisher).active_error is None && final(publisher).failure_count
            == old(publisher).failure_count,
        outcome is Ok && old(publisher).active_error is None ==> r is Quiet,
        outcome is Ok && old(publisher).active_error is Some ==> r is Recovered
            && r->Recovered_0@ == old(publisher).active_error->0@,
        outcome is Err ==> final(publisher).active_error is Some && final(publisher).active_error->0@ == outcome->Err_0@,
        outcome is Err && old(publisher).failure_count < u64::MAX ==> final(publisher).failure_count
            == old(publisher).failure_count + 1,
        outcome is Err && old(publisher).active_error is Some && old(publisher).active_error->0@
            == outcome->Err_0@ ==> r is Quiet,
        outcome is Err && (old(publisher).active_error is None || old(publisher).active_error->0@
            != outcome->Err_0@) ==> r is Failed && r->Failed_0@ == outcome->Err_0@,
        outcome is Err ==> final(publisher).last_failure is Some && final(publisher).last_failure->0.occurred_at == at && final(publisher).last_failure->0.message@
            == outcome->Err_0@,
{
}

/// A colour is read from its six digits, and refused with what was given otherwise.
pub proof fn law_color_is_read(
    value: &str,
    r: Result<Color, ParseColorError>,
    before: Seq<char>,
    digits: Seq<char>,
    after: Seq<char>,
    color: Color,
)
    requires
        call_ensures(Color::parse, (value,), r),
        text::is_blank(before),
        text::is_blank(after),
        digits.len() == 6,
        config_laws::is_byte(digits[0], digits[1], color.red),
        config_laws::is_byte(digits[2], digits[3], color.green),
        config_laws::is_byte(digits[4], digits[5], color.blue),
    ensures
        value@ == before + digits + after ==> r is Ok && r->Ok_0 == color,
        value@ == before + (seq!['#'] + digits) + after ==> r is Ok && r->Ok_0 == color,
        r is Err ==> r->Err_0.value@ == value@,
{
    config_laws::law_six_digits_make_a_color(before, false, digits, after, color);
    config_laws::law_six_digits_make_a_color(before, true, digits, after, color);
}

/// A configuration passes exactly where no limit is broken.
pub proof fn law_configuration_is_checked(config: &AppConfig, r: Result<(), ConfigError>)
    requires
        call_ensures(AppConfig::validate, (config,), r),
    ensures
        r is Ok <==> config_laws::keys_are_right(*config) && config_laws::tasks_are_right(*config)
            && config_laws::numbers_are_right(*config) && config_laws::timeout_is_right(*config)
            && config_laws::flashing_is_right(*config) && config_laws::dimming_is_right(*config),
        !config_laws::keys_are_right(*config) ==> r == Err::<(), ConfigError>(
            ConfigError::SlotKeyCount,
        ),
{
    config_laws::law_every_limit_is_checked(*config);
}

/// The files of a user lie in the home directory.
pub proof fn law_files_lie_in_home(home: &str, config: Option<String>, r: Paths)
    requires
        call_ensures(Paths::under_home, (home, config), r),
    ensures
        config is Some ==> r.config@ == config->0@,
        config is None ==> paths::components(r.config@) == paths::components(home@) + seq![
            ".config"@,
            "codex-agent-indicator"@,
            "config.toml"@,
        ],
        paths::components(r.codex_sessions@) == paths::components(home@) + seq![
            ".codex"@,
            "sessions"@,
        ],
        paths::components(r.log@) == paths::components(home@) + seq![
            "Library"@,
            "Logs"@,
            "codex-agent-indicator.log"@,
        ],
        paths::components(r.runtime_dir@) == paths::components(home@) + seq![
            ".cache"@,
            "codex-agent-indicator"@,
        ],
        paths::components(r.socket@) == paths::components(r.runtime_dir@) + seq![
            "indicator.sock"@,
        ],
        paths::components(r.status@) == paths::components(r.runtime_dir@) + seq!["status.json"@],
{
    let h = home@;
    lemma_plain_names();
    lemma_three_inside(h, ".config"@, "codex-agent-indicator"@, "config.toml"@);
    lemma_two_inside(h, ".codex"@, "sessions"@);
    lemma_three_inside(h, "Library"@, "Logs"@, "codex-agent-indicator.log"@);
    lemma_two_inside(h, ".cache"@, "codex-agent-indicator"@);
    lemma_inside(r.runtime_dir@, "indicator.sock"@);
    lemma_inside(r.runtime_dir@, "status.json"@);
    let runtime = paths::components(r.runtime_dir@);
    assert(runtime.push("indicator.sock"@) =~= runtime + seq!["indicator.sock"@]);
    assert(runtime.push("status.json"@) =~= runtime + seq!["status.json"@]);
}

/// A name without a slash, longer than a dot.
spec fn is_longer_name(name: Seq<char>) -> bool {
    name.len() > 1 && !name.contains('/')
}

proof fn lemma_plain_names()
    ensures
        is_longer_name(".config"@),
        is_longer_name("codex-agent-indicator"@),
        is_longer_name("config.toml"@),
        is_longer_name(".codex"@),
        is_longer_name("sessions"@),
        is_longer_name("Library"@),
        is_longer_name("Logs"@),
        is_longer_name("codex-agent-indicator.log"@),
        is_longer_name(".cache"@),
        is_longer_name("indicator.sock"@),
        is_longer_name("status.json"@),
{
    reveal_strlit(".config");
    reveal_strlit("codex-agent-indicator");
    reveal_strlit("config.toml");
    reveal_strlit(".codex");
    reveal_strlit("sessions");
    reveal_strlit("Library");
    reveal_strlit("Logs");
    reveal_strlit("codex-agent-indicator.log");
    reveal_strlit(".cache");
    reveal_strlit("indicator.sock");
    reveal_strlit("status.json");
}

proof fn lemma_two_inside(base: Seq<char>, a: Seq<char>, b: Seq<char>)
    requires
        is_longer_name(a),
        is_longer_name(b),
    ensures
        paths::components(paths::joined(paths::joined(base, a), b)) == paths::components(base)
            + seq![a, b],
{
    lemma_inside(base, a);
    lemma_inside(paths::joined(base, a), b);
    let all = paths::components(base);
    assert(all.push(a).push(b) =~= all + seq![a, b]);
}

proof fn lemma_three_inside(base: Seq<char>, a: Seq<char>, b: Seq<char>, c: Seq<char>)
    requires
        is_longer_name(a),
        is_longer_name(b),
        is_longer_name(c),
    ensures
        paths::components(paths::joined(paths::joined(paths::joined(base, a), b), c))
            == paths::components(base) + seq![a, b, c],
{
    lemma_two_inside(base, a, b);
    lemma_inside(paths::joined(paths::joined(base, a), b), c);
    let all = paths::components(base);
    assert((all + seq![a, b]).push(c) =~= all + seq![a, b, c]);
}

proof fn lemma_inside(base: Seq<char>, name: Seq<char>)
    requires
        name.len() > 1,
        !name.contains('/'),
    ensures
        paths::components(paths::joined(base, name)) == paths::components(base).push(name),
{
    reveal_strlit(".");
    paths::law_joining_adds_a_component(base, name);
}

/// The words on the command line become a command and its message.
pub proof fn law_words_become_messages(
    words: &Vec<String>,
    command: Command,
    force: bool,
    set: Result<EventMessage, SetStateError>,
    clear: EventMessage,
    i: int,
)
    requires
        call_ensures(requested_command, (words,), command),
        call_ensures(wants_force, (words,), force),
        call_ensures(set_message, (words,), set),
        call_ensures(clear_message, (words,), clear),
    ensures
        words@.len() < 2 ==> command is Help,
        words@.len() >= 2 && words@[1]@ == "daemon"@ ==> command is Daemon,
        0 <= i < words@.len() && words@[i]@ == "--force"@ ==> force,
        (forall|j: int| 0 <= j < words@.len() ==> (#[trigger] words@[j])@ != "--force"@) ==> !force,
        words@.len() < 3 ==> set is Err && set->Err_0 is MissingState,
        set is Ok ==> set->Ok_0 is SetState,
        set is Ok && words@.len() >= 4 ==> set->Ok_0->SetState_session_id@ == words@[3]@,
        set is Ok && words@.len() < 4 ==> set->Ok_0->SetState_session_id@ == "manual-preview"@,
        clear is Clear,
        words@.len() < 3 ==> clear->Clear_session_id is None,
        words@.len() >= 3 ==> clear->Clear_session_id is Some && clear->Clear_session_id->0@
            == words@[2]@,
{
}

/// A task is opened by its link where its name is plain.
pub proof fn law_tasks_are_opened_by_link(
    session: &str,
    url: Option<String>,
    arguments: Option<Vec<String>>,
)
    requires
        call_ensures(codex_thread_url, (session,), url),
        call_ensures(codex_open_arguments, (session,), arguments),
    ensures
        url is Some <==> arguments is Some,
        session@.len() == 0 ==> url is None,
        url is Some ==> url->0@ == "codex://threads/"@ + session@,
        arguments is Some ==> arguments->0@.len() == 3 && arguments->0@[0]@ == "-b"@
            && arguments->0@[1]@ == "com.openai.codex"@ && arguments->0@[2]@ == url->0@,
{
    if arguments is Some {
        let words = arguments->0@.map_values(|a: String| a@);
        assert(words.len() == 3);
        assert(words[0] == arguments->0@[0]@);
        assert(words[1] == arguments->0@[1]@);
        assert(words[2] == arguments->0@[2]@);
    }
}

/// The program is installed anew where it was: in what stands before its directory of programs.
pub proof fn law_program_is_updated_in_place(
    executable: &str,
    r: Result<UpdatePlan, UpdateError>,
    root: Seq<char>,
)
    requires
        call_ensures(UpdatePlan::from_executable, (executable,), r),
        executable@ == paths::joined(paths::joined(root, "bin"@), "codex-agent-indicator"@),
    ensures
        r is Ok,
        r->Ok_0.executable@ == executable@,
        paths::same_path(r->Ok_0.install_root@, root),
{
    reveal_strlit("bin");
    reveal_strlit("codex-agent-indicator");
    lemma_inside(root, "bin"@);
    lemma_inside(paths::joined(root, "bin"@), "codex-agent-indicator"@);
    let all = paths::components(executable@);
    assert(all.take(all.len() - 2) =~= paths::components(root));
}

} // verus!
