//! What holds of the connection to the keyboard, and of what is written to it.
use vstd::prelude::*;

use crate::config::{AppConfig, Color};
use crate::device::KeyboardModel;
use crate::device_laws;
use crate::hardware;
use crate::hardware::{Attempt, ConnectReport, HardwareAction, HardwareModel, Plan};
use crate::status;
use crate::status::ObservedFailure;
use crate::protocol;
use crate::state;
use crate::state::{EngineModel, LightingChange};
use crate::time::{Duration, Instant};

verus! {

/// A keyboard that has failed is not used any more and looked for again five seconds later. The
/// failure is counted and noted, and nothing else changes.
pub proof fn law_failure_is_noted(
    hardware: HardwareModel,
    message: Seq<char>,
    occurred_at: u64,
    now: Instant,
)
    requires
        now.nanos + 5_000_000_000 <= u128::MAX,
    ensures
        hardware::retry_fits(now),
        ({
            let after = hardware.failed(message, occurred_at, now);
            &&& after.keyboard is None
            &&& after.next_retry.nanos == now.nanos + 5_000_000_000
            &&& after.last_error == Some(message)
            &&& after.last_failure is Some
            &&& after.last_failure->0.message == message
            &&& after.last_failure->0.occurred_at == occurred_at
            &&& hardware.failure_count < u64::MAX ==> after.failure_count == hardware.failure_count
                + 1
            &&& hardware.failure_count == u64::MAX ==> after.failure_count == u64::MAX
            &&& after.last_navigation_error == hardware.last_navigation_error
            &&& after.connection_count == hardware.connection_count
            &&& after.last_connected_at == hardware.last_connected_at
            &&& same_reassertions(hardware, after)
            &&& after.failure_count == hardware.with_failure(message, occurred_at).failure_count
            &&& after.last_failure == hardware.with_failure(message, occurred_at).last_failure
            &&& after.last_error == hardware.with_failure(message, occurred_at).last_error
            &&& hardware.with_failure(message, occurred_at).keyboard == hardware.keyboard
            &&& hardware.with_failure(message, occurred_at).next_retry == hardware.next_retry
        }),
{
}

/// What was noted of writing the lights anew is the same.
pub open spec fn same_reassertions(a: HardwareModel, b: HardwareModel) -> bool {
    &&& a.lighting_reassertion_count == b.lighting_reassertion_count
    &&& a.last_lighting_reasserted_at == b.last_lighting_reasserted_at
    &&& a.last_lighting_reassert_duration_ms == b.last_lighting_reassert_duration_ms
    &&& a.max_lighting_reassert_duration_ms == b.max_lighting_reassert_duration_ms
}

/// A keyboard that is ready is counted and noted, and the problem before it is over. Past failures
/// stay on record.
pub proof fn law_connection_is_noted(hardware: HardwareModel, at: u64)
    ensures
        ({
            let after = hardware.connected(at);
            &&& after.last_error is None
            &&& after.last_connected_at == Some(at)
            &&& hardware.connection_count < u64::MAX ==> after.connection_count
                == hardware.connection_count + 1
            &&& hardware.connection_count == u64::MAX ==> after.connection_count == u64::MAX
            &&& after.keyboard == hardware.keyboard
            &&& after.last_navigation_error == hardware.last_navigation_error
            &&& after.failure_count == hardware.failure_count
            &&& after.last_failure == hardware.last_failure
            &&& after.next_retry == hardware.next_retry
            &&& same_reassertions(hardware, after)
        }),
{
}

/// Writing the lights anew is counted, with its moment, how long it took in whole milliseconds, and
/// the longest that it ever took.
pub proof fn law_reassertion_is_noted(hardware: HardwareModel, at: u64, duration: Duration)
    requires
        duration.nanos < 1_000_000 * u64::MAX,
    ensures
        ({
            let after = hardware.reasserted(at, duration);
            let took = after.last_lighting_reassert_duration_ms;
            &&& after.last_lighting_reasserted_at == Some(at)
            &&& took is Some
            &&& took->0 * 1_000_000 <= duration.nanos < (took->0 + 1) * 1_000_000
            &&& after.max_lighting_reassert_duration_ms >= took->0
            &&& after.max_lighting_reassert_duration_ms
                >= hardware.max_lighting_reassert_duration_ms
            &&& after.max_lighting_reassert_duration_ms == took->0
                || after.max_lighting_reassert_duration_ms
                == hardware.max_lighting_reassert_duration_ms
            &&& hardware.lighting_reassertion_count < u64::MAX ==> after.lighting_reassertion_count
                == hardware.lighting_reassertion_count + 1
            &&& hardware.lighting_reassertion_count == u64::MAX ==> after.lighting_reassertion_count
                == u64::MAX
            &&& after.keyboard == hardware.keyboard
            &&& after.last_error == hardware.last_error
            &&& after.last_navigation_error == hardware.last_navigation_error
            &&& after.failure_count == hardware.failure_count
            &&& after.last_failure == hardware.last_failure
            &&& after.connection_count == hardware.connection_count
            &&& after.last_connected_at == hardware.last_connected_at
            &&& after.next_retry == hardware.next_retry
        }),
{
}

/// Packets are written to a keyboard that is there. One that is not there is looked for, but not
/// before its time.
pub proof fn law_what_is_done_to_the_keyboard(
    hardware: HardwareModel,
    now: Instant,
    packets: Seq<Seq<u8>>,
)
    ensures
        hardware.keyboard is Some ==> hardware.plan(now, packets) == Plan::Write(packets),
        hardware.keyboard is None && hardware.next_retry.nanos <= now.nanos ==> hardware.plan(
            now,
            packets,
        ) is Connect,
        hardware.keyboard is None && hardware.next_retry.nanos > now.nanos ==> hardware.plan(
            now,
            packets,
        ) is Nothing,
        hardware.search_due(now) <==> hardware.keyboard is None && hardware.next_retry.nanos
            <= now.nanos,
{
}

/// A problem is reported when it comes up, and not again while it lasts.
pub proof fn law_problem_is_reported_once(
    hardware: HardwareModel,
    message: Seq<char>,
    other: Seq<char>,
    occurred_at: u64,
    now: Instant,
)
    ensures
        hardware.failed(message, occurred_at, now).report(message) is None,
        other != message ==> hardware.failed(message, occurred_at, now).report(other) == Some(
            other,
        ),
        hardware.last_error is None ==> hardware.report(message) == Some(message),
{
}

/// The description of a failure ends in its reason, and begins with what was done.
pub proof fn law_failures_are_described(attempt: Attempt, error: Seq<char>)
    ensures
        ({
            let told = hardware::failure_text(attempt, error);
            &&& attempt is Search ==> told == error
            &&& attempt is FirstBackground ==> told == "G915 initialization failed: "@ + error
            &&& attempt is FirstLights ==> told == "G915 task-light initialization failed: "@
                + error
            &&& attempt is Lights ==> told == "G915 lighting write failed: "@ + error
            &&& attempt is Watchdog ==> told == "G915 direct-lighting watchdog failed: "@ + error
            &&& attempt is Background ==> told == "G915 background refresh failed: "@ + error
            &&& attempt is BackgroundReset ==> told == "failed to reset keyboard background: "@
                + error
            &&& attempt is Input ==> told == "G915 input read failed: "@ + error
        }),
{
    reveal_strlit("");
    assert(""@ + error =~= error);
}

/// Nothing is wrong with the G-keys where they are reported, or are not and need not be.
pub proof fn law_navigation_problems(
    outcome: Result<bool, String>,
    enabled: bool,
    prefix: Seq<char>,
)
    ensures
        ({
            let problem = hardware::navigation_error(outcome, enabled, prefix);
            &&& problem is None <==> outcome is Ok && (outcome->Ok_0 || !enabled)
            &&& outcome is Err ==> problem == Some(prefix + outcome->Err_0@)
            &&& outcome is Ok && problem is Some ==> problem->0
                == "G915 does not expose HID++ G-key notifications"@
        }),
{
}

/// Every light names its key and its colour.
pub proof fn law_every_light_names_its_key(changes: Seq<LightingChange>, i: int)
    requires
        0 <= i < changes.len(),
    ensures
        hardware::keys_of(changes).len() == changes.len(),
        hardware::keys_of(changes)[i].0 == changes[i].key,
        hardware::keys_of(changes)[i].1 == changes[i].color,
{
}

/// The keys go out to the feature that lights each key, four to a packet and in their order, and
/// then take effect.
pub proof fn law_lights_reach_the_keyboard(
    keyboard: KeyboardModel,
    keys: Seq<(u8, Color)>,
    n: int,
)
    ensures
        ({
            let packets = hardware::lights_packets(keyboard, keys);
            let feature = keyboard.indices.per_key_lighting;
            &&& keys.len() == 0 ==> packets.len() == 0
            &&& keys.len() > 0 ==> packets.len() == (keys.len() + 3) / 4 + 1 && packets.last()
                == protocol::commit_report(keyboard.config, feature)
            &&& 0 <= n && 4 * n + 4 <= keys.len() ==> packets[n] == protocol::keys_report(
                keyboard.config,
                feature,
                keys.subrange(4 * n, 4 * n + 4),
            )
            &&& 0 <= n && 4 * n < keys.len() < 4 * n + 4 ==> packets[n] == protocol::keys_report(
                keyboard.config,
                feature,
                keys.subrange(4 * n, keys.len() as int),
            )
        }),
{
    let feature = keyboard.indices.per_key_lighting;
    device_laws::law_keys_go_out_four_at_a_time(keyboard.config, feature, keys, n);
}

/// Every light of the keyboard takes on the background, thirteen to a packet and in their order,
/// and then they take effect.
pub proof fn law_background_reaches_every_light(keyboard: KeyboardModel, color: Color, n: int)
    ensures
        ({
            let packets = hardware::background_packets(keyboard, color);
            let feature = keyboard.indices.per_key_lighting;
            let zones = keyboard.zones;
            &&& zones.len() == 0 ==> packets.len() == 0
            &&& zones.len() > 0 ==> packets.len() == (zones.len() + 12) / 13 + 1 && packets.last()
                == protocol::commit_report(keyboard.config, feature)
            &&& 0 <= n && 13 * n + 13 <= zones.len() ==> packets[n] == protocol::one_color_report(
                keyboard.config,
                feature,
                zones.subrange(13 * n, 13 * n + 13),
                color,
            )
            &&& 0 <= n && 13 * n < zones.len() < 13 * n + 13 ==> packets[n]
                == protocol::one_color_report(
                keyboard.config,
                feature,
                zones.subrange(13 * n, zones.len() as int),
                color,
            )
        }),
{
    let feature = keyboard.indices.per_key_lighting;
    device_laws::law_one_color_goes_out_thirteen_at_a_time(
        keyboard.config,
        feature,
        keyboard.zones,
        color,
        n,
    );
}

/// Where everything is written anew, software takes the lights over first. Then come the
/// background, the tasks at full brightness, and the G-keys, where they are wanted and the keyboard
/// has them.
pub proof fn law_everything_is_written_anew(
    keyboard: KeyboardModel,
    config: AppConfig,
    m: EngineModel,
    n: int,
)
    ensures
        ({
            let packets = hardware::watchdog_packets(keyboard, config, m);
            let handed = protocol::init_reports(
                keyboard.config,
                keyboard.indices.mode,
                keyboard.indices.rgb_effects,
            );
            let background = hardware::background_packets(keyboard, config.lighting.background);
            let lights = hardware::lights_packets(
                keyboard,
                hardware::keys_of(state::active_lights(config, m, 100)),
            );
            let shown = 4 + background.len() + lights.len();
            let wanted = config.navigation.enabled && !(keyboard.indices.g_keys is None);
            &&& handed.len() == 4
            &&& 0 <= n < 4 ==> packets[n] == handed[n]
            &&& 4 <= n < 4 + background.len() ==> packets[n] == background[n - 4]
            &&& 4 + background.len() <= n < shown ==> packets[n] == lights[n - 4
                - background.len()]
            &&& wanted ==> packets.len() == shown + 1 && packets.last()
                == protocol::diversion_report(keyboard.config, keyboard.indices.g_keys->0, true)
            &&& !wanted ==> packets.len() == shown
        }),
{
}

/// What has to be done holds the packets as they are to be written.
pub proof fn law_actions_hold_their_packets(action: HardwareAction, i: int)
    ensures
        match action {
            HardwareAction::Nothing => action@ is Nothing,
            HardwareAction::Connect => action@ is Connect,
            HardwareAction::Write(packets) => action@ matches Plan::Write(bytes) && bytes.len()
                == packets@.len() && (0 <= i < packets@.len() ==> bytes[i] == packets@[i]@),
        },
{
}

/// A failed search is reported where there is something new to say, and else is quiet.
pub proof fn law_failed_search_is_reported(report: ConnectReport, message: Seq<char>)
    ensures
        hardware::reports_failure(report, Some(message)) <==> report is Failed
            && report->Failed_0@ == message,
        hardware::reports_failure(report, None) <==> report is Quiet,
{
}

/// An observed failure holds its description and its moment.
pub proof fn law_observed_failure_is_kept(failure: ObservedFailure, message: Seq<char>, at: u64)
    ensures
        status::is_failure(Some(failure), message, at) <==> failure.message@ == message
            && failure.occurred_at == at,
        !status::is_failure(None, message, at),
        hardware::failure_of(Some(failure)) is Some,
        hardware::failure_of(Some(failure))->0.message == failure.message@,
        hardware::failure_of(Some(failure))->0.occurred_at == failure.occurred_at,
        hardware::failure_of(None) is None,
{
}

} // verus!
