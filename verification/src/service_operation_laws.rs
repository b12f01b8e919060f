//! What the operations around the tasks do: flashing, day and night, the connection to the keyboard,
//! restoring, files and updates, stated of what goes in and what comes out.
use vstd::prelude::*;

use crate::config::{AppConfig, Color, LightingMode};
use crate::daemon::{restore_engine, Daemon, SavedStatus};
use crate::device::{DeviceSummary, NavigationRequest, G915};
use crate::device_laws;
use crate::engine_laws;
use crate::follow_laws;
use crate::hardware;
use crate::hardware::{Attempt, ConnectOutcome, ConnectReport, Hardware, HardwareAction, Plan};
use crate::hardware_laws;
use crate::journal::JournalReader;
use crate::journal_tracker;
use crate::journal_tracker::{
    restore_step, validate_transcript_path, Inspection, JournalRestore, JournalTracker,
    RestoreOutcome, RestoreStep, RestoreTarget, SessionJournalTransition, TranscriptError,
};
use crate::lighting::{FlashController, LightingModeController};
use crate::log_rotation;
use crate::log_rotation::{rotate_log_file, LogRotator, RotationStep};
use crate::paths;
use crate::protocol;
use crate::schedule_laws;
use crate::state;
use crate::state::{Engine, LightingChange, RestoredQueuedSession, RestoredSlot, Task};
use crate::status::EventLoopHealth;
use crate::task_laws;
use crate::text;
use crate::time::{Duration, Instant};
use crate::update;
use crate::update::{service_name, UpdatePlan};

verus! {

/// By day, while a task is shown and flashing is on, the keys in use turn dim or bright once the
/// interval has passed. Otherwise nothing is lit.
pub proof fn law_flash(
    flash: &mut FlashController,
    now: Instant,
    mode: LightingMode,
    config: &AppConfig,
    engine: &Engine,
    r: Option<Vec<LightingChange>>,
    i: int,
)
    requires
        call_ensures(FlashController::frame_if_due_for_mode, (flash, now, mode, config, engine), r),
        0 <= i < engine@.slots.len(),
        engine@.slots[i] is Some,
        config.lighting.flash_interval_ms > 0,
    ensures
        ({
            let flashes = mode == LightingMode::Day && config.lighting.flash_enabled;
            let due = now.nanos >= old(flash).last_toggle.nanos + config.lighting.flash_interval_ms
                * 1_000_000;
            &&& !flashes ==> r is None && final(flash).bright
            &&& flashes && !due ==> r is None && *final(flash) == *old(flash)
            &&& flashes && due ==> final(flash).bright == !old(flash).bright
                && final(flash).last_toggle == now
            &&& flashes && due && old(flash).bright ==> r is Some && r->0@ == state::active_lights(
                *config,
                engine@,
                config.lighting.flash_dim_percent,
            )
            &&& flashes && due && !old(flash).bright ==> r is Some && r->0@ == state::active_lights(
                *config,
                engine@,
                100,
            )
        }),
{
    if mode == LightingMode::Day && config.lighting.flash_enabled {
        schedule_laws::law_keys_flash_by_day(*old(flash), now, config.lighting, engine@, i);
    } else {
        schedule_laws::law_keys_are_steady_otherwise(
            *old(flash),
            now,
            mode,
            config.lighting,
            engine@,
        );
    }
}

/// The keys in use flash each on its own key, every part of the colour at so many per cent.
pub proof fn law_active_lighting(
    engine: &Engine,
    percent: u8,
    config: &AppConfig,
    r: Vec<LightingChange>,
    k: int,
    steady: Color,
)
    requires
        call_ensures(Engine::active_lighting, (engine, percent, config), r),
        percent <= 100,
        0 <= k < r@.len(),
        k < state::occupied(engine@.slots).len() ==> task_laws::is_color_of(
            steady,
            config.colors,
            engine@.slots[state::occupied(engine@.slots)[k]]->0.state,
        ),
    ensures
        r@.len() == state::occupied(engine@.slots).len(),
        r@[k].key == config.device.slot_keys@[state::occupied(engine@.slots)[k]],
        r@[k].color.red == steady.red * percent / 100,
        r@[k].color.green == steady.green * percent / 100,
        r@[k].color.blue == steady.blue * percent / 100,
{
    task_laws::law_slots_in_use_flash(engine@, *config, percent, k, steady);
}

/// The mode is looked up every second, and stays as it was where the clock cannot be read.
pub proof fn law_mode_is_looked_up(
    controller: &mut LightingModeController,
    now: Instant,
    minute: Option<u16>,
    config: &AppConfig,
    r: bool,
)
    requires
        call_ensures(LightingModeController::update_if_due, (controller, now, minute, config), r),
    ensures
        ({
            let due = now.nanos >= old(controller).last_checked.nanos + 1_000_000_000;
            &&& !due ==> *final(controller) == *old(controller) && !r
            &&& due ==> final(controller).last_checked == now
            &&& due && minute is None ==> final(controller).mode == old(controller).mode && !r
            &&& due && minute is Some && minute->0 < 1440 && config.lighting.night_start_minute
                < 1440 && config.lighting.night_end_minute < 1440 ==> (final(controller).mode
                == LightingMode::Night <==> schedule_laws::minutes_since(
                config.lighting.night_start_minute as int,
                minute->0 as int,
            ) < schedule_laws::minutes_since(
                config.lighting.night_start_minute as int,
                config.lighting.night_end_minute as int,
            ))
            &&& r <==> final(controller).mode != old(controller).mode
        }),
{
    schedule_laws::law_how_often_things_are_looked_at(old(controller).last_checked, now);
    if minute is Some && minute->0 < 1440 && config.lighting.night_start_minute < 1440
        && config.lighting.night_end_minute < 1440 {
        schedule_laws::law_night_lasts_from_start_to_end(config.lighting, minute->0);
    }
}

/// What is known of the keyboard comes from its configuration and its answers.
pub proof fn law_keyboard_is_summed_up(
    keyboard: &G915,
    product: String,
    queried: bool,
    r: DeviceSummary,
    active: bool,
)
    requires
        call_ensures(G915::summary, (keyboard, product, queried), r),
        call_ensures(G915::g_key_navigation_active, (keyboard,), active),
    ensures
        r.product == product,
        r.vendor_id == keyboard@.config.vendor_id,
        r.product_id == keyboard@.config.product_id,
        r.usage_page == keyboard@.config.usage_page,
        r.usage == keyboard@.config.usage,
        r.feature_indices == keyboard@.indices,
        r.feature_indices_queried == queried,
        r.zone_count == keyboard@.zones.len(),
        r.g_key_navigation_available <==> !(keyboard@.indices.g_keys is None),
        active <==> keyboard@.diverted && !(keyboard@.indices.g_keys is None),
{
}

/// A packet about G-keys is written where the keyboard has them and it is not so already. Where they
/// are given back, it is written only if they are reported.
pub proof fn law_g_keys_are_asked_for(
    keyboard: &G915,
    enabled: bool,
    r: NavigationRequest,
    again: Option<[u8; 20]>,
    closing: Option<[u8; 20]>,
)
    requires
        call_ensures(G915::set_g_key_navigation, (keyboard, enabled), r),
        call_ensures(G915::reassert_g_key_navigation, (keyboard,), again),
        call_ensures(G915::closing_packet, (keyboard,), closing),
    ensures
        ({
            let feature = keyboard@.indices.g_keys;
            &&& r is Unavailable <==> feature is None
            &&& r is Unchanged <==> feature is Some && keyboard@.diverted == enabled
            &&& r is Write <==> feature is Some && keyboard@.diverted != enabled
            &&& r is Write ==> r->Write_0@[2] == feature->0 && (r->Write_0@[4] == 1 <==> enabled)
            &&& again is Some <==> feature is Some
            &&& again is Some ==> again->0@[2] == feature->0 && again->0@[4] == 1
            &&& closing is Some <==> feature is Some && keyboard@.diverted
            &&& closing is Some ==> closing->0@[2] == feature->0 && closing->0@[4] == 0
        }),
{
    let feature = keyboard@.indices.g_keys;
    if feature is Some {
        protocol::law_diversion_packet_says_whether(keyboard@.config, feature->0, enabled, 0);
        protocol::law_diversion_packet_says_whether(keyboard@.config, feature->0, true, 0);
        protocol::law_diversion_packet_says_whether(keyboard@.config, feature->0, false, 0);
    }
}

/// Where G-keys are not reported, nothing is pressed. Where they are, what was kept comes first.
pub proof fn law_presses_are_polled(
    keyboard: &mut G915,
    reports: &Vec<Vec<u8>>,
    r: Vec<usize>,
    i: int,
)
    requires
        call_ensures(G915::poll_g_key_presses, (keyboard, reports), r),
    ensures
        ({
            let before = old(keyboard)@;
            let reported = before.diverted && !(before.indices.g_keys is None);
            &&& !reported ==> r@.len() == 0 && final(keyboard)@ == before
            &&& reported ==> final(keyboard)@.pending.len() == 0 && r@.len() >= before.pending.len()
            &&& reported && 0 <= i < before.pending.len() ==> r@[i] == before.pending[i]
            &&& reported && reports@.len() == 0 ==> r@ == before.pending
        }),
{
    if old(keyboard)@.navigates() {
        let feature = old(keyboard)@.indices.g_keys->0;
        let (after, pressed) = old(keyboard)@.after_reports(reports@, feature);
        assert(r@ == old(keyboard)@.pending + pressed);
        if reports@.len() == 0 {
            assert(pressed =~= Seq::empty());
            assert(r@ =~= old(keyboard)@.pending);
        }
    }
}

/// While a confirmation is awaited, pressed keys are kept, and it is recognised.
pub proof fn law_confirmation_is_awaited(keyboard: &mut G915, report: &[u8], r: bool)
    requires
        call_ensures(G915::navigation_report, (keyboard, report), r),
        old(keyboard)@.indices.g_keys is Some,
    ensures
        ({
            let before = old(keyboard)@;
            let feature = before.indices.g_keys->0;
            &&& r <==> report@.len() >= 4 && (report@[0] == 0x10 || report@[0] == 0x11)
                && report@[1] == before.config.device_index && report@[2] == feature && report@[3]
                == 0x20 + before.config.lighting_software_id % 16
            &&& final(keyboard)@.pending.len() >= before.pending.len()
            &&& final(keyboard)@.diverted == before.diverted
            &&& final(keyboard)@.zones == before.zones
        }),
{
    device_laws::law_confirmations_are_recognised(
        report@,
        old(keyboard)@.config,
        old(keyboard)@.indices.g_keys->0,
    );
    device_laws::law_report_tells_what_is_down(
        old(keyboard)@,
        report@,
        old(keyboard)@.indices.g_keys->0,
    );
}

/// A search that fails in any way gives the keyboard up for five seconds. One that succeeds counts
/// it, and tells of the problem that is over.
pub proof fn law_search_has_ended(
    hardware: &mut Hardware,
    outcome: ConnectOutcome,
    config: &AppConfig,
    at: u64,
    now: Instant,
    r: ConnectReport,
)
    requires
        call_ensures(Hardware::connect, (hardware, outcome, config, at, now), r),
        now.nanos + 5_000_000_000 <= u128::MAX,
    ensures
        ({
            let before = old(hardware)@;
            let after = final(hardware)@;
            &&& !(outcome is Ready) ==> after.keyboard is None && after.next_retry.nanos
                == now.nanos + 5_000_000_000 && after.last_error is Some && (r is Failed
                || r is Quiet)
            &&& outcome is Ready ==> after.keyboard == Some(outcome->keyboard@)
                && after.last_error is None && after.last_connected_at == Some(at)
            &&& outcome is Ready && before.connection_count < u64::MAX ==> after.connection_count
                == before.connection_count + 1
            &&& outcome is Ready && before.last_error is None ==> r is Connected
            &&& outcome is Ready && before.last_error is Some ==> r is Recovered
                && r->Recovered_0@ == before.last_error->0
            &&& outcome is Ready && outcome->navigation == Ok::<bool, String>(true)
                ==> after.last_navigation_error is None
            &&& outcome is Ready && outcome->navigation == Ok::<bool, String>(false)
                && config.navigation.enabled ==> after.last_navigation_error is Some
        }),
{
    match outcome {
        ConnectOutcome::Failed(error) => {
            hardware_laws::law_failure_is_noted(
                old(hardware)@,
                hardware::failure_text(Attempt::Search, error@),
                at,
                now,
            );
        },
        ConnectOutcome::BackgroundFailed(error) => {
            hardware_laws::law_failure_is_noted(
                old(hardware)@,
                hardware::failure_text(Attempt::FirstBackground, error@),
                at,
                now,
            );
        },
        ConnectOutcome::LightsFailed(error) => {
            hardware_laws::law_failure_is_noted(
                old(hardware)@,
                hardware::failure_text(Attempt::FirstLights, error@),
                at,
                now,
            );
        },
        ConnectOutcome::Ready { keyboard, navigation } => {},
    }
}

/// What was written to the keyboard went well, and no problem is left, or the keyboard is given up
/// for five seconds.
pub proof fn law_writes_have_ended(
    hardware: &mut Hardware,
    outcome: Result<(), String>,
    at: u64,
    now: Instant,
    r: Option<String>,
)
    requires
        call_ensures(Hardware::applied, (hardware, outcome, at, now), r),
        now.nanos + 5_000_000_000 <= u128::MAX,
    ensures
        ({
            let before = old(hardware)@;
            let after = final(hardware)@;
            &&& outcome is Ok ==> after.last_error is None && after.keyboard == before.keyboard
                && after.failure_count == before.failure_count && r is None
            &&& outcome is Err ==> after.keyboard is None && after.next_retry.nanos == now.nanos
                + 5_000_000_000 && after.last_error == Some(
                "G915 lighting write failed: "@ + outcome->Err_0@,
            )
        }),
{
    if outcome is Err {
        hardware_laws::law_failure_is_noted(
            old(hardware)@,
            hardware::failure_text(Attempt::Lights, outcome->Err_0@),
            at,
            now,
        );
    }
}

/// The lights have been written anew: that is counted, with how long it took.
pub proof fn law_lights_were_reasserted(
    hardware: &mut Hardware,
    outcome: Result<(), String>,
    duration: Duration,
    at: u64,
    now: Instant,
    r: Option<String>,
)
    requires
        call_ensures(Hardware::lighting_reasserted, (hardware, outcome, duration, at, now), r),
        now.nanos + 5_000_000_000 <= u128::MAX,
        duration.nanos < 1_000_000 * u64::MAX,
    ensures
        ({
            let before = old(hardware)@;
            let after = final(hardware)@;
            let took = after.last_lighting_reassert_duration_ms;
            &&& outcome is Ok ==> r is None && after.last_error is None && after.keyboard
                == before.keyboard && after.last_lighting_reasserted_at == Some(at) && took is Some
                && took->0 * 1_000_000 <= duration.nanos < (took->0 + 1) * 1_000_000
            &&& outcome is Ok && before.lighting_reassertion_count < u64::MAX
                ==> after.lighting_reassertion_count == before.lighting_reassertion_count + 1
            &&& outcome is Err ==> after.keyboard is None && after.next_retry.nanos == now.nanos
                + 5_000_000_000 && after.lighting_reassertion_count
                == before.lighting_reassertion_count
        }),
{
    if outcome is Err {
        hardware_laws::law_failure_is_noted(
            old(hardware)@,
            hardware::failure_text(Attempt::Watchdog, outcome->Err_0@),
            at,
            now,
        );
    }
}

/// What is written where everything is shown anew, and before another keyboard comes.
pub proof fn law_background_is_written(
    hardware: &Hardware,
    config: &AppConfig,
    now: Instant,
    refresh: HardwareAction,
    reset: HardwareAction,
)
    requires
        call_ensures(Hardware::refresh, (hardware, config, now), refresh),
        call_ensures(Hardware::reset_background, (hardware, config), reset),
    ensures
        hardware@.keyboard matches Some(keyboard) ==> refresh@ == Plan::Write(
            hardware::background_packets(keyboard, config.lighting.background),
        ) && reset@ == refresh@,
        hardware@.keyboard is None ==> reset is Nothing,
        hardware@.keyboard is None && now.nanos >= hardware@.next_retry.nanos ==> refresh is Connect,
        hardware@.keyboard is None && now.nanos < hardware@.next_retry.nanos ==> refresh is Nothing,
{
}

/// A keyboard that is given up may be looked for at once, and its history stays.
pub proof fn law_disconnect(hardware: &mut Hardware, now: Instant, r: ())
    requires
        call_ensures(Hardware::disconnect, (hardware, now), r),
    ensures
        final(hardware)@.keyboard is None,
        final(hardware)@.next_retry == now,
        final(hardware)@.failure_count == old(hardware)@.failure_count,
        final(hardware)@.connection_count == old(hardware)@.connection_count,
        final(hardware)@.last_error == old(hardware)@.last_error,
        final(hardware)@.last_failure == old(hardware)@.last_failure,
{
}

/// A status that was saved comes back: a task on its key, where nothing before it claims either.
pub proof fn law_saved_status_comes_back(
    saved: SavedStatus,
    max_sessions: usize,
    r: Engine,
    k: int,
    i: int,
)
    requires
        call_ensures(restore_engine, (saved, max_sessions), r),
    ensures
        r@.valid(),
        r@.slots.len() == max_sessions,
        saved is Absent ==> r@.waiting.len() == 0 && (0 <= i < max_sessions ==> r@.slots[i] is None),
        saved matches SavedStatus::Found { slots, queued_sessions } ==> (0 <= k < slots@.len() && 1
            <= slots@[k].slot <= max_sessions && slots@[k].session_id@.len() > 0 && !(
        slots@[k].state is Idle) && (forall|j: int|
            0 <= j < k ==> (#[trigger] slots@[j]).slot != slots@[k].slot && slots@[j].session_id@
                != slots@[k].session_id@)) ==> r@.slots[slots@[k].slot - 1] == Some(
            Task {
                session: slots@[k].session_id@,
                state: slots@[k].state,
                updated_at: slots@[k].updated_at,
            },
        ),
{
    engine_laws::law_empty_engine_is_valid(max_sessions as nat, r@);
    if let SavedStatus::Found { slots, queued_sessions } = saved {
        let views = slots@.map_values(|saved: RestoredSlot| saved@);
        let queue = queued_sessions@.map_values(|task: RestoredQueuedSession| task@);
        engine_laws::law_restored_engine_is_valid(max_sessions as nat, views, queue);
        if 0 <= k < slots@.len() && 1 <= slots@[k].slot <= max_sessions
            && slots@[k].session_id@.len() > 0 && !(slots@[k].state is Idle) && (forall|j: int|
            0 <= j < k ==> (#[trigger] slots@[j]).slot != slots@[k].slot && slots@[j].session_id@
                != slots@[k].session_id@) {
            assert(views[k] == slots@[k]@);
            assert forall|j: int| 0 <= j < k implies (#[trigger] views[j]).slot != views[k].slot
                && views[j].task.session != views[k].task.session by {
                assert(views[j] == slots@[j]@);
            }
            task_laws::law_saved_slot_comes_back(max_sessions as nat, views, queue, k);
        }
    }
}

/// A journal that could not be looked at is settled with its problem, that of a desktop task is
/// read, and any other is foreign.
pub proof fn law_restored_journal_is_judged(inspection: Inspection, session: &str, r: RestoreStep)
    requires
        call_ensures(restore_step, (inspection, session), r),
    ensures
        inspection is Unreadable ==> r is Settled && r->Settled_0 is Unreadable,
        inspection is Seen && inspection->first is None ==> r is Settled && r->Settled_0 is Foreign,
        inspection is Seen && inspection->first is Some ==> (r is Recover <==> {
            let record = inspection->first->0;
            record.record_type@ == "session_meta"@ && record.payload.id@ == session@
                && record.payload.originator@ == "Codex Desktop"@ && record.payload.source is String
                && record.payload.source->String_0@ == "vscode"@
        }),
        inspection is Seen && !(r is Recover) ==> r is Settled && r->Settled_0 is Foreign,
{
    if inspection is Seen {
        follow_laws::law_desktop_tasks_are_recognised(inspection->first, session@);
    }
}

/// A path is the journal of a task where it lies in the directory of all sessions and its last
/// component ends in the task's name.
pub proof fn law_journal_path_is_checked(
    root: &str,
    session: &str,
    path: &str,
    r: Result<(), TranscriptError>,
    directory: Seq<char>,
    start: Seq<char>,
)
    requires
        call_ensures(validate_transcript_path, (root, session, path), r),
    ensures
        !paths::lies_under(path@, root@) ==> r == Err::<(), TranscriptError>(
            TranscriptError::OutsideSessions,
        ),
        paths::lies_under(path@, root@) && paths::file_name_of(path@) == Some(
            start + "-"@ + session@ + ".jsonl"@,
        ) ==> r is Ok,
        r is Ok ==> paths::lies_under(path@, root@) && paths::file_name_of(path@) is Some,
{
    follow_laws::law_journals_are_named_after_tasks(start, start, session@);
}

/// What the journals of tasks tell when they are restored comes from one after the other.
pub proof fn law_tasks_are_restored(
    tracker: &mut JournalTracker,
    targets: Vec<RestoreTarget>,
    r: JournalRestore,
)
    requires
        call_ensures(JournalTracker::restore, (tracker, targets), r),
        targets@.len() == 1,
    ensures
        ({
            let target = targets@[0];
            let session = target.session_id@;
            let before = old(tracker)@;
            let after = final(tracker)@;
            &&& target.outcome is Missing ==> !r.admitted_sessions@.contains(session)
                && after.readers == before.readers
            &&& target.outcome is Foreign ==> !r.admitted_sessions@.contains(session)
                && after.readers == before.readers
            &&& target.outcome is Unreadable ==> !r.admitted_sessions@.contains(session)
                && after.last_error is Some
            &&& target.outcome is Unrecoverable ==> r.admitted_sessions@.contains(session)
                && after.last_error is Some
            &&& target.outcome is Recovered ==> r.admitted_sessions@.contains(session)
                && after.readers.contains_key(session) && after.last_error is None
            &&& target.outcome matches RestoreOutcome::Recovered { reader, latest } ==> (
            r.transitions@.len() == 1 <==> latest is Some)
        }),
{
    let start = journal_tracker::nothing_restored(old(tracker)@);
    let target = targets@[0];
    assert(targets@.drop_last() =~= Seq::empty());
    assert(targets@.last() == target);
    assert(start.with_targets(targets@.drop_last()) == start);
    let end = start.with_target(target);
    assert(start.with_targets(targets@) == end);
    follow_laws::law_restored_task_is_sorted(start, target);
    let told = r.transitions@.map_values(
        |t: SessionJournalTransition| t@,
    );
    assert(told.len() == r.transitions@.len());
}

/// A log is rotated where it has reached its limit: it becomes the first archive, and is emptied.
pub proof fn law_log_is_rotated(
    path: &str,
    length: Option<u64>,
    max_bytes: u64,
    retained: usize,
    r: Option<Vec<RotationStep>>,
    files: Map<Seq<char>, Seq<u8>>,
)
    requires
        call_ensures(rotate_log_file, (path, length, max_bytes, retained), r),
        files.contains_key(path@),
    ensures
        r is Some <==> length is Some && length->0 >= max_bytes,
        r is Some && retained >= 1 ==> ({
            let after = log_rotation::after_steps(
                files,
                r->0@.map_values(|step: RotationStep| step@),
            );
            &&& after.contains_key(path@) && after[path@].len() == 0
            &&& after.contains_key(log_rotation::archive(path@, 1)) && after[log_rotation::archive(
                path@,
                1,
            )] == files[path@]
        }),
        r is Some && retained == 0 ==> r->0@.len() == 1,
{
    if r is Some {
        let steps = r->0@.map_values(|step: RotationStep| step@);
        assert(steps.len() == r->0@.len());
        if retained >= 1 {
            log_rotation::law_rotation_keeps_the_newest(files, path@, retained as nat);
        }
    }
}

/// The usual log is rotated at five mebibytes, and two archives are kept.
pub proof fn law_usual_log(now: Instant, r: LogRotator)
    requires
        call_ensures(LogRotator::new, (now,), r),
    ensures
        r.max_bytes == 5_242_880,
        r.retained_files == 2,
        r.last_checked == now,
{
}

/// A program is installed anew with what it was installed with, where it was.
pub proof fn law_update_command(plan: &UpdatePlan, r: Vec<String>)
    requires
        call_ensures(UpdatePlan::cargo_arguments, (plan,), r),
    ensures
        r@.len() == 8,
        r@[0]@ == "install"@,
        r@[1]@ == "codex-agent-indicator"@,
        r@[2]@ == "--registry"@,
        r@[3]@ == "crates-io"@,
        r@[4]@ == "--locked"@,
        r@[5]@ == "--force"@,
        r@[6]@ == "--root"@,
        r@[7]@ == plan.install_root@,
{
    let words = r@.map_values(|argument: String| argument@);
    assert(words.len() == 8);
    assert(r@.len() == words.len());
    assert(words[0] == r@[0]@);
    assert(words[1] == r@[1]@);
    assert(words[2] == r@[2]@);
    assert(words[3] == r@[3]@);
    assert(words[4] == r@[4]@);
    assert(words[5] == r@[5]@);
    assert(words[6] == r@[6]@);
    assert(words[7] == r@[7]@);
}

/// The login service runs the program in the home directory, and goes by the user's number.
pub proof fn law_login_service(
    plan: &UpdatePlan,
    home: &str,
    installed: bool,
    managed: bool,
    user: &str,
    name: String,
)
    requires
        call_ensures(UpdatePlan::is_managed, (plan, home, installed), managed),
        call_ensures(service_name, (user,), name),
    ensures
        !installed ==> !managed,
        installed ==> (managed <==> paths::components(plan.executable@) == paths::components(home@)
            + seq![".local"@, "bin"@, "codex-agent-indicator"@]),
        name@ == "gui/"@ + text::trimmed(user@) + "/com.codex-agent-indicator"@,
{
    update::law_managed_program_lies_in_home(home@);
}

/// The keys of tasks are lit at full brightness where everything is shown anew, and a flash of the
/// daemon is one of its keys.
pub proof fn law_daemon_flashes(
    daemon: &mut Daemon,
    now: Instant,
    r: Option<Vec<LightingChange>>,
    i: int,
)
    requires
        call_ensures(Daemon::flash_frame_if_due, (daemon, now), r),
        0 <= i < old(daemon)@.engine.slots.len(),
        old(daemon)@.engine.slots[i] is Some,
        old(daemon)@.config.lighting.flash_interval_ms > 0,
    ensures
        ({
            let before = old(daemon)@;
            let after = final(daemon)@;
            let settings = before.config.lighting;
            let flashes = before.lighting_mode.mode == LightingMode::Day && settings.flash_enabled;
            let due = now.nanos >= before.flash.last_toggle.nanos + settings.flash_interval_ms
                * 1_000_000;
            &&& r is Some <==> flashes && due
            &&& r is Some && before.flash.bright ==> r->0@ == state::active_lights(
                before.config,
                before.engine,
                settings.flash_dim_percent,
            )
            &&& r is Some && !before.flash.bright ==> r->0@ == state::active_lights(
                before.config,
                before.engine,
                100,
            )
            &&& r is Some ==> after.flash.bright == !before.flash.bright && after.flash.last_toggle
                == now
            &&& after.engine == before.engine
            &&& after.hardware == before.hardware
        }),
{
    let before = old(daemon)@;
    if before.lighting_mode.mode == LightingMode::Day && before.config.lighting.flash_enabled {
        schedule_laws::law_keys_flash_by_day(
            before.flash,
            now,
            before.config.lighting,
            before.engine,
            i,
        );
    } else {
        schedule_laws::law_keys_are_steady_otherwise(
            before.flash,
            now,
            before.lighting_mode.mode,
            before.config.lighting,
            before.engine,
        );
    }
}

/// A delay is reported once in half a minute.
pub proof fn law_delays_are_reported_now_and_then(
    health: &mut EventLoopHealth,
    now: Instant,
    r: bool,
)
    requires
        call_ensures(EventLoopHealth::take_report_if_due, (health, now), r),
    ensures
        old(health).last_reported_at is None ==> r,
        old(health).last_reported_at matches Some(last) ==> (r <==> now.nanos >= last.nanos
            + 30_000_000_000),
        r ==> final(health).last_reported_at == Some(now),
        !r ==> final(health).last_reported_at == old(health).last_reported_at,
        final(health).delay_count == old(health).delay_count,
{
    if old(health).last_reported_at is Some {
        schedule_laws::law_how_often_things_are_looked_at(old(health).last_reported_at->0, now);
    }
}

/// A reader that begins near the end of a journal reads the last eight mebibytes.
pub proof fn law_reader_at_the_end(path: &str, length: u64, previous: u8, r: JournalReader)
    requires
        call_ensures(JournalReader::at_tail, (path, length, previous), r),
    ensures
        length <= 8_388_608 ==> r@.offset == 0 && !r@.skip_partial_line,
        length > 8_388_608 ==> r@.offset == length - 8_388_608,
        length > 8_388_608 ==> (r@.skip_partial_line <==> previous != 10),
        r.spec_path() == path@,
        r@.active_turn is None,
{
    follow_laws::law_first_reading_begins_near_the_end(length as int, previous);
}

} // verus!
