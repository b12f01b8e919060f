use codex_agent_indicator::collections::StringSet;
use codex_agent_indicator::config::{AppConfig, ConfigError, DeviceConfig, LightingMode};
use codex_agent_indicator::daemon::{
    changes_shape, clear_removed_journal_sessions, judge_probe, prune_unadmitted_sessions,
    restore_engine, Admission, Daemon, ProbeResult, ReloadError, SavedStatus, SocketVerdict,
};
use codex_agent_indicator::device::{FeatureIndices, G915};
use codex_agent_indicator::hardware::{
    connection_packets, Attempt, ConnectOutcome, ConnectReport, Hardware, HardwareAction,
    RefreshStep,
};
use codex_agent_indicator::journal_tracker::{
    JournalPoll, JournalTracker, RegistrationStep, SessionJournalTransition,
};
use codex_agent_indicator::lighting::{
    minute_of_day, FlashController, LightingModeController, LightingWatchdog,
};
use codex_agent_indicator::log_rotation::{rotate_log_file, LogRotator, RotationStep};
use codex_agent_indicator::state::{
    Engine, LightingChange, RestoredQueuedSession, RestoredSlot, StateKind,
};
use codex_agent_indicator::status::{
    error_changed, EventLoopHealth, PublishReport, StatusPersistence, StatusPublisher, StatusWait,
    StatusWriteRequest,
};
use codex_agent_indicator::time::{duration_millis, Duration, Instant};
use codex_agent_indicator::wire::{EventMessage, LifecycleTracker};
use std::collections::BTreeMap;

const START: Instant = Instant { nanos: 1_000_000_000_000 };

fn after_ms(millis: u64) -> Instant {
    START.after(Duration::from_millis(millis))
}

/// Files that are kept in memory.
type Files = BTreeMap<String, Vec<u8>>;

fn rotate(files: &mut Files, path: &str, max_bytes: u64, retained: usize) -> bool {
    let length = files.get(path).map(|content| content.len() as u64);
    let Some(steps) = rotate_log_file(path, length, max_bytes, retained) else {
        return false;
    };
    run_steps(files, steps);
    true
}

fn run_steps(files: &mut Files, steps: Vec<RotationStep>) {
    for step in steps {
        match step {
            RotationStep::RemoveIfPresent { path } => {
                files.remove(&path);
            }
            RotationStep::MoveIfPresent { from, to } => {
                if let Some(content) = files.remove(&from) {
                    files.insert(to, content);
                }
            }
            RotationStep::CopyFile { from, to } => {
                let content = files[&from].clone();
                files.insert(to, content);
            }
            RotationStep::Truncate { path } => {
                files.insert(path, Vec::new());
            }
        }
    }
}

#[test]
fn rotates_a_launchd_log_without_breaking_its_open_append_handle() {
    let log = "/logs/codex-agent-indicator.log";
    let first = format!("{log}.1");
    let second = format!("{log}.2");
    let mut files = Files::new();
    let append = |files: &mut Files, text: &[u8]| {
        files.entry(log.to_owned()).or_default().extend_from_slice(text);
    };

    append(&mut files, b"first-generation\n");
    assert!(rotate(&mut files, log, 8, 2));
    assert_eq!(files[&first], b"first-generation\n");
    assert_eq!(files[log], b"");

    append(&mut files, b"second-generation\n");
    assert!(rotate(&mut files, log, 8, 2));
    assert_eq!(files[&first], b"second-generation\n");
    assert_eq!(files[&second], b"first-generation\n");

    append(&mut files, b"still-live\n");
    assert_eq!(files[log], b"still-live\n");

    assert!(rotate(&mut files, log, 8, 2));
    assert_eq!(files[&first], b"still-live\n");
    assert_eq!(files[&second], b"second-generation\n");
    assert!(!files.contains_key(&format!("{log}.3")));
    assert_eq!(files.len(), 3);

    append(&mut files, b"after-third-rotation\n");
    assert_eq!(files[log], b"after-third-rotation\n");
}

#[test]
fn leaves_a_log_below_the_rotation_limit_untouched() {
    let log = "/logs/codex-agent-indicator.log";
    let mut files = Files::from([(log.to_owned(), b"small\n".to_vec())]);

    assert!(!rotate(&mut files, log, 1024, 2));
    assert_eq!(files[log], b"small\n");
    assert!(!files.contains_key(&format!("{log}.1")));
    assert!(!rotate(&mut Files::new(), log, 0, 2));
}

#[test]
fn checks_log_size_only_when_the_rotation_interval_is_due() {
    let log = "/logs/codex-agent-indicator.log";
    let mut files = Files::from([(log.to_owned(), b"large-enough\n".to_vec())]);
    let mut rotator = LogRotator::new_at(START, 8, 2);

    assert!(rotator.rotate_if_due(after_ms(59_000), log, Some(13)).is_none());
    assert!(!files.contains_key(&format!("{log}.1")));
    let steps = rotator.rotate_if_due(after_ms(60_000), log, Some(13)).unwrap().unwrap();
    run_steps(&mut files, steps);
    assert!(files.contains_key(&format!("{log}.1")));
    assert!(rotator.rotate_if_due(after_ms(120_000), log, Some(0)).unwrap().is_none());
    assert_eq!(LogRotator::new(START).max_bytes, 5 * 1024 * 1024);
    assert_eq!(LogRotator::new(START).retained_files, 2);
}

#[test]
fn without_archives_the_log_is_only_emptied() {
    let log = "/logs/x.log";
    let mut files = Files::from([
        (log.to_owned(), b"text".to_vec()),
        (format!("{log}.1"), b"kept".to_vec()),
    ]);
    assert!(rotate(&mut files, log, 4, 0));
    assert_eq!(files[log], b"");
    assert_eq!(files[&format!("{log}.1")], b"kept");
}

#[test]
fn active_daemon_socket_is_never_removed() {
    assert_eq!(judge_probe(ProbeResult::Delivered), SocketVerdict::AlreadyRunning);
    assert_eq!(judge_probe(ProbeResult::WouldBlock), SocketVerdict::AlreadyRunning);
}

#[test]
fn abandoned_daemon_socket_is_removed_before_binding() {
    assert_eq!(judge_probe(ProbeResult::Refused), SocketVerdict::Stale);
    assert_eq!(judge_probe(ProbeResult::NotFound), SocketVerdict::Stale);
    assert_eq!(judge_probe(ProbeResult::Failed), SocketVerdict::Unknown);
}

#[test]
fn startup_prunes_ghost_and_non_app_slots_before_lighting_them() {
    let config = AppConfig::default();
    let mut engine = Engine::restore(
        config.behavior.max_sessions,
        vec![
            RestoredSlot {
                slot: 1,
                session_id: "desktop-task".to_owned(),
                state: StateKind::Done,
                updated_at: 10,
            },
            RestoredSlot {
                slot: 2,
                session_id: "missing-ghost".to_owned(),
                state: StateKind::Working,
                updated_at: 11,
            },
            RestoredSlot {
                slot: 3,
                session_id: "cli-task".to_owned(),
                state: StateKind::Approval,
                updated_at: 12,
            },
        ],
        Vec::new(),
    );

    prune_unadmitted_sessions(
        &mut engine,
        &StringSet::from_vec(vec!["desktop-task".to_owned()]),
        &config,
    );

    let snapshot = engine.snapshot(&config);
    assert_eq!(snapshot.len(), 1);
    assert_eq!(snapshot[0].session_id, "desktop-task");
    assert_eq!(snapshot[0].state, StateKind::Done);
}

#[test]
fn startup_prunes_unadmitted_waiting_tasks_before_promotion() {
    let mut config = AppConfig::default();
    config.behavior.max_sessions = 1;
    config.device.slot_keys.truncate(1);
    let mut engine = Engine::new(1);
    engine.transition("visible", StateKind::Working, 10, &config);
    engine.transition("missing-ghost", StateKind::Working, 20, &config);
    engine.transition("desktop-waiting", StateKind::Working, 30, &config);

    prune_unadmitted_sessions(
        &mut engine,
        &StringSet::from_vec(vec!["visible".to_owned(), "desktop-waiting".to_owned()]),
        &config,
    );
    engine.clear_session("visible", &config);

    assert_eq!(engine.session_for_g_key(1), Some("desktop-waiting"));
}

#[test]
fn startup_restores_waiting_tasks_without_remapping_visible_g_keys() {
    let config = AppConfig::default();
    let saved = SavedStatus::Found {
        slots: vec![RestoredSlot {
            slot: 1,
            session_id: "visible".to_owned(),
            state: StateKind::Working,
            updated_at: 10,
        }],
        queued_sessions: vec![RestoredQueuedSession {
            session_id: "waiting".to_owned(),
            state: StateKind::Requested,
            updated_at: 20,
        }],
    };

    let mut engine = restore_engine(saved, 1);
    engine.clear_session("visible", &config);

    assert_eq!(engine.session_for_g_key(1), Some("waiting"));
    assert!(!restore_engine(SavedStatus::Absent, 1).has_active_slots());
}

#[test]
fn status_persists_waiting_tasks_for_restart() {
    let mut daemon = daemon();
    daemon.config.behavior.max_sessions = 1;
    daemon.config.device.slot_keys.truncate(1);
    daemon.engine = Engine::new(1);
    daemon.engine.transition("visible", StateKind::Working, 10, &daemon.config);
    daemon.engine.transition("waiting", StateKind::Requested, 20, &daemon.config);

    let status = daemon.status(
        &StatusPublisher::new(),
        7,
        99,
        "/config.toml".to_owned(),
        LightingMode::Day,
    );

    assert_eq!(status.lighting_mode, LightingMode::Day);
    assert_eq!((status.pid, status.updated_at), (7, 99));
    assert_eq!(status.config_path, "/config.toml");
    assert_eq!(status.queued_sessions.len(), 1);
    assert_eq!(status.queued_sessions[0].session_id, "waiting");
    assert_eq!(status.queued_sessions[0].state, StateKind::Requested);
    assert_eq!(status.queued_sessions[0].updated_at, 20);
    assert_eq!(status.slots.len(), 1);
    assert_eq!(status.slots[0].session_id, "visible");
    assert!(!status.device_connected && !status.g_key_navigation_active);
    assert!(status.g_key_navigation_enabled);
}

#[test]
fn archived_journal_removes_its_indicator_slot() {
    let config = AppConfig::default();
    let mut engine = Engine::new(config.behavior.max_sessions);
    engine.transition("archived-session", StateKind::Working, 10, &config);
    let mut lifecycle = LifecycleTracker::default();

    let changes = clear_removed_journal_sessions(
        &vec!["archived-session".to_owned()],
        &config,
        &mut engine,
        &mut lifecycle,
    );

    assert!(engine.snapshot(&config).is_empty());
    assert_eq!(
        changes,
        [LightingChange {
            key: config.device.slot_keys[0],
            color: config.lighting.background,
        }]
    );
}

#[test]
fn alternates_active_g_keys_between_dim_and_full_status_colours() {
    let config = AppConfig::default();
    let mut engine = Engine::new(config.behavior.max_sessions);
    engine.transition("task", StateKind::Approval, 10, &config);
    let mut flash = FlashController::new_at(START);

    assert!(flash
        .frame_if_due_for_mode(after_ms(499), LightingMode::Day, &config, &engine)
        .is_none());

    let dim = flash
        .frame_if_due_for_mode(after_ms(500), LightingMode::Day, &config, &engine)
        .expect("dim frame");
    assert_eq!(dim.len(), 1);
    assert_eq!(
        dim[0].color,
        config.colors.approval.scale_percent(config.lighting.flash_dim_percent)
    );

    let bright = flash
        .frame_if_due_for_mode(after_ms(1_000), LightingMode::Day, &config, &engine)
        .expect("bright frame");
    assert_eq!(bright[0].color, config.colors.approval);
}

#[test]
fn night_mode_never_emits_a_flash_frame() {
    let config = AppConfig::default();
    let mut engine = Engine::new(config.behavior.max_sessions);
    engine.transition("task", StateKind::Working, 10, &config);
    let mut flash = FlashController::new_at(START);

    assert!(flash
        .frame_if_due_for_mode(after_ms(5_000), LightingMode::Night, &config, &engine)
        .is_none());
}

#[test]
fn a_dim_key_becomes_bright_when_flashing_ends() {
    let mut config = AppConfig::default();
    let mut engine = Engine::new(5);
    engine.transition("task", StateKind::Working, 10, &config);
    let mut flash = FlashController { bright: false, last_toggle: START };
    assert_eq!(
        flash.poll_interval_for_mode(after_ms(200), LightingMode::Day, &config, &engine),
        Duration::from_millis(300)
    );
    assert_eq!(
        flash.poll_interval_for_mode(after_ms(600), LightingMode::Day, &config, &engine),
        Duration::from_millis(1)
    );
    config.lighting.flash_enabled = false;
    assert_eq!(
        flash.poll_interval_for_mode(after_ms(200), LightingMode::Day, &config, &engine),
        Duration::from_secs(1)
    );
    assert!(flash
        .frame_if_due_for_mode(after_ms(900), LightingMode::Day, &config, &engine)
        .is_none());
    assert_eq!(flash, FlashController { bright: true, last_toggle: after_ms(900) });
}

#[test]
fn lighting_mode_controller_changes_only_when_a_schedule_boundary_is_crossed() {
    let config = AppConfig::default();
    let mut controller = LightingModeController::new_at_minute(&config, 16 * 60 + 59, START);

    assert_eq!(controller.mode(), LightingMode::Day);
    assert!(!controller.update_at_minute(&config, 16 * 60 + 59));
    assert!(controller.update_at_minute(&config, 17 * 60));
    assert_eq!(controller.mode(), LightingMode::Night);
    assert!(!controller.update_at_minute(&config, 17 * 60 + 1));
}

#[test]
fn the_time_of_day_is_looked_up_each_second() {
    let config = AppConfig::default();
    let mut controller = LightingModeController::new_at_minute(&config, 600, START);
    assert!(!controller.update_if_due(after_ms(999), Some(1_100), &config));
    assert!(!controller.update_if_due(after_ms(1_000), None, &config));
    assert_eq!(controller.last_checked, after_ms(1_000));
    assert!(controller.update_if_due(after_ms(2_000), Some(1_100), &config));
    assert_eq!(minute_of_day(17, 1), Some(1_021));
    assert_eq!(minute_of_day(23, 59), Some(1_439));
    assert_eq!(minute_of_day(24, 0), None);
    assert_eq!(minute_of_day(0, -1), None);
}

#[test]
fn periodically_reasserts_direct_lighting_mode() {
    let mut watchdog = LightingWatchdog::new_at(START);
    let interval = Duration::from_secs(5);

    assert!(!watchdog.take_if_due(after_ms(4_999), interval));
    assert!(watchdog.take_if_due(after_ms(5_000), interval));
    assert!(!watchdog.take_if_due(after_ms(6_000), interval));
    assert!(watchdog.take_if_due(after_ms(10_000), interval));
}

#[test]
fn records_only_actionable_event_loop_delay() {
    let mut health = EventLoopHealth::new();

    health.begin_wait(START, Duration::from_millis(25));
    assert!(!health.observe_at(after_ms(274), 10));
    assert_eq!(health.delay_count, 0);

    health.begin_wait(after_ms(1_000), Duration::from_millis(25));
    assert!(health.observe_at(after_ms(1_275), 20));
    assert_eq!(health.delay_count, 1);
    assert_eq!(health.max_delay_ms, 250);
    assert_eq!(
        health.last_delay.as_ref().map(|delay| (delay.occurred_at, delay.delay_ms)),
        Some((20, 250))
    );
    let observed_at = after_ms(1_275);
    assert!(health.take_report_if_due(observed_at));
    assert!(!health.take_report_if_due(observed_at.after(Duration::from_secs(29))));
    assert!(health.take_report_if_due(observed_at.after(Duration::from_secs(30))));
}

#[test]
fn a_delay_is_reported_in_words_and_not_too_often() {
    let mut health = EventLoopHealth::new();
    assert_eq!(health.report_delay(START, 1), None);
    health.begin_wait(START, Duration::from_millis(25));
    assert_eq!(
        health.report_delay(after_ms(325), 2).as_deref(),
        Some("delay_ms=300 count=1 max_delay_ms=300")
    );
    health.begin_wait(after_ms(1_000), Duration::from_millis(25));
    assert_eq!(health.report_delay(after_ms(2_000), 3), None);
    assert_eq!((health.delay_count, health.max_delay_ms), (2, 975));
    assert_eq!(duration_millis(Duration { nanos: u128::MAX }), u64::MAX);
}

#[test]
fn records_successful_lighting_reassertions_without_clearing_failure_history() {
    let mut hardware = Hardware::new(START);
    hardware.record_failure_at("earlier HID failure".to_owned(), 5);

    hardware.record_lighting_reassertion_at(10, Duration::from_millis(14));
    hardware.record_lighting_reassertion_at(20, Duration::from_millis(9));

    assert_eq!(hardware.lighting_reassertion_count, 2);
    assert_eq!(hardware.last_lighting_reasserted_at, Some(20));
    assert_eq!(hardware.last_lighting_reassert_duration_ms, Some(9));
    assert_eq!(hardware.max_lighting_reassert_duration_ms, 14);
    assert_eq!(hardware.failure_count, 1);
    assert_eq!(
        hardware.last_failure.as_ref().map(|failure| failure.message.as_str()),
        Some("earlier HID failure")
    );
}

#[test]
fn debounces_repeated_non_visible_status_updates() {
    let mut persistence = StatusPersistence::new();

    assert!(!persistence.note(START, StatusWriteRequest::Deferred));
    assert!(!persistence.note(after_ms(100), StatusWriteRequest::Deferred));
    assert!(!persistence.take_if_due(after_ms(249)));
    assert!(persistence.take_if_due(after_ms(250)));
    assert!(!persistence.take_if_due(after_ms(500)));
}

#[test]
fn visible_status_update_flushes_immediately_and_cancels_debounce() {
    let mut persistence = StatusPersistence::new();

    assert!(!persistence.note(START, StatusWriteRequest::Deferred));
    assert!(persistence.note(after_ms(50), StatusWriteRequest::Immediate));
    assert!(!persistence.take_if_due(after_ms(500)));
}

#[test]
fn a_deferred_status_shortens_the_wait() {
    let mut persistence = StatusPersistence::new();
    assert_eq!(persistence.poll_interval(START), Duration::from_secs(1));
    assert!(!persistence.note(START, StatusWriteRequest::Unneeded));
    assert!(!persistence.note(START, StatusWriteRequest::Deferred));
    assert_eq!(persistence.poll_interval(after_ms(100)), Duration::from_millis(150));
    assert_eq!(persistence.poll_interval(after_ms(900)), Duration::from_millis(1));
    persistence.mark_flushed();
    assert_eq!(persistence.deadline, None);
}

#[test]
fn status_write_failure_is_recorded_without_escaping_the_daemon() {
    let mut daemon = daemon();
    daemon.hardware.record_lighting_reassertion_at(30, Duration::from_millis(12));
    let mut publisher = StatusPublisher::new();
    publisher.event_loop.begin_wait(START, Duration::from_millis(25));
    assert!(publisher.event_loop.observe_at(after_ms(325), 40));

    let report = publisher.publish(Err("failed to write /blocked/status.json".to_owned()), 50);
    assert!(matches!(report, PublishReport::Failed(text) if text.contains("failed to write")));
    assert_eq!(publisher.failure_count, 1);
    assert!(publisher
        .last_failure
        .as_ref()
        .is_some_and(|failure| failure.message.contains("failed to write")));
    let again = publisher.publish(Err("failed to write /blocked/status.json".to_owned()), 51);
    assert!(matches!(again, PublishReport::Quiet));
    assert_eq!(publisher.failure_count, 2);

    let status =
        daemon.status(&publisher, 1, 60, "/config.toml".to_owned(), LightingMode::Night);
    assert_eq!(status.status_write_failure_count, 2);
    assert_eq!(status.lighting_reassertion_count, 1);
    assert_eq!(status.last_lighting_reasserted_at, Some(30));
    assert_eq!(status.last_lighting_reassert_duration_ms, Some(12));
    assert_eq!(status.max_lighting_reassert_duration_ms, 12);
    assert_eq!(status.event_loop_delay_count, 1);
    let delay = status.last_event_loop_delay.unwrap();
    assert_eq!((delay.occurred_at, delay.delay_ms), (40, 300));
    assert_eq!(status.max_event_loop_delay_ms, 300);
    assert!(status
        .last_status_write_failure
        .as_ref()
        .is_some_and(|failure| failure.message.contains("failed to write")));

    let recovered = publisher.publish(Ok(()), 70);
    assert!(matches!(recovered, PublishReport::Recovered(text) if text.contains("failed to write")));
    assert!(matches!(publisher.publish(Ok(()), 71), PublishReport::Quiet));
    assert!(publisher.last_failure.is_some());
}

#[test]
fn recovered_hardware_failure_remains_available_for_diagnosis() {
    let mut hardware = Hardware::new(START);

    hardware.record_failure_at("G915 input read failed".to_owned(), 10);
    hardware.record_connected_at(20);

    assert!(hardware.last_error.is_none());
    assert_eq!(hardware.failure_count, 1);
    assert_eq!(hardware.connection_count, 1);
    assert_eq!(hardware.last_connected_at, Some(20));
    assert_eq!(
        hardware
            .last_failure
            .as_ref()
            .map(|failure| (failure.occurred_at, failure.message.as_str())),
        Some((10, "G915 input read failed"))
    );
}

fn keyboard() -> G915 {
    G915::new(
        DeviceConfig::default(),
        FeatureIndices { per_key_lighting: 0x0a, rgb_effects: 0x09, mode: 0x0e, g_keys: Some(5) },
        vec![1, 2, 3],
    )
}

fn daemon() -> Daemon {
    let config = AppConfig::default();
    let engine = Engine::new(config.behavior.max_sessions);
    let journals = JournalTracker::new("/sessions".to_owned(), START);
    Daemon::new(config, Some(7), engine, journals, 600, START)
}

fn hook(session_id: &str, event: &str) -> EventMessage {
    hook_of_run(session_id, "run", event, Some(format!("/sessions/x-{session_id}.jsonl")))
}

fn hook_of_run(
    session_id: &str,
    run_id: &str,
    event: &str,
    transcript_path: Option<String>,
) -> EventMessage {
    EventMessage::Hook {
        session_id: session_id.to_owned(),
        run_id: run_id.to_owned(),
        hook_event_name: event.to_owned(),
        is_subagent: false,
        tool_name: None,
        last_assistant_message: None,
        tool_failed: false,
        transcript_path,
    }
}

fn follow(daemon: &mut Daemon, session_id: &str) {
    let path = format!("/sessions/x-{session_id}.jsonl");
    assert_eq!(
        daemon.journals.register_after(session_id, &path, RegistrationStep::Inspect, true, 0),
        Ok(true)
    );
}

#[test]
fn an_admitted_hook_lights_its_key_and_keeps_its_journal() {
    let mut daemon = daemon();
    follow(&mut daemon, "task");
    follow(&mut daemon, "unshown");
    daemon.flash.bright = false;
    let handled =
        daemon.handle_message(&hook("task", "UserPromptSubmit"), Admission::Admitted, 9, after_ms(5));
    assert_eq!(handled.request, StatusWriteRequest::Immediate);
    assert_eq!(handled.lights, daemon.engine.repaint(&daemon.config));
    assert_eq!(handled.lights.len(), 5);
    assert!(!handled.reload && handled.warning.is_none());
    assert_eq!(daemon.flash, FlashController { bright: true, last_toggle: after_ms(5) });
    assert_eq!(daemon.journals.sessions(), ["task"]);
    assert_eq!(daemon.engine.snapshot(&daemon.config)[0].updated_at, 9);

    let again =
        daemon.handle_message(&hook("task", "PreToolUse"), Admission::Admitted, 10, after_ms(6));
    assert_eq!(again.request, StatusWriteRequest::Deferred);
    assert!(again.lights.is_empty());
    assert_eq!(daemon.flash.last_toggle, after_ms(5));
    let silent =
        daemon.handle_message(&hook("task", "SessionEnd"), Admission::Admitted, 11, after_ms(7));
    assert_eq!(silent.request, StatusWriteRequest::Unneeded);
    assert_eq!(daemon.engine.session_for_g_key(1), Some("task"));
}

#[test]
fn a_refused_hook_shows_nothing() {
    let mut daemon = daemon();
    follow(&mut daemon, "task");
    let handled =
        daemon.handle_message(&hook("task", "UserPromptSubmit"), Admission::Refused, 9, START);
    assert_eq!(handled.request, StatusWriteRequest::Unneeded);
    assert!(handled.lights.is_empty());
    assert!(!daemon.engine.has_active_slots());
    assert_eq!(daemon.journals.source_count(), 1);

    let failed = || Admission::Failed("outside".to_owned());
    let handled = daemon.handle_message(&hook("task", "Stop"), failed(), 9, START);
    assert_eq!(handled.warning.as_deref(), Some("outside"));
    assert_eq!(daemon.journals.last_error().as_deref(), Some("outside"));
    let handled = daemon.handle_message(&hook("task", "SessionEnd"), failed(), 9, START);
    assert_eq!(handled.warning, None);
    assert_eq!(daemon.journals.source_count(), 0);
}

#[test]
fn a_hook_that_names_no_journal_is_refused() {
    let mut daemon = daemon();
    let unnamed = |event: &str| hook_of_run("task", "run", event, None);
    for admission in [
        Admission::Admitted,
        Admission::Refused,
        Admission::Failed("outside".to_owned()),
    ] {
        let handled = daemon.handle_message(&unnamed("UserPromptSubmit"), admission, 9, START);
        assert_eq!(handled.request, StatusWriteRequest::Unneeded);
        assert!(handled.lights.is_empty());
        assert!(!handled.reload && handled.warning.is_none());
        assert!(!daemon.engine.has_active_slots());
        assert_eq!(daemon.journals.last_error(), &None);
    }

    let state = |daemon: &Daemon| daemon.engine.snapshot(&daemon.config)[0].state;
    daemon.handle_message(&hook("task", "PermissionRequest"), Admission::Admitted, 10, START);
    let other = hook_of_run("task", "other", "PostToolUse", Some("/sessions/x-task.jsonl".to_owned()));
    daemon.handle_message(&other, Admission::Admitted, 11, START);
    assert_eq!(state(&daemon), StateKind::Approval);
    let handled = daemon.handle_message(&unnamed("PostToolUse"), Admission::Admitted, 12, START);
    assert_eq!(handled.request, StatusWriteRequest::Unneeded);
    assert!(handled.lights.is_empty());
    assert_eq!(state(&daemon), StateKind::Approval);
    daemon.handle_message(&other, Admission::Admitted, 13, START);
    assert_eq!(state(&daemon), StateKind::Working);

    follow(&mut daemon, "task");
    daemon.handle_message(&unnamed("SessionEnd"), Admission::Admitted, 14, START);
    assert_eq!(daemon.journals.source_count(), 0);
}

#[test]
fn another_problem_is_news() {
    let problem = |text: &str| Some(text.to_owned());
    assert!(!error_changed(&None, &None));
    assert!(!error_changed(&problem("a"), &problem("a")));
    assert!(error_changed(&problem("a"), &problem("b")));
    assert!(error_changed(&None, &problem("a")) && error_changed(&problem("a"), &None));
}

#[test]
fn a_wait_for_the_status_ends() {
    let wait = StatusWait { started: START, written: Some(3) };
    assert!(!wait.is_over(after_ms(499), Some(3)));
    assert!(wait.is_over(after_ms(500), Some(3)));
    assert!(wait.is_over(START, Some(4)) && wait.is_over(START, None));
}

#[test]
fn pruning_keeps_states_times_and_order() {
    let config = AppConfig::default();
    let mut engine = Engine::new(2);
    for (at, session) in ["a", "b", "c", "d", "e", "f"].into_iter().enumerate() {
        engine.transition(session, StateKind::Done, at as u64, &config);
    }
    let admitted = ["b", "d", "e", "f"].map(str::to_owned).to_vec();
    prune_unadmitted_sessions(&mut engine, &StringSet::from_vec(admitted), &config);
    assert_eq!(engine.session_for_g_key(1), Some("d"));
    assert_eq!(engine.session_for_g_key(2), Some("b"));
    let waiting = engine.queued_snapshot();
    let waiting: Vec<_> =
        waiting.iter().map(|task| (task.session_id.as_str(), task.state, task.updated_at)).collect();
    assert_eq!(waiting, [("e", StateKind::Done, 4), ("f", StateKind::Done, 5)]);
}

#[test]
fn a_configuration_is_taken_over_once() {
    let mut daemon = daemon();
    assert!(!daemon.config_changed(Some(7)));
    assert!(daemon.config_changed(Some(8)) && daemon.config_changed(None));
    daemon.finish_config_check(Some(8));
    assert!(!daemon.config_changed(Some(8)) && daemon.config_changed(Some(7)));
    daemon.finish_reload(Some("broken"), Some(9));
    assert!(daemon.config_changed(Some(9)));
    daemon.finish_reload(None, None);
    assert!(!daemon.config_changed(None) && daemon.config_changed(Some(9)));
}

#[test]
fn a_keyboard_that_was_found_gets_its_background_and_then_the_tasks() {
    let mut daemon = daemon();
    daemon.engine.transition("task", StateKind::Working, 1, &daemon.config);
    let keyboard = keyboard();
    let packets = connection_packets(&keyboard, &daemon.config, &daemon.engine);
    assert_eq!(packets.background, keyboard.set_background(daemon.config.lighting.background));
    assert_eq!(packets.background.len(), 2);
    let light = (daemon.config.device.slot_keys[0], daemon.config.colors.working);
    assert_eq!(packets.lights, keyboard.set_keys(&[light]));
    assert_eq!(packets.lights.len(), 2);
    assert_eq!(
        daemon.refreshed_lights(),
        [LightingChange { key: light.0, color: light.1 }]
    );
    daemon.engine.clear_all(&daemon.config);
    assert!(connection_packets(&keyboard, &daemon.config, &daemon.engine).lights.is_empty());
}

#[test]
fn messages_set_and_clear_tasks() {
    let mut daemon = daemon();
    let set = |session: &str, state: StateKind| EventMessage::SetState {
        session_id: session.to_owned(),
        state,
    };
    let handled = daemon.handle_message(&set("a", StateKind::Done), Admission::Refused, 1, START);
    assert_eq!(handled.request, StatusWriteRequest::Immediate);
    daemon.handle_message(&set("b", StateKind::Done), Admission::Refused, 2, START);
    follow(&mut daemon, "b");
    let clear = EventMessage::Clear { session_id: Some("a".to_owned()) };
    let handled = daemon.handle_message(&clear, Admission::Refused, 3, START);
    assert_eq!(handled.request, StatusWriteRequest::Immediate);
    assert_eq!(daemon.engine.tracked_session_ids(), ["b"]);
    let handled = daemon.handle_message(&clear, Admission::Refused, 4, START);
    assert_eq!(handled.request, StatusWriteRequest::Unneeded);
    assert!(handled.lights.is_empty());
    let clear_all = EventMessage::Clear { session_id: None };
    let handled = daemon.handle_message(&clear_all, Admission::Refused, 5, START);
    assert_eq!(handled.lights.len(), 5);
    assert!(!daemon.engine.has_active_slots());
    assert_eq!(daemon.journals.source_count(), 0);
    assert!(daemon.handle_message(&EventMessage::Reload, Admission::Refused, 6, START).reload);
    let handled = daemon.handle_message(&EventMessage::Snapshot, Admission::Refused, 7, START);
    assert_eq!(handled.request, StatusWriteRequest::Immediate);
    assert!(!handled.reload);
}

#[test]
fn only_another_keyboard_or_other_keys_drop_the_tasks() {
    let mut daemon = daemon();
    daemon.engine.transition("task", StateKind::Working, 1, &daemon.config);
    daemon.hardware.keyboard = Some(keyboard());

    let mut broken = AppConfig::default();
    broken.behavior.max_sessions = 9;
    assert_eq!(
        daemon.reload_config(broken, Some(0), after_ms(1)),
        Err(ReloadError::Invalid(ConfigError::SessionCount))
    );
    assert_eq!(daemon.config.behavior.max_sessions, 5);

    let mut recolored = AppConfig::default();
    recolored.colors.working = recolored.colors.error;
    assert!(!changes_shape(&daemon.config, &recolored));
    assert_eq!(daemon.reload_config(recolored, Some(0), after_ms(2)), Ok(()));
    assert_eq!(daemon.engine.tracked_session_ids(), ["task"]);
    assert!(daemon.hardware.keyboard.is_some());
    assert_eq!(daemon.lighting_mode.mode(), LightingMode::Night);
    assert_eq!(daemon.flash.last_toggle, after_ms(2));

    let mut smaller = AppConfig::default();
    smaller.behavior.max_sessions = 2;
    smaller.device.slot_keys.truncate(2);
    assert!(changes_shape(&daemon.config, &smaller));
    assert_eq!(daemon.reload_config(smaller, None, after_ms(3)), Err(ReloadError::NoClock));
    assert!(!daemon.engine.has_active_slots());
    assert!(daemon.hardware.keyboard.is_none());
    assert_eq!(daemon.hardware.next_retry, after_ms(3));
    assert_eq!(daemon.config.behavior.max_sessions, 2);
    assert_eq!(daemon.flash.last_toggle, after_ms(2));

    daemon.finish_reload(Some("no such file"), None);
    assert_eq!(
        daemon.hardware.last_error.as_deref(),
        Some("configuration reload failed: no such file")
    );
    daemon.hardware.last_error = None;
    daemon.finish_reload(None, Some(7));
    assert_eq!(daemon.hardware.last_error, None);
    assert!(!daemon.config_check_due(after_ms(4_999)));
    assert!(daemon.config_check_due(after_ms(5_000)));
    assert!(!daemon.config_check_due(after_ms(5_001)));
    daemon.persistence.note(START, StatusWriteRequest::Deferred);
    daemon.finish_config_check(Some(8));
    assert_eq!(daemon.persistence.deadline, None);
}

#[test]
fn a_press_acknowledges_only_after_the_task_was_opened() {
    let mut daemon = daemon();
    daemon.engine.transition("done", StateKind::Done, 1, &daemon.config);
    daemon.engine.transition("working", StateKind::Working, 2, &daemon.config);

    assert!(daemon.finish_press(1, Some("no app"), START).is_empty());
    assert_eq!(
        daemon.hardware.last_navigation_error.as_deref(),
        Some("failed to open G1 task: no app")
    );
    assert_eq!(daemon.engine.session_for_g_key(1), Some("done"));
    assert_eq!(daemon.finish_press(1, None, START).len(), 5);
    assert_eq!(daemon.hardware.last_navigation_error, None);
    assert_eq!(daemon.engine.session_for_g_key(1), None);
    assert!(daemon.finish_press(2, None, START).is_empty());
    assert_eq!(daemon.engine.session_for_g_key(2), Some("working"));
    follow(&mut daemon, "gone");
    daemon.persistence.note(START, StatusWriteRequest::Deferred);
    assert!(!daemon.finish_presses(0));
    assert_eq!(daemon.journals.source_count(), 1);
    assert!(daemon.persistence.deadline.is_some());
    assert!(daemon.finish_presses(1));
    assert_eq!(daemon.journals.source_count(), 0);
    assert_eq!(daemon.persistence.deadline, None);
}

#[test]
fn journals_correct_and_remove_tasks() {
    let mut daemon = daemon();
    daemon.engine.transition("a", StateKind::Working, 100, &daemon.config);
    daemon.engine.transition("b", StateKind::Working, 100, &daemon.config);
    let told = |state: StateKind| SessionJournalTransition {
        session_id: "a".to_owned(),
        state,
        occurred_at: 50,
    };
    let quiet = JournalPoll {
        transitions: Vec::new(),
        removed_sessions: Vec::new(),
        warning: None,
    };
    let outcome = daemon.apply_journal_poll(&quiet, START);
    assert_eq!(outcome.request, StatusWriteRequest::Unneeded);
    let same = JournalPoll {
        transitions: vec![told(StateKind::Working)],
        removed_sessions: Vec::new(),
        warning: None,
    };
    let outcome = daemon.apply_journal_poll(&same, START);
    assert_eq!(outcome.request, StatusWriteRequest::Deferred);
    assert!(outcome.lights.is_empty());
    let both = JournalPoll {
        transitions: vec![told(StateKind::Done)],
        removed_sessions: vec!["b".to_owned(), "unknown".to_owned()],
        warning: None,
    };
    let outcome = daemon.apply_journal_poll(&both, after_ms(1));
    assert_eq!(outcome.request, StatusWriteRequest::Immediate);
    assert_eq!(outcome.lights[0].color, daemon.config.colors.done);
    assert_eq!(outcome.lights[1].color, daemon.config.colors.working);
    assert_eq!(outcome.removed_lights[1].color, daemon.config.lighting.background);
    let snapshot = daemon.engine.snapshot(&daemon.config);
    assert_eq!(snapshot.len(), 1);
    assert_eq!((snapshot[0].state, snapshot[0].updated_at), (StateKind::Done, 100));
}

#[test]
fn a_start_keeps_admitted_tasks_and_takes_in_their_journals() {
    let mut daemon = daemon();
    for id in ["a", "b", "c"] {
        daemon.engine.transition(id, StateKind::Working, 1, &daemon.config);
    }
    daemon.restore_sessions(
        &StringSet::from_vec(vec!["a".to_owned(), "c".to_owned()]),
        &vec![SessionJournalTransition {
            session_id: "c".to_owned(),
            state: StateKind::Requested,
            occurred_at: 5,
        }],
    );
    assert_eq!(daemon.engine.tracked_session_ids(), ["a", "c"]);
    assert_eq!(daemon.engine.snapshot(&daemon.config)[1].state, StateKind::Requested);
}

#[test]
fn the_wait_is_as_short_as_anything_needs_it() {
    let mut daemon = daemon();
    assert_eq!(daemon.wait_interval(START), Duration::from_millis(250));
    daemon.persistence.note(START, StatusWriteRequest::Deferred);
    assert_eq!(daemon.wait_interval(after_ms(200)), Duration::from_millis(50));
    let mut keyboard = keyboard();
    keyboard.navigation_written(true);
    daemon.hardware.keyboard = Some(keyboard);
    assert_eq!(daemon.wait_interval(after_ms(200)), Duration::from_millis(25));
    assert_eq!(daemon.wait_interval(after_ms(249)), Duration::from_millis(1));
}

#[test]
fn lights_follow_the_clock() {
    let mut daemon = daemon();
    daemon.engine.transition("task", StateKind::Working, 1, &daemon.config);
    assert!(daemon.flash_frame_if_due(after_ms(499)).is_none());
    assert_eq!(daemon.flash_frame_if_due(after_ms(500)).unwrap().len(), 1);
    assert!(!daemon.update_mode_if_due(after_ms(999), Some(1_100)));
    assert!(daemon.update_mode_if_due(after_ms(1_000), Some(1_100)));
    assert!(daemon.flash.bright);
    assert!(daemon.flash_frame_if_due(after_ms(9_000)).is_none());
    assert!(!daemon.update_mode_if_due(after_ms(2_000), Some(1_101)));
    assert!(!daemon.reassert_due(after_ms(4_999)));
    assert!(daemon.reassert_due(after_ms(5_000)));
    assert!(!daemon.reassert_due(after_ms(5_001)));
}

#[test]
fn the_keyboard_is_looked_for_written_to_and_given_up() {
    let config = AppConfig::default();
    let mut engine = Engine::new(5);
    engine.transition("task", StateKind::Working, 1, &config);
    let mut hardware = Hardware::new(START);
    let lights = engine.repaint(&config);
    assert!(matches!(hardware.apply(&Vec::new(), START), HardwareAction::Nothing));
    assert!(matches!(hardware.apply(&lights, START), HardwareAction::Connect));
    assert!(hardware.retry_due(START));

    let report = hardware.connect(ConnectOutcome::Failed("not found".to_owned()), &config, 1, START);
    assert!(matches!(report, ConnectReport::Failed(text) if text == "not found"));
    assert!(!hardware.retry_due(after_ms(4_999)));
    assert!(matches!(hardware.apply(&lights, after_ms(4_999)), HardwareAction::Nothing));
    assert!(hardware.retry_due(after_ms(5_000)));
    let report =
        hardware.connect(ConnectOutcome::Failed("not found".to_owned()), &config, 2, after_ms(5_000));
    assert!(matches!(report, ConnectReport::Quiet));
    let report = hardware.connect(
        ConnectOutcome::BackgroundFailed("x".to_owned()),
        &config,
        3,
        after_ms(10_000),
    );
    assert!(
        matches!(report, ConnectReport::Failed(text) if text == "G915 initialization failed: x")
    );
    let report = hardware.connect(
        ConnectOutcome::LightsFailed("y".to_owned()),
        &config,
        4,
        after_ms(15_000),
    );
    assert!(matches!(report, ConnectReport::Failed(text)
        if text == "G915 task-light initialization failed: y"));
    let report = hardware.connect(
        ConnectOutcome::Ready { keyboard: keyboard(), navigation: Ok(false) },
        &config,
        5,
        after_ms(20_000),
    );
    assert!(matches!(report, ConnectReport::Recovered(text)
        if text == "G915 task-light initialization failed: y"));
    assert_eq!(
        hardware.last_navigation_error.as_deref(),
        Some("G915 does not expose HID++ G-key notifications")
    );
    assert_eq!((hardware.failure_count, hardware.connection_count), (4, 1));

    let HardwareAction::Write(packets) = hardware.apply(&lights, START) else {
        panic!("the keyboard is there");
    };
    assert_eq!(packets.len(), 3);
    assert_eq!(hardware.applied(Ok(()), 6, START), None);
    let HardwareAction::Write(packets) = hardware.reassert_direct_lighting(&config, &engine, START)
    else {
        panic!("the keyboard is there");
    };
    assert_eq!(packets.len(), 4 + 2 + 2 + 1);
    assert_eq!(hardware.lighting_reasserted(Ok(()), Duration::from_millis(3), 7, START), None);
    assert_eq!(hardware.last_lighting_reassert_duration_ms, Some(3));
    let HardwareAction::Write(packets) = hardware.refresh(&config, START) else {
        panic!("the keyboard is there");
    };
    assert_eq!(packets.len(), 2);
    assert!(matches!(hardware.background_refreshed(Ok(()), 8, START), RefreshStep::Continue));
    hardware.navigation_refreshed(&Err("late".to_owned()), &config);
    assert_eq!(
        hardware.last_navigation_error.as_deref(),
        Some("G-key navigation refresh failed: late")
    );
    assert!(matches!(hardware.reset_background(&config), HardwareAction::Write(_)));
    let (pressed, report) = hardware.poll_g_key_presses(Ok(Vec::new()), 9, START);
    assert!(pressed.is_empty() && report.is_none());
    assert!(!hardware.navigation_active());
    let (pressed, report) = hardware.poll_g_key_presses(Err("gone".to_owned()), 9, START);
    assert!(pressed.is_empty());
    assert_eq!(report.as_deref(), Some("G915 input read failed: gone"));
    assert!(hardware.keyboard.is_none());
    assert!(matches!(hardware.reset_background(&config), HardwareAction::Nothing));
}

#[test]
fn every_failed_attempt_has_its_words() {
    let mut hardware = Hardware::new(START);
    for (attempt, text) in [
        (Attempt::Search, "e"),
        (Attempt::FirstBackground, "G915 initialization failed: e"),
        (Attempt::FirstLights, "G915 task-light initialization failed: e"),
        (Attempt::Lights, "G915 lighting write failed: e"),
        (Attempt::Watchdog, "G915 direct-lighting watchdog failed: e"),
        (Attempt::Background, "G915 background refresh failed: e"),
        (Attempt::BackgroundReset, "failed to reset keyboard background: e"),
        (Attempt::Input, "G915 input read failed: e"),
    ] {
        assert_eq!(hardware.schedule_retry(attempt, "e", 1, START).as_deref(), Some(text));
        assert_eq!(hardware.schedule_retry(attempt, "e", 2, START), None);
        assert_eq!(hardware.last_error.as_deref(), Some(text));
    }
    assert_eq!(hardware.applied(Err("f".to_owned()), 3, START).as_deref(),
        Some("G915 lighting write failed: f"));
    assert_eq!(
        hardware.lighting_reasserted(Err("f".to_owned()), Duration::from_millis(1), 3, START).as_deref(),
        Some("G915 direct-lighting watchdog failed: f")
    );
    let RefreshStep::Stop(report) = hardware.background_refreshed(Err("f".to_owned()), 3, START)
    else {
        panic!("the keyboard has failed");
    };
    assert_eq!(report.as_deref(), Some("G915 background refresh failed: f"));
    hardware.disconnect(after_ms(7));
    assert_eq!(hardware.next_retry, after_ms(7));
}
