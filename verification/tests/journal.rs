use codex_agent_indicator::config::AppConfig;
use codex_agent_indicator::journal::{
    is_desktop_journal, is_lifecycle_candidate, is_top_level_codex_desktop_journal,
    recovery_offset, session_meta_line,
    JournalError, JournalMessageMetadata, JournalPayload, JournalReader, JournalRecord,
    JournalTransition, SessionMetaPayload, SessionMetaRecord,
};
use codex_agent_indicator::journal_tracker::{
    check_transcript, discover_transcripts, restore_step, validate_transcript_path, Finding,
    Inspection, JournalTracker, Observation, RegistrationStep, RestoreOutcome, RestoreStep,
    RestoreTarget, TranscriptError, TranscriptFile,
};
use codex_agent_indicator::json::Json;
use codex_agent_indicator::state::StateKind;
use codex_agent_indicator::time::{Duration, Instant};

const ROOT: &str = "/sessions";
const LIFECYCLE: &str = "{\"timestamp\":\"2026-07-28T00:00:00.000Z\",\"type\":\"event_msg\",\"payload\":{\"type\":\"task_started\",\"turn_id\":\"turn-previous\",\"started_at\":100}}\n\
{\"timestamp\":\"2026-07-28T00:00:10.000Z\",\"type\":\"event_msg\",\"payload\":{\"type\":\"task_complete\",\"turn_id\":\"turn-previous\",\"last_agent_message\":\"Done.\",\"started_at\":100,\"completed_at\":110}}\n\
{\"timestamp\":\"2026-07-28T00:00:20.000Z\",\"type\":\"event_msg\",\"payload\":{\"type\":\"task_started\",\"turn_id\":\"turn-current\",\"started_at\":120}}\n";
const APPROVAL_RESUME: &str = "{\"timestamp\":\"2026-07-28T00:00:00.000Z\",\"type\":\"response_item\",\"payload\":{\"type\":\"custom_tool_call\",\"call_id\":\"call-exec\",\"internal_chat_message_metadata_passthrough\":{\"turn_id\":\"turn-current\"}}}\n\
{\"timestamp\":\"2026-07-28T00:00:01.000Z\",\"type\":\"response_item\",\"payload\":{\"type\":\"custom_tool_call_output\",\"call_id\":\"call-exec\",\"internal_chat_message_metadata_passthrough\":{\"turn_id\":\"turn-current\"}}}\n\
{\"timestamp\":\"2026-07-28T00:00:02.000Z\",\"type\":\"response_item\",\"payload\":{\"type\":\"function_call\",\"call_id\":\"call-wait\",\"internal_chat_message_metadata_passthrough\":{\"turn_id\":\"turn-current\"}}}\n\
{\"timestamp\":\"2026-07-28T00:00:03.000Z\",\"type\":\"response_item\",\"payload\":{\"type\":\"function_call_output\",\"call_id\":\"call-wait\",\"internal_chat_message_metadata_passthrough\":{\"turn_id\":\"turn-current\"}}}\n";

fn parse_record(line: &[u8]) -> Option<JournalRecord> {
    let value: serde_json::Value = serde_json::from_slice(line).ok()?;
    let payload = value.get("payload")?;
    let text = |name: &str| payload[name].as_str().map(str::to_owned);
    Some(JournalRecord {
        record_type: value["type"].as_str()?.to_owned(),
        payload: JournalPayload {
            event_type: payload["type"].as_str()?.to_owned(),
            turn_id: text("turn_id"),
            call_id: text("call_id"),
            internal_chat_message_metadata_passthrough: JournalMessageMetadata {
                turn_id: payload["internal_chat_message_metadata_passthrough"]["turn_id"]
                    .as_str()
                    .map(str::to_owned),
            },
            started_at: payload["started_at"].as_u64(),
            completed_at: payload["completed_at"].as_u64(),
            last_agent_message: text("last_agent_message"),
        },
    })
}

fn records(lines: Vec<Vec<u8>>) -> Vec<JournalRecord> {
    lines.iter().map_while(|line| parse_record(line)).collect()
}

/// A journal that is kept in memory.
struct Journal {
    content: Vec<u8>,
    reader: JournalReader,
    latest: Option<JournalTransition>,
}

impl Journal {
    fn recover(content: &str, config: &AppConfig) -> Self {
        let content = content.as_bytes().to_vec();
        let length = content.len() as u64;
        let start = recovery_offset(length) as usize;
        let previous = if start == 0 { 0 } else { content[start - 1] };
        let tail = &content[start..];
        let lines = JournalReader::at_tail("journal", length, previous).candidate_lines(length, tail);
        let (reader, latest) =
            JournalReader::recover("journal", length, previous, 77, tail, &records(lines), config)
                .unwrap();
        Journal { content, reader, latest }
    }

    fn append(&mut self, content: &str) {
        self.content.extend_from_slice(content.as_bytes());
    }

    fn try_poll(&mut self, config: &AppConfig) -> Result<Option<JournalTransition>, JournalError> {
        let length = self.content.len() as u64;
        let start = self.reader.read_start(length).unwrap_or(length) as usize;
        let tail = &self.content[start..];
        let lines = self.reader.candidate_lines(length, tail);
        self.reader.poll(length, 77, tail, &records(lines), config)
    }

    fn poll(&mut self, config: &AppConfig) -> Option<JournalTransition> {
        self.try_poll(config).unwrap()
    }
}

#[test]
fn replay_uses_the_newest_native_turn_instead_of_an_older_completion() {
    let journal = Journal::recover(LIFECYCLE, &AppConfig::default());
    assert_eq!(journal.latest.unwrap().state, StateKind::Working);
}

#[test]
fn appended_native_completion_reconciles_a_missed_stop_hook_once() {
    let config = AppConfig::default();
    let mut journal = Journal::recover(LIFECYCLE, &config);
    journal.append(
        "{\"timestamp\":\"2026-07-28T00:00:30.000Z\",\
         \"type\":\"event_msg\",\"payload\":{\"type\":\"task_complete\",\
         \"turn_id\":\"turn-current\",\"last_agent_message\":\"All done.\",\
         \"started_at\":120,\"completed_at\":130,\"duration_ms\":10000,\
         \"time_to_first_token_ms\":100}}\n",
    );

    let transition = journal.poll(&config).unwrap();

    assert_eq!(transition.state, StateKind::Done);
    assert_eq!(transition.occurred_at, 130);
    assert!(journal.poll(&config).is_none());
}

#[test]
fn completed_tool_output_repairs_a_missed_approval_resume_on_startup() {
    let journal = Journal::recover(APPROVAL_RESUME, &AppConfig::default());
    assert_eq!(
        journal.latest,
        Some(JournalTransition { state: StateKind::Working, occurred_at: 77 })
    );
}

#[test]
fn appended_tool_output_repairs_a_missed_approval_resume_once() {
    let (pending_call, completed_calls) = APPROVAL_RESUME.split_once('\n').unwrap();
    let config = AppConfig::default();
    let mut journal = Journal::recover(&format!("{pending_call}\n"), &config);
    assert!(journal.latest.is_none());

    journal.append(completed_calls);
    let transition = journal.poll(&config).unwrap();

    assert_eq!(transition.state, StateKind::Working);
    assert!(journal.poll(&config).is_none());
}

#[test]
fn pending_tool_call_does_not_clear_a_real_approval() {
    let pending_call = APPROVAL_RESUME.lines().next().unwrap();
    let journal = Journal::recover(&format!("{pending_call}\n"), &AppConfig::default());
    assert!(journal.latest.is_none());
}

#[test]
fn one_completed_call_does_not_clear_another_pending_approval() {
    let lines = APPROVAL_RESUME.lines().collect::<Vec<_>>();
    let config = AppConfig::default();
    let mut journal = Journal::recover(&format!("{}\n{}\n", lines[0], lines[2]), &config);
    assert!(journal.latest.is_none());

    journal.append(&format!("{}\n", lines[1]));
    assert!(journal.poll(&config).is_none());

    journal.append(&format!("{}\n", lines[3]));
    assert_eq!(journal.poll(&config).unwrap().state, StateKind::Working);
}

#[test]
fn newer_pending_call_suppresses_an_older_resume_during_recovery() {
    let lines = APPROVAL_RESUME.lines().collect::<Vec<_>>();
    let journal = Journal::recover(
        &format!("{}\n{}\n{}\n", lines[0], lines[1], lines[2]),
        &AppConfig::default(),
    );
    assert!(journal.latest.is_none());
}

#[test]
fn incomplete_jsonl_record_waits_for_its_newline_before_reconciliation() {
    let config = AppConfig::default();
    let mut journal = Journal::recover(LIFECYCLE, &config);
    let completion = "{\"timestamp\":\"2026-07-28T00:00:30.000Z\",\
         \"type\":\"event_msg\",\"payload\":{\"type\":\"task_complete\",\
         \"turn_id\":\"turn-current\",\"last_agent_message\":\"All done.\",\
         \"started_at\":120,\"completed_at\":130}}\n";
    let split = completion.len() - 1;
    journal.append(&completion[..split]);

    assert!(journal.poll(&config).is_none());

    journal.append(&completion[split..]);
    assert_eq!(journal.poll(&config).unwrap().state, StateKind::Done);
}

#[test]
fn native_fixture_is_privacy_scrubbed() {
    for fixture in [LIFECYCLE, APPROVAL_RESUME] {
        for forbidden in ["/Users/", "/home/", "file://", "github_pat_", "PRIVATE KEY"] {
            assert!(!fixture.contains(forbidden));
        }
    }
}

#[test]
fn lifecycle_shaped_tool_output_is_not_mistaken_for_a_top_level_event() {
    let content = "{\"payload\":{\"output\":{\"payload\":{\"type\":\"task_complete\"},\
         \"type\":\"event_msg\"},\"type\":\"custom_tool_call_output\"},\
         \"timestamp\":\"2026-07-28T00:00:00.000Z\",\"type\":\"response_item\"}\n\
         {\"timestamp\":\"2026-07-28T00:00:00.000Z\",\"type\":\"response_item\",\
         \"payload\":{\"type\":\"custom_tool_call_output\",\"output\":{\"type\":\"event_msg\",\
         \"payload\":{\"type\":\"task_complete\"}}}}\n";
    let journal = Journal::recover(content, &AppConfig::default());
    assert!(journal.latest.is_none());
}

#[test]
fn startup_recovery_reads_only_a_bounded_recent_tail() {
    let mut content = LIFECYCLE.to_owned();
    content.push_str(
        "{\"timestamp\":\"2026-07-28T00:00:30.000Z\",\"type\":\"event_msg\",\
         \"payload\":{\"type\":\"task_complete\",\"turn_id\":\"turn-current\",\
         \"last_agent_message\":\"All done.\",\"started_at\":120,\
         \"completed_at\":130}}\n",
    );
    content.push_str(&format!(
        "{{\"timestamp\":\"2026-07-28T00:00:31.000Z\",\"type\":\"response_item\",\
         \"payload\":{{\"type\":\"function_call_output\",\"output\":\"{}\"}}}}\n",
        "x".repeat(8 * 1_024 * 1_024)
    ));
    let journal = Journal::recover(&content, &AppConfig::default());
    assert!(journal.latest.is_none());
}

#[test]
fn a_line_without_its_record_is_passed_over_once() {
    let config = AppConfig::default();
    let mut journal = Journal::recover("", &config);
    journal.append("{\"type\":\"event_msg\",\"payload\":{\"type\":\"task_started\"\n");
    assert_eq!(journal.try_poll(&config), Err(JournalError::InvalidRecord));
    assert_eq!(journal.try_poll(&config), Ok(None));
    journal.append(LIFECYCLE);
    assert_eq!(journal.poll(&config).unwrap().occurred_at, 120);
}

#[test]
fn a_shorter_journal_is_read_anew() {
    let config = AppConfig::default();
    let mut journal = Journal::recover(&format!("{LIFECYCLE}{APPROVAL_RESUME}"), &config);
    journal.content = LIFECYCLE.as_bytes().to_vec();
    assert_eq!(journal.poll(&config).unwrap().occurred_at, 120);
    assert_eq!(journal.reader.read_start(journal.content.len() as u64), None);
}

#[test]
fn growth_may_be_cut_anywhere() {
    let config = AppConfig::default();
    let whole = format!("{LIFECYCLE}{APPROVAL_RESUME}");
    let expected = Journal::recover(&whole, &config).latest;
    for cut in 0..whole.len() {
        let mut journal = Journal::recover(&whole[..cut], &config);
        let first = journal.latest;
        journal.append(&whole[cut..]);
        let second = journal.poll(&config);
        if cut == 0 || second.is_some() {
            assert_eq!(second, expected);
        } else {
            assert_eq!(first, expected);
        }
    }
}

#[test]
fn stale_turns_change_nothing() {
    let config = AppConfig::default();
    let mut journal = Journal::recover(LIFECYCLE, &config);
    journal.append(LIFECYCLE.lines().nth(1).unwrap());
    journal.append("\n");
    assert_eq!(journal.poll(&config), None);
    journal.append(&LIFECYCLE.lines().nth(1).unwrap().replace("turn-previous", "turn-current"));
    journal.append("\n");
    assert_eq!(journal.poll(&config).unwrap().occurred_at, 110);
    journal.append(LIFECYCLE.lines().nth(2).unwrap());
    journal.append("\n");
    assert_eq!(journal.poll(&config), None);
}

#[test]
fn only_lines_about_turns_and_tools_are_looked_at() {
    for line in LIFECYCLE.lines().chain(APPROVAL_RESUME.lines()) {
        assert!(is_lifecycle_candidate(line.as_bytes()), "{line}");
    }
    assert!(!is_lifecycle_candidate(b"{\"type\":\"event_msg\"}"));
    assert!(!is_lifecycle_candidate(
        b"{\"type\":\"event_msg\",\"payload\":{\"type\":\"function_call\"}}"
    ));
    assert!(!is_lifecycle_candidate(
        b"{\"type\":\"response_item\",\"payload\":{\"type\":\"message\"}}"
    ));
    let far = format!(
        "{{\"type\":\"event_msg\",\"payload\":{{\"x\":\"{}\",\"type\":\"task_started\"}}}}",
        "y".repeat(300)
    );
    assert!(!is_lifecycle_candidate(far.as_bytes()));
}

#[test]
fn the_first_line_is_bounded() {
    assert_eq!(session_meta_line(b""), Ok(None));
    assert_eq!(session_meta_line(b"{}\nrest"), Ok(Some(3)));
    assert_eq!(session_meta_line(b"{}"), Err(JournalError::SessionMetaTooLong));
    let mut long = vec![b' '; 262_144];
    long.push(b'\n');
    assert_eq!(session_meta_line(&long), Err(JournalError::SessionMetaTooLong));
    assert_eq!(session_meta_line(&long[1..]), Ok(Some(262_144)));
}

fn meta(session_id: &str, source: Json, originator: &str) -> SessionMetaRecord {
    SessionMetaRecord {
        record_type: "session_meta".to_owned(),
        payload: SessionMetaPayload {
            id: session_id.to_owned(),
            source,
            originator: originator.to_owned(),
        },
    }
}

fn vscode() -> Json {
    Json::String("vscode".to_owned())
}

fn tracker() -> JournalTracker {
    JournalTracker::new(ROOT.to_owned(), Instant { nanos: 0 })
}

fn journal_path(session_id: &str) -> String {
    format!("{ROOT}/rollout-scrubbed-{session_id}.jsonl")
}

fn register(
    tracker: &mut JournalTracker,
    session_id: &str,
    record: &SessionMetaRecord,
) -> Result<bool, TranscriptError> {
    let path = journal_path(session_id);
    let top_level = is_top_level_codex_desktop_journal(record, session_id);
    tracker.register_live(session_id, ROOT, &path, top_level, LIFECYCLE.len() as u64)
}

fn recovered(session_id: &str, config: &AppConfig) -> RestoreTarget {
    let journal = Journal::recover(LIFECYCLE, config);
    RestoreTarget {
        session_id: session_id.to_owned(),
        outcome: RestoreOutcome::Recovered { reader: journal.reader, latest: journal.latest },
    }
}

fn file(name: &str, modified: i128) -> TranscriptFile {
    TranscriptFile {
        name: name.to_owned(),
        path: format!("{ROOT}/{modified}/{name}"),
        modified,
    }
}

#[test]
fn restore_discovers_only_the_requested_working_session() {
    let config = AppConfig::default();
    let targets = vec!["session-a".to_owned()];
    let found = discover_transcripts(
        &targets,
        &vec![
            file("rollout-scrubbed-session-a.jsonl", 1),
            file("rollout-scrubbed-untracked-session.jsonl", 2),
        ],
    );
    assert_eq!(found.len(), 1);
    assert_eq!(
        found.get("session-a").map(String::as_str),
        Some("/sessions/1/rollout-scrubbed-session-a.jsonl")
    );
    let mut tracker = tracker();

    let restored = tracker.restore(vec![recovered("session-a", &config)]);

    assert_eq!(restored.transitions.len(), 1);
    assert_eq!(restored.transitions[0].session_id, "session-a");
    assert_eq!(restored.transitions[0].state, StateKind::Working);
    assert_eq!(restored.admitted_sessions.to_vec(), ["session-a"]);
    assert_eq!(tracker.source_count(), 1);
}

#[test]
fn the_newest_of_several_journals_is_taken() {
    let targets = vec!["a".to_owned(), "b-a".to_owned()];
    let found = discover_transcripts(
        &targets,
        &vec![
            file("x-a.jsonl", 5),
            file("y-a.jsonl", 9),
            file("z-a.jsonl", 9),
            file("w-b-a.jsonl", 7),
            file("a.jsonl", 99),
            file("x-a.json", 99),
        ],
    );
    assert_eq!(found.get("a").map(String::as_str), Some("/sessions/9/y-a.jsonl"));
    assert!(found.get("b-a").is_none());
}

#[test]
fn live_registration_admits_only_top_level_codex_desktop_journals() {
    let mut tracker = tracker();
    let app = meta("app-session", vscode(), "Codex Desktop");
    let cli = meta("cli-session", Json::String("cli".to_owned()), "codex-tui");
    let editor = meta("editor-session", vscode(), "Other Editor");
    let object = |key: &str, value: Json| Json::Object(vec![(key.to_owned(), value)]);
    let parent = Json::String("parent".to_owned());
    let subagent = meta(
        "subagent-session",
        object("subagent", object("thread_spawn", object("parent_thread_id", parent))),
        "Codex Desktop",
    );

    assert_eq!(register(&mut tracker, "app-session", &app), Ok(true));
    assert_eq!(register(&mut tracker, "cli-session", &cli), Ok(false));
    assert_eq!(register(&mut tracker, "editor-session", &editor), Ok(false));
    assert_eq!(register(&mut tracker, "subagent-session", &subagent), Ok(false));
    assert_eq!(tracker.source_count(), 1);
    assert_eq!(
        tracker.registration_step("app-session", ROOT, &journal_path("app-session")),
        RegistrationStep::Known
    );
    assert_eq!(
        tracker.registration_step("app-session", ROOT, &format!("/{}", journal_path("app-session"))),
        RegistrationStep::Known
    );
    assert_eq!(register(&mut tracker, "app-session", &cli), Ok(true));
    assert!(tracker.is_ignored("cli-session"));
    assert_eq!(
        tracker.registration_step("cli-session", ROOT, "/elsewhere"),
        RegistrationStep::Ignored
    );
    tracker.clear(Some("cli-session"));
    assert!(!tracker.is_ignored("cli-session"));
    assert!(tracker.is_ignored("editor-session"));
}

#[test]
fn polling_removes_a_session_moved_out_of_active_sessions() {
    let config = AppConfig::default();
    let mut tracker = tracker();
    let record = meta("archived-session", vscode(), "Codex Desktop");
    assert_eq!(register(&mut tracker, "archived-session", &record), Ok(true));

    let poll = tracker.poll_if_due(
        Instant { nanos: 1_000_000_000 },
        &vec![Observation {
            session_id: "archived-session".to_owned(),
            finding: Finding::Missing,
        }],
        &config,
    );

    assert!(poll.transitions.is_empty());
    assert_eq!(poll.removed_sessions, ["archived-session"]);
    assert_eq!(tracker.source_count(), 0);
}

#[test]
fn live_registration_fails_closed_without_matching_session_metadata() {
    let mut tracker = tracker();
    let missing = SessionMetaRecord {
        record_type: "event_msg".to_owned(),
        payload: SessionMetaPayload {
            id: String::new(),
            source: Json::Null,
            originator: String::new(),
        },
    };
    let mismatched = meta("different-session", vscode(), "Codex Desktop");

    assert_eq!(register(&mut tracker, "missing-meta", &missing), Ok(false));
    assert_eq!(register(&mut tracker, "expected-session", &mismatched), Ok(false));
    assert_eq!(tracker.source_count(), 0);
}

#[test]
fn startup_restore_reports_only_reopenable_codex_desktop_sessions() {
    let config = AppConfig::default();
    let mut tracker = tracker();

    let restored = tracker.restore(vec![
        recovered("app-session", &config),
        RestoreTarget { session_id: "cli-session".to_owned(), outcome: RestoreOutcome::Foreign },
        RestoreTarget { session_id: "missing-session".to_owned(), outcome: RestoreOutcome::Missing },
    ]);

    assert_eq!(restored.admitted_sessions.to_vec(), ["app-session"]);
    assert_eq!(restored.transitions.len(), 1);
    assert_eq!(restored.transitions[0].session_id, "app-session");
    assert_eq!(tracker.source_count(), 1);
    assert!(tracker.is_ignored("cli-session"));
}

#[test]
fn live_registration_rejects_a_journal_outside_the_codex_sessions_root() {
    let mut tracker = tracker();
    let path = "/outside/rollout-scrubbed-session-a.jsonl";
    let step = tracker.registration_step("session-a", ROOT, path);
    assert_eq!(step, RegistrationStep::Rejected(TranscriptError::OutsideSessions));
    assert_eq!(
        tracker.register_live("session-a", ROOT, path, true, 0),
        Err(TranscriptError::OutsideSessions)
    );
    assert_eq!(tracker.source_count(), 0);
    assert_eq!(tracker.register_after("session-a", path, step, true, 0), Err(TranscriptError::OutsideSessions));
    let step = tracker.step_after("session-a", path, Ok(()));
    assert_eq!(tracker.register_after("session-a", path, step, true, 0), Ok(true));
    assert_eq!(tracker.source_count(), 1);
}

#[test]
fn paths_are_judged_by_directory_and_name() {
    let good = "/sessions/2026/rollout-x-id.jsonl";
    assert_eq!(validate_transcript_path(ROOT, "id", good), Ok(()));
    assert_eq!(
        validate_transcript_path(ROOT, "other", good),
        Err(TranscriptError::OtherSession)
    );
    assert_eq!(
        validate_transcript_path("/sess", "id", good),
        Err(TranscriptError::OutsideSessions)
    );
    assert_eq!(
        validate_transcript_path(ROOT, "id", "/sessions/.."),
        Err(TranscriptError::OtherSession)
    );
    assert_eq!(validate_transcript_path("//sessions/./", "id", good), Ok(()));
    assert_eq!(validate_transcript_path("", "id", good), Ok(()));
    assert_eq!(
        validate_transcript_path("sessions", "id", good),
        Err(TranscriptError::OutsideSessions)
    );
    assert_eq!(
        validate_transcript_path("./x", "id", "x/a-id.jsonl"),
        Err(TranscriptError::OutsideSessions)
    );
    assert_eq!(validate_transcript_path(".", "id", "."), Err(TranscriptError::OtherSession));
    assert_eq!(validate_transcript_path("x", "id", "x/a-id.jsonl/."), Ok(()));
    assert_eq!(check_transcript(true, Some("-id.jsonl"), "id"), Ok(()));
    assert_eq!(check_transcript(true, Some("id.jsonl"), "id"), Err(TranscriptError::OtherSession));
    assert_eq!(check_transcript(false, Some("-id.jsonl"), "id"), Err(TranscriptError::OutsideSessions));
    assert_eq!(check_transcript(true, None, "id"), Err(TranscriptError::OtherSession));
}

#[test]
fn problems_are_joined_and_reported_once() {
    let mut tracker = tracker();
    let targets = || {
        vec![
            RestoreTarget {
                session_id: "a".to_owned(),
                outcome: RestoreOutcome::Unreadable { error: "no first line".to_owned() },
            },
            RestoreTarget {
                session_id: "b".to_owned(),
                outcome: RestoreOutcome::Unrecoverable { error: "no tail".to_owned() },
            },
        ]
    };
    let restored = tracker.restore(targets());
    assert_eq!(restored.warning.as_deref(), Some("no first line; no tail"));
    assert_eq!(restored.admitted_sessions.to_vec(), ["b"]);
    assert_eq!(tracker.last_error().as_deref(), Some("no first line; no tail"));
    assert_eq!(tracker.restore(targets()).warning, None);
    assert!(tracker.restore(Vec::new()).warning.is_none());
    assert!(tracker.last_error().is_some());
    assert!(tracker
        .restore(vec![RestoreTarget {
            session_id: "c".to_owned(),
            outcome: RestoreOutcome::Missing,
        }])
        .warning
        .is_none());
    assert_eq!(*tracker.last_error(), None);
    assert!(tracker.record_error("x".to_owned()));
    assert!(!tracker.record_error("x".to_owned()));
}

#[test]
fn journals_are_looked_at_in_turn_and_not_too_often() {
    let config = AppConfig::default();
    let mut tracker = tracker();
    for id in ["a", "b", "c", "d"] {
        let record = meta(id, vscode(), "Codex Desktop");
        assert_eq!(register(&mut tracker, id, &record), Ok(true));
    }
    assert_eq!(tracker.poll_interval(Instant { nanos: 0 }), Duration::from_millis(250));
    assert_eq!(tracker.poll_interval(Instant { nanos: 240_000_000 }), Duration::from_millis(10));
    assert_eq!(tracker.poll_interval(Instant { nanos: 250_000_000 }), Duration::from_millis(1));
    assert!(!tracker.is_due(Instant { nanos: 249_999_999 }));

    let start = LIFECYCLE.len() as u64;
    let completion = LIFECYCLE.lines().nth(1).unwrap().replace("turn-previous", "turn-z");
    let content = format!("{completion}\n").into_bytes();
    let reader = tracker.reader("a").unwrap();
    assert_eq!(reader.path(), journal_path("a"));
    let length = start + content.len() as u64;
    assert_eq!(reader.read_start(length), Some(start));
    let parsed = records(reader.candidate_lines(length, &content));
    assert_eq!(parsed.len(), 1);
    let seen = vec![
        Observation {
            session_id: "a".to_owned(),
            finding: Finding::Read {
                length,
                modified_at: 5,
                content: content.clone(),
                records: parsed,
                problem: String::new(),
            },
        },
        Observation {
            session_id: "b".to_owned(),
            finding: Finding::Unreadable { error: "denied".to_owned() },
        },
        Observation {
            session_id: "c".to_owned(),
            finding: Finding::Failed { error: "broken".to_owned() },
        },
        Observation {
            session_id: "d".to_owned(),
            finding: Finding::Read {
                length,
                modified_at: 5,
                content,
                records: Vec::new(),
                problem: "garbled".to_owned(),
            },
        },
        Observation { session_id: "stranger".to_owned(), finding: Finding::Missing },
    ];
    let early = tracker.poll_if_due(Instant { nanos: 249_999_999 }, &seen, &config);
    assert!(early.transitions.is_empty() && early.removed_sessions.is_empty());
    let poll = tracker.poll_if_due(Instant { nanos: 250_000_000 }, &seen, &config);
    assert_eq!(poll.transitions.len(), 1);
    assert_eq!(poll.transitions[0].session_id, "a");
    assert_eq!(poll.transitions[0].state, StateKind::Done);
    assert_eq!(poll.transitions[0].occurred_at, 110);
    assert!(poll.removed_sessions.is_empty());
    assert_eq!(
        poll.warning.unwrap(),
        "failed to inspect Codex lifecycle journal /sessions/rollout-scrubbed-b.jsonl: denied; \
         failed to reconcile Codex lifecycle journal /sessions/rollout-scrubbed-c.jsonl: broken; \
         failed to reconcile Codex lifecycle journal /sessions/rollout-scrubbed-d.jsonl: \
         invalid Codex lifecycle journal record: garbled"
    );
    assert!(!tracker.is_due(Instant { nanos: 499_999_999 }));
    assert!(tracker.is_due(Instant { nanos: 500_000_000 }));

    tracker.retain_sessions(&vec!["b".to_owned(), "stranger".to_owned()]);
    assert_eq!(tracker.sessions(), ["b"]);
    tracker.clear(None);
    assert_eq!(tracker.source_count(), 0);
    assert_eq!(tracker.sessions_root(), ROOT);
}

#[test]
fn a_bounded_number_of_foreign_tasks_is_remembered() {
    let mut tracker = tracker();
    for number in 0..257 {
        let id = format!("cli-{number}");
        let record = meta(&id, Json::Null, "codex-tui");
        assert_eq!(register(&mut tracker, &id, &record), Ok(false));
    }
    assert!(!tracker.is_ignored("cli-0"));
    assert!(tracker.is_ignored("cli-1"));
    assert!(tracker.is_ignored("cli-256"));
}

fn tool_record(event: &str, call_id: &str, turn_id: &str) -> JournalRecord {
    JournalRecord {
        record_type: "response_item".to_owned(),
        payload: JournalPayload {
            event_type: event.to_owned(),
            turn_id: None,
            call_id: Some(call_id.to_owned()),
            internal_chat_message_metadata_passthrough: JournalMessageMetadata {
                turn_id: Some(turn_id.to_owned()),
            },
            started_at: None,
            completed_at: None,
            last_agent_message: None,
        },
    }
}

fn turn_record(event: &str, turn_id: &str, at: u64) -> JournalRecord {
    let mut record = tool_record(event, "", "");
    record.record_type = "event_msg".to_owned();
    record.payload.turn_id = Some(turn_id.to_owned());
    record.payload.started_at = Some(at);
    record.payload.completed_at = Some(at);
    record
}

#[test]
fn a_finished_call_hides_no_other() {
    let config = AppConfig::default();
    let mut reader = JournalReader::follow("journal", 0);
    let resumed = Some(JournalTransition { state: StateKind::Working, occurred_at: 9 });
    for event in ["custom_tool_call", "function_call"] {
        assert_eq!(reader.observe(&tool_record(event, event, "turn"), &config, 9), None);
    }
    let mut end = |event: &str, call: &str, turn: &str| {
        reader.observe(&tool_record(event, call, turn), &config, 9)
    };
    assert_eq!(end("custom_tool_call_output", "custom_tool_call", "turn"), None);
    assert_eq!(end("function_call_output", "function_call", " "), None);
    assert_eq!(end("function_call_output", " ", "turn"), None);
    assert_eq!(end("function_call_output", "function_call", "turn"), resumed);

    reader.observe(&tool_record("function_call", "late", "turn"), &config, 9);
    reader.observe(&turn_record("task_started", "turn", 1), &config, 9);
    let other = tool_record("function_call_output", "other", "turn");
    assert_eq!(reader.observe(&other, &config, 9), resumed);
}

#[test]
fn a_stale_turn_leaves_the_current_one() {
    let config = AppConfig::default();
    let mut reader = JournalReader::follow("journal", 0);
    let told = |state: StateKind, occurred_at: u64| Some(JournalTransition { state, occurred_at });
    let mut observe = |event: &str, turn: &str, at: u64| {
        reader.observe(&turn_record(event, turn, at), &config, 9)
    };
    assert_eq!(observe("task_started", "a", 1), told(StateKind::Working, 1));
    assert_eq!(observe("task_complete", "b", 2), None);
    assert_eq!(observe("task_complete", "a", 3), told(StateKind::Done, 3));
    assert_eq!(observe("task_started", "a", 4), None);
    assert_eq!(observe("task_started", "b", 5), told(StateKind::Working, 5));
}

#[test]
fn a_journal_that_has_become_shorter_is_read_from_its_beginning() {
    let config = AppConfig::default();
    let mut reader = JournalReader::follow("journal", u64::MAX);
    let content = LIFECYCLE.as_bytes();
    let length = content.len() as u64;
    assert_eq!(reader.read_start(length), Some(0));
    let lines = reader.candidate_lines(length, content);
    assert_eq!(
        reader.poll(length, 77, content, &records(lines), &config),
        Ok(Some(JournalTransition { state: StateKind::Working, occurred_at: 120 }))
    );
    assert_eq!(reader.read_start(length), None);
}

#[test]
fn only_the_journal_of_a_desktop_task_is_recovered() {
    let step = |first: Option<SessionMetaRecord>| restore_step(Inspection::Seen { first }, "task");
    let ours = meta("task", vscode(), "Codex Desktop");
    assert!(is_desktop_journal(&Some(meta("task", vscode(), "Codex Desktop")), "task"));
    assert!(!is_desktop_journal(&None, "task"));
    assert!(matches!(step(Some(ours)), RestoreStep::Recover));
    for first in [None, Some(meta("other", vscode(), "Codex Desktop"))] {
        assert!(matches!(step(first), RestoreStep::Settled(RestoreOutcome::Foreign)));
    }
    let failed = Inspection::Unreadable { error: "broken".to_owned() };
    assert!(matches!(
        restore_step(failed, "task"),
        RestoreStep::Settled(RestoreOutcome::Unreadable { error }) if error == "broken"
    ));
}
