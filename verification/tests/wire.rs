use codex_agent_indicator::config::AppConfig;
use codex_agent_indicator::json::Json;
use codex_agent_indicator::state::StateKind;
use codex_agent_indicator::wire::{
    assistant_message_reports_failure, assistant_message_requests_input, message_tail,
    state_for_hook, tool_failed, EventMessage, HookInput, LifecycleTracker,
};

fn from_value(value: &serde_json::Value) -> Json {
    match value {
        serde_json::Value::Null => Json::Null,
        serde_json::Value::Bool(flag) => Json::Bool(*flag),
        serde_json::Value::Number(number) => Json::Number { as_i64: number.as_i64() },
        serde_json::Value::String(text) => Json::String(text.clone()),
        serde_json::Value::Array(items) => Json::Array(items.iter().map(from_value).collect()),
        serde_json::Value::Object(entries) => Json::Object(
            entries.iter().map(|(key, value)| (key.clone(), from_value(value))).collect(),
        ),
    }
}

fn json(text: &str) -> Json {
    let value: serde_json::Value = serde_json::from_str(text).unwrap();
    from_value(&value)
}

fn hook_input(text: &str) -> HookInput {
    let value: serde_json::Value = serde_json::from_str(text).unwrap();
    let field = |name: &str| value[name].as_str().map(str::to_owned);
    HookInput {
        session_id: field("session_id").unwrap(),
        hook_event_name: field("hook_event_name").unwrap(),
        turn_id: field("turn_id"),
        agent_id: field("agent_id"),
        agent_type: field("agent_type"),
        tool_name: field("tool_name"),
        last_assistant_message: field("last_assistant_message"),
        tool_response: value.get("tool_response").map(from_value),
        transcript_path: field("transcript_path"),
    }
}

fn hook(run_id: &str, event: &str, is_subagent: bool) -> EventMessage {
    EventMessage::Hook {
        session_id: "task".to_owned(),
        run_id: run_id.to_owned(),
        hook_event_name: event.to_owned(),
        is_subagent,
        tool_name: None,
        last_assistant_message: None,
        tool_failed: false,
        transcript_path: None,
    }
}

#[test]
fn recognizes_input_request_without_transcript_scraping() {
    assert!(assistant_message_requests_input(
        "I found two devices. Which one should I use?"
    ));
    assert!(assistant_message_requests_input(
        "The setup is ready.\n\nPlease confirm the final colour."
    ));
    assert!(!assistant_message_requests_input(
        "Installed and verified successfully."
    ));
}

#[test]
fn recognizes_clear_failure_language() {
    assert!(assistant_message_reports_failure(
        "I couldn't complete the hardware test because the keyboard is disconnected."
    ));
    assert!(!assistant_message_reports_failure(
        "Two expected failure-path tests passed."
    ));
}

#[test]
fn recognizes_structured_tool_failure() {
    assert!(tool_failed(&json(r#"{"exit_code": 1, "output": "bad"}"#)));
    assert!(tool_failed(&json(r#"{"content": [{"is_error": true}]}"#)));
    assert!(!tool_failed(&json(r#"{"exit_code": 0, "output": "ok"}"#)));
}

#[test]
fn maps_stop_to_requested_or_done() {
    let config = AppConfig::default();
    assert_eq!(
        state_for_hook("Stop", Some("Choose A or B?"), false, &config),
        Some(StateKind::Requested)
    );
    assert_eq!(
        state_for_hook("Stop", Some("All done."), false, &config),
        Some(StateKind::Done)
    );
}

#[test]
fn extracts_turn_and_subagent_identity_without_transcript_content() {
    let input = hook_input(
        r#"{
            "session_id": "task",
            "turn_id": "child-turn",
            "hook_event_name": "SubagentStart",
            "agent_id": "child",
            "agent_type": "worker",
            "tool_name": "exec"
        }"#,
    );

    assert!(matches!(
        input.into_event(),
        EventMessage::Hook {
            run_id,
            is_subagent: true,
            tool_name: Some(tool_name),
            ..
        } if run_id == "child" && tool_name == "exec"
    ));
}

#[test]
fn preserves_the_official_transcript_path_for_lifecycle_reconciliation() {
    let input = hook_input(
        r#"{
            "session_id": "task",
            "turn_id": "root-turn",
            "hook_event_name": "UserPromptSubmit",
            "transcript_path": "/tmp/privacy-scrubbed-task.jsonl"
        }"#,
    );

    assert!(matches!(
        input.into_event(),
        EventMessage::Hook {
            transcript_path: Some(path),
            ..
        } if path == "/tmp/privacy-scrubbed-task.jsonl"
    ));
}

#[test]
fn correlates_subagent_events_by_stable_agent_id_across_turn_ids() {
    let config = AppConfig::default();
    let mut tracker = LifecycleTracker::default();
    let event = |event: &str, turn_id: &str, tool_name: Option<&str>| {
        let input = HookInput {
            session_id: "parent-task".to_owned(),
            turn_id: Some(turn_id.to_owned()),
            hook_event_name: event.to_owned(),
            agent_id: Some("stable-child".to_owned()),
            agent_type: Some("worker".to_owned()),
            tool_name: tool_name.map(str::to_owned),
            last_assistant_message: None,
            tool_response: None,
            transcript_path: None,
        };
        input.into_event()
    };

    tracker.state_for_event(&hook("root-turn", "UserPromptSubmit", false), &config);
    tracker.state_for_event(
        &event("SubagentStart", "spawn-turn", None),
        &config,
    );
    assert_eq!(
        tracker.state_for_event(
            &event(
                "PreToolUse",
                "tool-turn",
                Some("functions.request_user_input"),
            ),
            &config,
        ),
        Some(StateKind::Requested)
    );
    assert_eq!(
        tracker.state_for_event(
            &event("SubagentStop", "completion-turn", None),
            &config,
        ),
        Some(StateKind::Working)
    );
}

#[test]
fn ordinary_tool_failure_does_not_claim_the_whole_task_stopped() {
    let config = AppConfig::default();
    let mut tracker = LifecycleTracker::default();
    let mut failure = hook("root-turn", "PostToolUse", false);
    if let EventMessage::Hook { tool_failed, .. } = &mut failure {
        *tool_failed = true;
    }

    assert_eq!(
        tracker.state_for_event(&failure, &config),
        Some(StateKind::Working)
    );
}

#[test]
fn unrelated_tool_failure_does_not_hide_an_approval_request() {
    let config = AppConfig::default();
    let mut tracker = LifecycleTracker::default();
    tracker.state_for_event(
        &hook("approval-turn", "PermissionRequest", false),
        &config,
    );
    let mut failure = hook("tool-turn", "PostToolUse", true);
    if let EventMessage::Hook { tool_failed, .. } = &mut failure {
        *tool_failed = true;
    }

    assert_eq!(
        tracker.state_for_event(&failure, &config),
        Some(StateKind::Approval)
    );
}

#[test]
fn subagent_completion_cannot_finish_a_working_parent() {
    let config = AppConfig::default();
    let mut tracker = LifecycleTracker::default();

    assert_eq!(
        tracker.state_for_event(&hook("root-turn", "UserPromptSubmit", false), &config),
        Some(StateKind::Working)
    );
    assert_eq!(
        tracker.state_for_event(&hook("child-turn", "SubagentStart", true), &config),
        Some(StateKind::Working)
    );
    assert_eq!(
        tracker.state_for_event(&hook("child-turn", "SubagentStop", true), &config),
        Some(StateKind::Working)
    );
    assert_eq!(
        tracker.state_for_event(&hook("root-turn", "Stop", false), &config),
        Some(StateKind::Done)
    );
}

#[test]
fn attention_state_outlives_unrelated_subagent_activity() {
    let config = AppConfig::default();
    let mut tracker = LifecycleTracker::default();

    tracker.state_for_event(&hook("root-turn", "UserPromptSubmit", false), &config);
    tracker.state_for_event(&hook("child-turn", "SubagentStart", true), &config);
    assert_eq!(
        tracker.state_for_event(&hook("root-turn", "PermissionRequest", false), &config),
        Some(StateKind::Approval)
    );
    assert_eq!(
        tracker.state_for_event(&hook("child-turn", "SubagentStop", true), &config),
        Some(StateKind::Approval)
    );
}

#[test]
fn request_user_input_is_detected_before_the_turn_stops() {
    let config = AppConfig::default();
    let mut tracker = LifecycleTracker::default();
    let mut request = hook("root-turn", "PreToolUse", false);
    if let EventMessage::Hook { tool_name, .. } = &mut request {
        *tool_name = Some("functions.request_user_input".to_owned());
    }

    assert_eq!(
        tracker.state_for_event(&request, &config),
        Some(StateKind::Requested)
    );
    assert_eq!(
        tracker.state_for_event(&hook("root-turn", "PostToolUse", false), &config),
        Some(StateKind::Working)
    );
}

#[test]
fn ignores_session_end_to_preserve_unacknowledged_state() {
    let config = AppConfig::default();
    assert_eq!(state_for_hook("SessionEnd", None, false, &config), None);
}

#[test]
fn failure_is_found_at_any_depth_and_in_any_form() {
    assert!(tool_failed(&json(r#"{"success": false}"#)));
    assert!(!tool_failed(&json(r#"{"success": true, "is_error": false}"#)));
    assert!(tool_failed(&json(r#"{"status": "FAILED"}"#)));
    assert!(tool_failed(&json(r#"{"status": "error"}"#)));
    assert!(tool_failed(&json(r#"{"status": "Failure"}"#)));
    assert!(!tool_failed(&json(r#"{"status": "failing"}"#)));
    assert!(tool_failed(&json(r#"[1, [2, {"a": {"exit_code": -1}}]]"#)));
    assert!(!tool_failed(&json(r#"{"exit_code": 1.5}"#)));
    assert!(!tool_failed(&json(r#"{"exit_code": "1"}"#)));
    assert!(!tool_failed(&json(r#""is_error""#)));
    assert!(!tool_failed(&json("null")));
}

#[test]
fn only_the_last_paragraph_asks() {
    assert!(!assistant_message_requests_input("Which one?\n\nI took the first."));
    assert!(assistant_message_requests_input("Done.\n\n\nLet me know which fits.  \n"));
    assert!(assistant_message_requests_input("  Is it?  "));
    assert!(!assistant_message_requests_input("   \n\n  "));
    assert!(!assistant_message_requests_input(""));
    for phrase in [
        "Please provide it",
        "please choose",
        "PLEASE CONFIRM",
        "so I need your input",
        "I need you to act",
        "waiting for your word",
        "let me know which",
        "tell me which",
    ] {
        assert!(assistant_message_requests_input(phrase), "{phrase}");
    }
}

#[test]
fn failure_phrases_count_in_any_case() {
    for phrase in [
        "I couldn't complete it",
        "I COULD NOT COMPLETE it",
        "I wasn't able to complete it",
        "I was unable to complete it",
        "The task is blocked",
        "Implementation failed",
        "The build failed and stopped",
    ] {
        assert!(assistant_message_reports_failure(phrase), "{phrase}");
    }
    assert!(!assistant_message_reports_failure(""));
}

#[test]
fn stop_prefers_failure_to_question() {
    let mut config = AppConfig::default();
    let message = "The task is blocked. Shall I go on?";
    assert_eq!(
        state_for_hook("Stop", Some(message), false, &config),
        Some(StateKind::Error)
    );
    config.behavior.detect_questions = false;
    assert_eq!(
        state_for_hook("Stop", Some("Shall I go on?"), false, &config),
        Some(StateKind::Done)
    );
    assert_eq!(state_for_hook("Stop", None, true, &config), Some(StateKind::Done));
    assert_eq!(state_for_hook("Unheard", None, false, &config), None);
}

#[test]
fn long_message_keeps_its_end_and_whole_characters() {
    assert_eq!(message_tail("short"), "short");
    let exact = "x".repeat(2_048);
    assert_eq!(message_tail(&exact), exact);
    let long = format!("a{exact}");
    assert_eq!(message_tail(&long), exact);
    let wide = "\u{20ac}".repeat(1_000);
    let tail = message_tail(&wide);
    assert_eq!(tail.len(), 2_046);
    assert!(wide.ends_with(&tail));
}

#[test]
fn blank_identities_count_as_missing() {
    let input = hook_input(
        r#"{"session_id": " task ", "hook_event_name": "PreToolUse", "turn_id": "  ",
            "agent_id": "", "agent_type": " "}"#,
    );
    assert!(matches!(
        input.into_event(),
        EventMessage::Hook { run_id, is_subagent: false, .. } if run_id == " task "
    ));
    let input = hook_input(
        r#"{"session_id": "task", "hook_event_name": "Stop", "turn_id": " turn ",
            "agent_type": "worker", "tool_response": {"is_error": true}}"#,
    );
    assert!(matches!(
        input.into_event(),
        EventMessage::Hook { run_id, is_subagent: true, tool_failed: true, .. } if run_id == "turn"
    ));
}

#[test]
fn tasks_do_not_disturb_each_other() {
    let config = AppConfig::default();
    let mut tracker = LifecycleTracker::default();
    let other = EventMessage::Hook {
        session_id: "other".to_owned(),
        run_id: "run".to_owned(),
        hook_event_name: "PermissionRequest".to_owned(),
        is_subagent: false,
        tool_name: None,
        last_assistant_message: None,
        tool_failed: false,
        transcript_path: None,
    };
    assert_eq!(tracker.state_for_event(&other, &config), Some(StateKind::Approval));
    assert_eq!(
        tracker.state_for_event(&hook("run", "PostToolUse", false), &config),
        Some(StateKind::Working)
    );
    tracker.clear(Some("task"));
    assert_eq!(tracker.state_for_event(&hook("run", "SubagentStop", true), &config), None);
    let child_stop = EventMessage::Hook {
        session_id: "other".to_owned(),
        run_id: "child".to_owned(),
        hook_event_name: "Stop".to_owned(),
        is_subagent: true,
        tool_name: None,
        last_assistant_message: None,
        tool_failed: false,
        transcript_path: None,
    };
    assert_eq!(tracker.state_for_event(&child_stop, &config), Some(StateKind::Approval));
    tracker.clear(None);
    assert_eq!(tracker.state_for_event(&child_stop, &config), None);
}

#[test]
fn without_priorities_the_first_run_decides() {
    let mut config = AppConfig::default();
    config.events.permission_request = StateKind::Error;
    config.events.stop_question = StateKind::Done;
    let mut tracker = LifecycleTracker::default();
    let mut asking = hook("b-run", "PreToolUse", false);
    if let EventMessage::Hook { tool_name, .. } = &mut asking {
        *tool_name = Some("REQUEST_USER_INPUT".to_owned());
    }
    assert_eq!(tracker.state_for_event(&asking, &config), Some(StateKind::Done));
    assert_eq!(
        tracker.state_for_event(&hook("a-run", "PermissionRequest", false), &config),
        Some(StateKind::Error)
    );
    assert_eq!(
        tracker.state_for_event(&hook("c-run", "SubagentStart", true), &config),
        Some(StateKind::Error)
    );
}

#[test]
fn session_end_forgets_without_a_state() {
    let config = AppConfig::default();
    let mut tracker = LifecycleTracker::default();
    tracker.state_for_event(&hook("run", "PermissionRequest", false), &config);
    assert_eq!(tracker.state_for_event(&hook("run", "SessionEnd", false), &config), None);
    assert_eq!(
        tracker.state_for_event(&hook("other", "PostToolUse", false), &config),
        Some(StateKind::Working)
    );
    assert_eq!(tracker.state_for_event(&EventMessage::Snapshot, &config), None);
}

#[test]
fn a_prompt_starts_a_task_afresh() {
    let config = AppConfig::default();
    let mut tracker = LifecycleTracker::default();
    tracker.state_for_event(&hook("old", "PermissionRequest", false), &config);
    assert_eq!(
        tracker.state_for_event(&hook("new", "UserPromptSubmit", false), &config),
        Some(StateKind::Working)
    );
    assert_eq!(
        tracker.state_for_event(&hook("child", "SubagentStart", true), &config),
        Some(StateKind::Working)
    );
}

#[test]
fn what_stands_around_the_last_paragraph_does_not_ask() {
    for (message, asks) in [
        ("Shall I?\n\nAll done.", false),
        ("All done.\n\nShall I?", true),
        ("All done.\n\n \n\n  Shall I?\n\n  \n", true),
        ("Please confirm.\n\n\nAll done.\n\n\n", false),
        ("\n\nPlease confirm.\nThanks.", true),
    ] {
        assert_eq!(assistant_message_requests_input(message), asks, "{message:?}");
    }
}
