use codex_agent_indicator::config::AppConfig;
use codex_agent_indicator::state::{Engine, StateKind};
use codex_agent_indicator::wire::{EventMessage, HookInput, LifecycleTracker};

// Each line is the input of a hook and, behind the bar, the state that G1 shows after it.
const PARENT_COMPLETES: &[&str] = &[
    r#"{"session_id":"task-parent","turn_id":"turn-1","hook_event_name":"UserPromptSubmit","cwd":"/workspace"} | working"#,
    r#"{"session_id":"task-parent","turn_id":"turn-1","hook_event_name":"PreToolUse","tool_name":"exec"} | working"#,
    r#"{"session_id":"task-parent","turn_id":"turn-1","hook_event_name":"PostToolUse","tool_name":"exec"} | working"#,
    r#"{"session_id":"task-parent","turn_id":"turn-1","hook_event_name":"Stop","last_assistant_message":"All done."} | done"#,
];
const APPROVAL_REQUEST: &[&str] = &[
    r#"{"session_id":"task-approval","turn_id":"turn-1","hook_event_name":"UserPromptSubmit"} | working"#,
    r#"{"session_id":"task-approval","turn_id":"turn-1","hook_event_name":"PermissionRequest","tool_name":"exec"} | approval"#,
    r#"{"session_id":"task-approval","turn_id":"turn-1","hook_event_name":"PostToolUse","tool_name":"exec"} | working"#,
    r#"{"session_id":"task-approval","turn_id":"turn-1","hook_event_name":"Stop","last_assistant_message":"Finished."} | done"#,
];
const INPUT_REQUEST: &[&str] = &[
    r#"{"session_id":"task-input","turn_id":"turn-1","hook_event_name":"UserPromptSubmit"} | working"#,
    r#"{"session_id":"task-input","turn_id":"turn-1","hook_event_name":"PreToolUse","tool_name":"functions.request_user_input"} | requested"#,
    r#"{"session_id":"task-input","turn_id":"turn-1","hook_event_name":"PostToolUse","tool_name":"functions.request_user_input"} | working"#,
    r#"{"session_id":"task-input","turn_id":"turn-1","hook_event_name":"Stop","last_assistant_message":"Which option should I use?"} | requested"#,
];
const PARALLEL_SUBAGENTS: &[&str] = &[
    r#"{"session_id":"task-parallel","turn_id":"root","hook_event_name":"UserPromptSubmit"} | working"#,
    r#"{"session_id":"task-parallel","turn_id":"a-1","hook_event_name":"SubagentStart","agent_id":"agent-a","agent_type":"worker"} | working"#,
    r#"{"session_id":"task-parallel","turn_id":"b-1","hook_event_name":"SubagentStart","agent_id":"agent-b","agent_type":"worker"} | working"#,
    r#"{"session_id":"task-parallel","turn_id":"a-2","hook_event_name":"PermissionRequest","agent_id":"agent-a","agent_type":"worker"} | approval"#,
    r#"{"session_id":"task-parallel","turn_id":"b-2","hook_event_name":"SubagentStop","agent_id":"agent-b","agent_type":"worker"} | approval"#,
    r#"{"session_id":"task-parallel","turn_id":"a-3","hook_event_name":"PostToolUse","agent_id":"agent-a","agent_type":"worker"} | working"#,
    r#"{"session_id":"task-parallel","turn_id":"a-4","hook_event_name":"SubagentStop","agent_id":"agent-a","agent_type":"worker"} | working"#,
    r#"{"session_id":"task-parallel","turn_id":"root","hook_event_name":"Stop","last_assistant_message":"Merged."} | done"#,
];
const INTERRUPTED_WITHOUT_STOP: &[&str] = &[
    r#"{"session_id":"task-interrupted","turn_id":"turn-1","hook_event_name":"UserPromptSubmit"} | working"#,
    r#"{"session_id":"task-interrupted","turn_id":"turn-1","hook_event_name":"PreToolUse","tool_name":"exec"} | working"#,
];
const REPLAYS: &[&[&str]] = &[
    PARENT_COMPLETES,
    APPROVAL_REQUEST,
    INPUT_REQUEST,
    PARALLEL_SUBAGENTS,
    INTERRUPTED_WITHOUT_STOP,
];

fn step(line: &str) -> (HookInput, StateKind) {
    let (input, state) = line.rsplit_once(" | ").unwrap();
    let value: serde_json::Value = serde_json::from_str(input).unwrap();
    let field = |name: &str| value[name].as_str().map(str::to_owned);
    let hook = HookInput {
        session_id: field("session_id").unwrap(),
        hook_event_name: field("hook_event_name").unwrap(),
        turn_id: field("turn_id"),
        agent_id: field("agent_id"),
        agent_type: field("agent_type"),
        tool_name: field("tool_name"),
        last_assistant_message: field("last_assistant_message"),
        tool_response: None,
        transcript_path: None,
    };
    (hook, state.parse().unwrap())
}

fn replay(lines: &[&str]) {
    let config = AppConfig::default();
    let mut lifecycle = LifecycleTracker::default();
    let mut engine = Engine::new(config.behavior.max_sessions);
    for (index, line) in lines.iter().enumerate() {
        let (hook, expected) = step(line);
        let message = hook.into_event();
        let EventMessage::Hook { session_id, .. } = &message else {
            panic!("a hook gives a hook event");
        };
        if let Some(state) = lifecycle.state_for_event(&message, &config) {
            engine.transition(session_id, state, (index + 1) as u64, &config);
        }
        let snapshot = engine.snapshot(&config);
        assert_eq!(snapshot.len(), 1, "event {}", index + 1);
        assert_eq!(snapshot[0].slot, 1);
        assert_eq!(snapshot[0].key, "G1");
        assert_eq!(&snapshot[0].session_id, session_id);
        assert_eq!(snapshot[0].state, expected, "event {}", index + 1);
    }
}

#[test]
fn replays_parent_task_from_hook_json_to_slot_snapshots() {
    replay(PARENT_COMPLETES);
}

#[test]
fn replays_approval_request_until_the_tool_resumes() {
    replay(APPROVAL_REQUEST);
}

#[test]
fn replays_user_input_request_and_final_question() {
    replay(INPUT_REQUEST);
}

#[test]
fn replays_parallel_subagents_without_losing_parent_or_approval_state() {
    replay(PARALLEL_SUBAGENTS);
}

#[test]
fn replays_interruption_without_inventing_a_terminal_hook() {
    assert!(
        INTERRUPTED_WITHOUT_STOP.iter().all(|line| step(line).0.hook_event_name != "Stop"),
        "interruption must preserve the observed absence of Stop"
    );
    replay(INTERRUPTED_WITHOUT_STOP);
}

#[test]
fn replay_fixtures_are_privacy_scrubbed() {
    let forbidden = ["/Users/", "/home/", "file://", "gho_", "github_pat_", "PRIVATE KEY"];
    for lines in REPLAYS {
        for line in *lines {
            for pattern in forbidden {
                assert!(!line.contains(pattern), "{line} contains {pattern:?}");
            }
        }
    }
}
