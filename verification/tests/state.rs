use codex_agent_indicator::config::{AppConfig, Color};
use codex_agent_indicator::state::{
    Engine, LightingChange, RestoredQueuedSession, RestoredSlot, StateKind,
};

#[test]
fn assigns_and_reuses_a_slot() {
    let config = AppConfig::default();
    let mut engine = Engine::new(5);
    let first = engine.transition("a", StateKind::Working, 10, &config);
    assert_eq!(first[0].key, 0xb4);

    assert!(
        engine
            .transition("a", StateKind::Working, 11, &config)
            .is_empty()
    );
    let changed = engine.transition("a", StateKind::Approval, 12, &config);
    assert_eq!(changed[0].key, 0xb4);
    assert_eq!(engine.snapshot(&config)[0].state, StateKind::Approval);
}

#[test]
fn sixth_working_task_does_not_remap_existing_g_keys() {
    let config = AppConfig::default();
    let mut engine = Engine::new(5);
    for index in 1..=5 {
        engine.transition(
            &format!("task-{index}"),
            StateKind::Working,
            index,
            &config,
        );
    }
    let before = engine
        .snapshot(&config)
        .into_iter()
        .map(|slot| (slot.key, slot.session_id))
        .collect::<Vec<_>>();

    let changes = engine.transition("task-6", StateKind::Working, 6, &config);

    let after = engine
        .snapshot(&config)
        .into_iter()
        .map(|slot| (slot.key, slot.session_id))
        .collect::<Vec<_>>();
    assert!(changes.is_empty());
    assert_eq!(after, before);
}

#[test]
fn oldest_waiting_task_is_promoted_when_a_g_key_becomes_free() {
    let config = AppConfig::default();
    let mut engine = Engine::new(5);
    for index in 1..=7 {
        engine.transition(
            &format!("task-{index}"),
            StateKind::Working,
            index,
            &config,
        );
    }

    let changes = engine.clear_session("task-3", &config);

    assert_eq!(
        changes,
        [LightingChange {
            key: config.device.slot_keys[2],
            color: config.color_for(StateKind::Working),
        }]
    );
    let snapshot = engine.snapshot(&config);
    assert_eq!(snapshot[2].session_id, "task-6");
    assert!(!snapshot.iter().any(|slot| slot.session_id == "task-7"));
}

#[test]
fn waiting_task_uses_its_latest_state_when_promoted() {
    let mut config = AppConfig::default();
    config.behavior.max_sessions = 1;
    config.device.slot_keys.truncate(1);
    let mut engine = Engine::new(1);
    engine.transition("visible", StateKind::Working, 10, &config);
    engine.transition("waiting", StateKind::Working, 20, &config);
    engine.transition("waiting", StateKind::Requested, 30, &config);

    let changes = engine.clear_session("visible", &config);

    assert_eq!(
        changes,
        [LightingChange {
            key: config.device.slot_keys[0],
            color: config.color_for(StateKind::Requested),
        }]
    );
    let promoted = &engine.snapshot(&config)[0];
    assert_eq!(promoted.session_id, "waiting");
    assert_eq!(promoted.state, StateKind::Requested);
    assert_eq!(promoted.updated_at, 30);
}

#[test]
fn removed_waiting_task_is_never_promoted() {
    let mut config = AppConfig::default();
    config.behavior.max_sessions = 1;
    config.device.slot_keys.truncate(1);
    let mut engine = Engine::new(1);
    engine.transition("visible", StateKind::Working, 10, &config);
    engine.transition("removed", StateKind::Working, 20, &config);
    engine.transition("next", StateKind::Working, 30, &config);

    assert!(engine.clear_session("removed", &config).is_empty());
    engine.clear_session("visible", &config);

    assert_eq!(engine.session_for_g_key(1), Some("next"));
    assert!(
        !engine
            .tracked_session_ids()
            .iter()
            .any(|session_id| session_id == "removed")
    );
}

#[test]
fn preserves_existing_working_and_terminal_slots_when_full() {
    let mut config = AppConfig::default();
    config.behavior.max_sessions = 2;
    config.device.slot_keys.truncate(2);
    let mut engine = Engine::new(2);
    engine.transition("working", StateKind::Working, 1, &config);
    engine.transition("done", StateKind::Done, 2, &config);
    engine.transition("new", StateKind::Working, 3, &config);

    let snapshot = engine.snapshot(&config);
    assert!(snapshot.iter().any(|slot| slot.session_id == "done"));
    assert!(snapshot.iter().any(|slot| slot.session_id == "working"));
    assert!(!snapshot.iter().any(|slot| slot.session_id == "new"));
}

#[test]
fn leaves_new_task_unassigned_when_every_slot_needs_acknowledgement() {
    let mut config = AppConfig::default();
    config.behavior.max_sessions = 2;
    config.device.slot_keys.truncate(2);
    let mut engine = Engine::new(2);
    engine.transition("done", StateKind::Done, 1, &config);
    engine.transition("error", StateKind::Error, 2, &config);

    assert!(
        engine
            .transition("new", StateKind::Working, 3, &config)
            .is_empty()
    );
    let snapshot = engine.snapshot(&config);
    assert!(snapshot.iter().any(|slot| slot.session_id == "done"));
    assert!(snapshot.iter().any(|slot| slot.session_id == "error"));
}

#[test]
fn keeps_terminal_state_until_user_acknowledges_it() {
    let config = AppConfig::default();
    let mut engine = Engine::new(5);
    engine.transition("a", StateKind::Done, 100, &config);
    let snapshot = engine.snapshot(&config);
    assert_eq!(snapshot[0].state, StateKind::Done);
    assert_eq!(snapshot[0].expires_at, None);
}

#[test]
fn acknowledging_a_finished_g_key_clears_its_indicator() {
    let config = AppConfig::default();
    let mut engine = Engine::new(5);
    engine.transition("finished-task", StateKind::Done, 100, &config);

    let changes = engine.acknowledge_g_key(1, &config);

    assert_eq!(changes[0].key, 0xb4);
    assert_eq!(changes[0].color, config.lighting.background);
    assert!(engine.snapshot(&config).is_empty());
}

#[test]
fn opening_a_working_g_key_keeps_its_live_indicator() {
    let config = AppConfig::default();
    let mut engine = Engine::new(5);
    engine.transition("working-task", StateKind::Working, 100, &config);

    assert!(engine.acknowledge_g_key(1, &config).is_empty());
    assert_eq!(engine.snapshot(&config)[0].state, StateKind::Working);
}

#[test]
fn builds_a_scaled_frame_for_active_g_keys_only() {
    let config = AppConfig::default();
    let mut engine = Engine::new(5);
    engine.transition("working", StateKind::Working, 10, &config);
    engine.transition("approval", StateKind::Approval, 11, &config);

    let frame = engine.active_lighting(5, &config);

    assert_eq!(frame.len(), 2);
    assert_eq!(frame[0].key, 0xb4);
    assert_eq!(
        frame[0].color,
        Color {
            red: 0,
            green: 6,
            blue: 12,
        }
    );
    assert_eq!(frame[1].key, 0xb5);
    assert_eq!(
        frame[1].color,
        Color {
            red: 12,
            green: 7,
            blue: 0,
        }
    );
}

#[test]
fn resolves_only_occupied_g_key_slots_to_sessions() {
    let config = AppConfig::default();
    let mut engine = Engine::new(5);
    engine.transition("task-one", StateKind::Working, 10, &config);
    engine.transition("task-two", StateKind::Approval, 11, &config);

    assert_eq!(engine.session_for_g_key(1), Some("task-one"));
    assert_eq!(engine.session_for_g_key(2), Some("task-two"));
    assert_eq!(engine.session_for_g_key(3), None);
    assert_eq!(engine.session_for_g_key(0), None);
    assert_eq!(engine.session_for_g_key(6), None);
}

#[test]
fn restores_persisted_slots_without_accepting_duplicates_or_invalid_entries() {
    let config = AppConfig::default();
    let engine = Engine::restore(
        5,
        vec![
            RestoredSlot {
                slot: 2,
                session_id: "working-task".to_owned(),
                state: StateKind::Working,
                updated_at: 20,
            },
            RestoredSlot {
                slot: 3,
                session_id: "working-task".to_owned(),
                state: StateKind::Done,
                updated_at: 21,
            },
            RestoredSlot {
                slot: 6,
                session_id: "out-of-range".to_owned(),
                state: StateKind::Error,
                updated_at: 22,
            },
            RestoredSlot {
                slot: 4,
                session_id: String::new(),
                state: StateKind::Approval,
                updated_at: 23,
            },
        ],
        Vec::new(),
    );

    let snapshot = engine.snapshot(&config);
    assert_eq!(snapshot.len(), 1);
    assert_eq!(snapshot[0].slot, 2);
    assert_eq!(snapshot[0].session_id, "working-task");
    assert_eq!(snapshot[0].state, StateKind::Working);
}

#[test]
fn restores_waiting_tasks_in_fifo_order() {
    let mut config = AppConfig::default();
    config.behavior.max_sessions = 1;
    config.device.slot_keys.truncate(1);
    let mut engine = Engine::restore(
        1,
        vec![RestoredSlot {
            slot: 1,
            session_id: "visible".to_owned(),
            state: StateKind::Working,
            updated_at: 10,
        }],
        vec![
            RestoredQueuedSession {
                session_id: "waiting-first".to_owned(),
                state: StateKind::Done,
                updated_at: 20,
            },
            RestoredQueuedSession {
                session_id: "waiting-second".to_owned(),
                state: StateKind::Requested,
                updated_at: 30,
            },
        ],
    );

    engine.clear_session("visible", &config);
    assert_eq!(
        engine.session_for_g_key(1),
        Some("waiting-first")
    );
    engine.acknowledge_g_key(1, &config);
    assert_eq!(
        engine.session_for_g_key(1),
        Some("waiting-second")
    );
}

#[test]
fn reconciliation_changes_truth_without_regressing_event_recency() {
    let config = AppConfig::default();
    let mut engine = Engine::new(5);
    engine.transition("task", StateKind::Working, 200, &config);

    engine.reconcile("task", StateKind::Done, 150, &config);

    let snapshot = engine.snapshot(&config);
    assert_eq!(snapshot[0].state, StateKind::Done);
    assert_eq!(snapshot[0].updated_at, 200);
}

#[test]
fn waiting_reconciliation_changes_truth_without_regressing_event_recency() {
    let mut config = AppConfig::default();
    config.behavior.max_sessions = 1;
    config.device.slot_keys.truncate(1);
    let mut engine = Engine::new(1);
    engine.transition("visible", StateKind::Working, 100, &config);
    engine.transition("waiting", StateKind::Working, 200, &config);

    engine.reconcile("waiting", StateKind::Done, 150, &config);
    engine.clear_session("visible", &config);

    let snapshot = engine.snapshot(&config);
    assert_eq!(snapshot[0].state, StateKind::Done);
    assert_eq!(snapshot[0].updated_at, 200);
}

#[test]
fn state_names_are_read_back() {
    for state in [
        StateKind::Idle,
        StateKind::Working,
        StateKind::Approval,
        StateKind::Requested,
        StateKind::Done,
        StateKind::Error,
    ] {
        assert_eq!(state.to_string().parse::<StateKind>(), Ok(state));
        assert_eq!(state.name(), state.to_string());
    }
    assert_eq!(StateKind::parse("  Waiting "), Ok(StateKind::Requested));
    assert_eq!(StateKind::parse("OFF"), Ok(StateKind::Idle));
    assert_eq!(StateKind::parse("purple").unwrap_err().value, "purple");
}

#[test]
fn idle_state_clears_the_task_and_promotes_the_next() {
    let mut config = AppConfig::default();
    config.behavior.max_sessions = 1;
    config.device.slot_keys.truncate(1);
    let mut engine = Engine::new(1);
    engine.transition("first", StateKind::Working, 1, &config);
    engine.transition("second", StateKind::Done, 2, &config);

    let changes = engine.transition("first", StateKind::Idle, 3, &config);

    assert_eq!(
        changes,
        [LightingChange { key: 0xb4, color: config.colors.done }]
    );
    assert_eq!(engine.session_for_g_key(1), Some("second"));
    assert!(engine.queued_snapshot().is_empty());
}

#[test]
fn clearing_everything_lights_only_used_keys_in_the_background() {
    let config = AppConfig::default();
    let mut engine = Engine::new(5);
    engine.transition("a", StateKind::Working, 1, &config);
    engine.transition("b", StateKind::Working, 2, &config);
    engine.transition("c", StateKind::Working, 3, &config);
    engine.clear_session("b", &config);
    assert!(engine.has_active_slots());

    let changes = engine.clear_all(&config);

    assert_eq!(
        changes,
        [
            LightingChange { key: 0xb4, color: config.lighting.background },
            LightingChange { key: 0xb6, color: config.lighting.background },
        ]
    );
    assert!(!engine.has_active_slots());
    assert!(engine.tracked_session_ids().is_empty());
    assert!(engine.clear_all(&config).is_empty());
}

#[test]
fn repaint_shows_every_slot() {
    let config = AppConfig::default();
    let mut engine = Engine::new(3);
    engine.transition("a", StateKind::Error, 1, &config);
    engine.transition("b", StateKind::Done, 2, &config);
    engine.clear_session("a", &config);

    assert_eq!(
        engine.repaint(&config),
        [
            LightingChange { key: 0xb4, color: config.lighting.background },
            LightingChange { key: 0xb5, color: config.colors.done },
            LightingChange { key: 0xb6, color: config.lighting.background },
        ]
    );
}

#[test]
fn saved_engine_comes_back_as_it_was() {
    let config = AppConfig::default();
    let mut engine = Engine::new(2);
    engine.transition("a", StateKind::Working, 1, &config);
    engine.transition("b", StateKind::Approval, 2, &config);
    engine.transition("c", StateKind::Requested, 3, &config);
    engine.transition("d", StateKind::Working, 4, &config);
    let slots: Vec<RestoredSlot> = engine
        .snapshot(&config)
        .into_iter()
        .map(|slot| RestoredSlot {
            slot: slot.slot,
            session_id: slot.session_id,
            state: slot.state,
            updated_at: slot.updated_at,
        })
        .collect();

    let restored = Engine::restore(2, slots, engine.queued_snapshot());

    assert_eq!(restored.tracked_session_ids(), ["a", "b", "c", "d"]);
    assert_eq!(restored.repaint(&config), engine.repaint(&config));
    let queue: Vec<(String, StateKind, u64)> = restored
        .queued_snapshot()
        .into_iter()
        .map(|task| (task.session_id, task.state, task.updated_at))
        .collect();
    assert_eq!(
        queue,
        [
            ("c".to_owned(), StateKind::Requested, 3),
            ("d".to_owned(), StateKind::Working, 4),
        ]
    );
}

#[test]
fn restored_queue_fills_free_slots_in_order() {
    let config = AppConfig::default();
    let queued = ["x", "y", "z"]
        .iter()
        .map(|name| RestoredQueuedSession {
            session_id: (*name).to_owned(),
            state: StateKind::Done,
            updated_at: 7,
        })
        .collect();
    let engine = Engine::restore(
        2,
        vec![RestoredSlot {
            slot: 0,
            session_id: "nowhere".to_owned(),
            state: StateKind::Done,
            updated_at: 1,
        }],
        queued,
    );

    assert_eq!(engine.session_for_g_key(1), Some("x"));
    assert_eq!(engine.session_for_g_key(2), Some("y"));
    assert_eq!(engine.queued_snapshot().len(), 1);
    assert_eq!(engine.snapshot(&config)[1].key, "G2");
    assert_eq!(engine.snapshot(&config)[1].key_address, 0xb5);
}
