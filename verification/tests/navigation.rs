use codex_agent_indicator::cli::{
    argument, clear_message, parse_command, requested_command, set_message, wants_force, Command,
    SetStateError,
};
use codex_agent_indicator::navigation::{codex_open_arguments, codex_thread_url};
use codex_agent_indicator::state::StateKind;
use codex_agent_indicator::update::{
    check_layout, service_file, service_name, UpdateError, UpdatePlan,
};
use codex_agent_indicator::wire::EventMessage;

#[test]
fn builds_deep_links_only_for_safe_technical_thread_ids() {
    assert_eq!(
        codex_thread_url("test-thread_123").as_deref(),
        Some("codex://threads/test-thread_123")
    );
    assert_eq!(codex_thread_url(""), None);
    assert_eq!(codex_thread_url("../settings"), None);
    assert_eq!(codex_thread_url("task?prompt=surprise"), None);
}

#[test]
fn opens_the_selected_thread_in_the_foreground_codex_app() {
    assert_eq!(
        codex_open_arguments("test-thread_123"),
        Some(vec![
            "-b".to_owned(),
            "com.openai.codex".to_owned(),
            "codex://threads/test-thread_123".to_owned(),
        ])
    );
    assert_eq!(codex_open_arguments("../settings"), None);
}

#[test]
fn links_take_letters_of_both_cases_and_nothing_foreign() {
    assert_eq!(codex_thread_url("Az09").as_deref(), Some("codex://threads/Az09"));
    assert_eq!(codex_thread_url("t\u{e4}sk"), None);
    assert_eq!(codex_thread_url("a b"), None);
    assert_ne!(codex_thread_url("a"), codex_thread_url("b"));
}

#[test]
fn targets_the_root_containing_the_running_binary() {
    let plan = UpdatePlan::from_executable("/Users/example/.local/bin/codex-agent-indicator")
        .expect("valid install layout");

    assert_eq!(plan.install_root, "/Users/example/.local");
    assert_eq!(
        plan.cargo_arguments(),
        [
            "install",
            "codex-agent-indicator",
            "--registry",
            "crates-io",
            "--locked",
            "--force",
            "--root",
            "/Users/example/.local",
        ]
    );
}

#[test]
fn supports_the_default_cargo_install_layout() {
    let plan = UpdatePlan::from_executable("/Users/example/.cargo/bin/codex-agent-indicator")
        .expect("valid Cargo install layout");

    assert_eq!(plan.install_root, "/Users/example/.cargo");
}

#[test]
fn rejects_a_binary_outside_an_install_root() {
    let executable = "/Users/example/Projects/indicator/target/release/codex-agent-indicator";
    let error = UpdatePlan::from_executable(executable)
        .expect_err("source build is not an installed binary");

    assert!(error
        .message(executable)
        .contains("expected the executable inside a bin directory"));
}

#[test]
fn rejects_a_renamed_binary() {
    let executable = "/Users/example/.local/bin/indicator";
    let error = UpdatePlan::from_executable(executable)
        .expect_err("renamed binaries cannot be updated in place");

    assert!(error.message(executable).contains("codex-agent-indicator"));
}

#[test]
fn every_fault_of_a_layout_is_told_apart() {
    let name = Some("codex-agent-indicator");
    assert_eq!(check_layout(None, None, None, None), Err(UpdateError::Renamed));
    assert_eq!(check_layout(name, None, None, None), Err(UpdateError::NoDirectory));
    assert_eq!(check_layout(name, Some("/x"), Some("x"), Some("/")), Err(UpdateError::OutsideBin));
    assert_eq!(check_layout(name, Some("bin"), Some("bin"), None), Err(UpdateError::NoInstallRoot));
    assert_eq!(check_layout(name, Some("/bin"), Some("bin"), Some("/")), Ok("/".to_owned()));
    assert_eq!(
        UpdateError::NoDirectory.message("x"),
        "cannot determine the executable directory"
    );
    assert_eq!(
        UpdateError::NoInstallRoot.message("x"),
        "cannot determine the Cargo install root"
    );
}

#[test]
fn a_layout_is_told_by_the_components_of_the_path() {
    let root = |path: &str| UpdatePlan::from_executable(path).map(|plan| plan.install_root);
    let name = "codex-agent-indicator";
    assert_eq!(root(&format!("/opt/bin/{name}")), Ok("/opt".to_owned()));
    assert_eq!(root(&format!("/opt/bin/.//{name}/")), Ok("/opt".to_owned()));
    assert_eq!(root(&format!("/bin/{name}")), Ok("/".to_owned()));
    assert_eq!(root(&format!("bin/{name}")), Ok(String::new()));
    assert_eq!(root(&format!("./bin/{name}")), Ok(".".to_owned()));
    assert_eq!(root(&format!("/opt/bin/../{name}")), Err(UpdateError::OutsideBin));
    assert_eq!(root(&format!("/{name}")), Err(UpdateError::OutsideBin));
    assert_eq!(root(name), Err(UpdateError::OutsideBin));
    assert_eq!(root(&format!("./{name}")), Err(UpdateError::OutsideBin));
    for path in ["", ".", "/", "..", "/opt/bin/..", "/opt/bin"] {
        assert_eq!(root(path), Err(UpdateError::Renamed), "{path}");
    }
    assert_eq!(root(&format!("/opt/bin/{name}/..")), Err(UpdateError::Renamed));
}

#[test]
fn only_the_installed_service_is_restarted() {
    let plan = UpdatePlan::from_executable("/people/me/.local/bin/codex-agent-indicator").unwrap();
    assert!(plan.is_managed("/people/me", true));
    assert!(plan.is_managed("/people//me/", true));
    assert!(plan.is_managed("/./people/./me/.", true));
    assert!(!plan.is_managed("people/me", true));
    assert!(!plan.is_managed("/people/you/../me", true));
    assert!(!plan.is_managed("/people/me", false));
    assert!(!plan.is_managed("/people/you", true));
    assert_eq!(
        service_file("/people/me"),
        "/people/me/Library/LaunchAgents/com.codex-agent-indicator.plist"
    );
    assert_eq!(service_name("501\n"), "gui/501/com.codex-agent-indicator");
}

fn words(list: &[&str]) -> Vec<String> {
    list.iter().map(|word| (*word).to_owned()).collect()
}

#[test]
fn words_stand_for_commands() {
    assert_eq!(requested_command(&words(&["program"])), Command::Help);
    assert_eq!(requested_command(&words(&["program", "daemon", "x"])), Command::Daemon);
    for (word, command) in [
        ("hook", Command::Hook),
        ("init-config", Command::InitConfig),
        ("set", Command::SetState),
        ("clear", Command::Clear),
        ("reload", Command::Reload),
        ("status", Command::Status),
        ("doctor", Command::Doctor),
        ("update", Command::Update),
        ("help", Command::Help),
        ("--help", Command::Help),
        ("-h", Command::Help),
        ("--version", Command::Version),
        ("-V", Command::Version),
        ("version", Command::Version),
        ("Daemon", Command::Unknown),
        ("", Command::Unknown),
    ] {
        assert_eq!(parse_command(word), command, "{word}");
    }
}

#[test]
fn states_are_set_and_cleared_by_words() {
    assert!(matches!(
        set_message(&words(&["p", "set", "DONE", "demo"])),
        Ok(EventMessage::SetState { session_id, state: StateKind::Done }) if session_id == "demo"
    ));
    assert!(matches!(
        set_message(&words(&["p", "set", "busy"])),
        Ok(EventMessage::SetState { session_id, state: StateKind::Working })
            if session_id == "manual-preview"
    ));
    assert!(matches!(set_message(&words(&["p", "set"])), Err(SetStateError::MissingState)));
    assert!(matches!(
        set_message(&words(&["p", "set", "blue"])),
        Err(SetStateError::UnknownState(error)) if error.value == "blue"
    ));
    assert!(matches!(
        clear_message(&words(&["p", "clear"])),
        EventMessage::Clear { session_id: None }
    ));
    assert!(matches!(
        clear_message(&words(&["p", "clear", "demo"])),
        EventMessage::Clear { session_id: Some(session) } if session == "demo"
    ));
    assert!(wants_force(&words(&["p", "init-config", "--force"])));
    assert!(!wants_force(&words(&["p", "init-config"])));
    assert_eq!(argument(&words(&["p", "update", "now"]), 2).as_deref(), Some("now"));
    assert_eq!(argument(&words(&["p", "update"]), 2), None);
}
