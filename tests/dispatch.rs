use shortcut_artisan::actions::{
    expand_home, first_failure, join_path, plan_action, ActionStep, ExecutionError, Launch,
};
use shortcut_artisan::chord::Chord;
use shortcut_artisan::config::AppConfig;
use shortcut_artisan::definition::{ActionParameters, ActionType, Shortcut, ShortcutAction};
use shortcut_artisan::settings::format_settings;
use shortcut_artisan::execution::{
    emit_shortcut_event, trigger_event_name, Dispatch, ExecutionFacade, ExecutionShortcut,
    ShortcutState,
};

fn action(kind: ActionType, set: impl FnOnce(&mut ActionParameters)) -> ShortcutAction {
    let mut parameters = ActionParameters::empty();
    set(&mut parameters);
    ShortcutAction { action_type: kind, parameters }
}

fn definition(id: &str, chord: &str, enabled: bool, actions: Vec<ShortcutAction>) -> Shortcut {
    Shortcut {
        id: id.to_string(),
        key_combination: chord.to_string(),
        command_name: format!("{} command", id),
        description: Some("described".to_string()),
        enabled,
        actions,
        scope: None,
    }
}

fn launch(program: &str, args: &[&str]) -> Result<ActionStep, ExecutionError> {
    Ok(ActionStep::Launch(Launch {
        program: program.to_string(),
        args: args.iter().map(|a| a.to_string()).collect(),
    }))
}

#[test]
fn pressed_chord_opens_the_folder_once_and_notifies() {
    let docs = action(ActionType::OpenFolder, |p| p.path = Some("~/Documents".to_string()));
    let cache = ExecutionFacade::new(vec![definition("d", "Ctrl+Alt+U", true, vec![docs])]);
    let fired = Chord::parse("Ctrl+Alt+U").unwrap();
    let k = match cache.handle_shortcut_event(&fired, ShortcutState::Pressed) {
        Dispatch::Pressed(k) => k,
        other => panic!("unexpected dispatch {:?}", other),
    };
    let steps = cache.plan_actions(k, &Some("/home/tester".to_string()));
    assert_eq!(steps, vec![launch("xdg-open", &["/home/tester/Documents"])]);
    // The open mechanism failing does not change the notification.
    let outcome = first_failure(vec![Err(ExecutionError::SpawnFailed("no xdg-open".to_string()))]);
    assert!(outcome.is_err());
    assert_eq!(emit_shortcut_event(ShortcutState::Pressed), "Shortcut Pressed!");
    assert_eq!(trigger_event_name(), "shortcut-triggered");
}

#[test]
fn execute_actions_uses_the_real_home_directory() {
    let docs = action(ActionType::OpenFolder, |p| p.path = Some("~/Documents".to_string()));
    let cache = ExecutionFacade::new(vec![definition("d", "Ctrl+Alt+U", true, vec![docs])]);
    let steps = cache.execute_actions(0);
    assert_eq!(steps.len(), 1);
    match dirs::home_dir() {
        Some(home) => {
            let expected = home.join("Documents").to_string_lossy().into_owned();
            assert_eq!(steps[0], launch("xdg-open", &[expected.as_str()]));
        },
        None => assert_eq!(steps[0], launch("xdg-open", &["~/Documents"])),
    }
}

#[test]
fn a_failing_action_does_not_stop_the_next() {
    let failing = action(ActionType::RunShellScript, |p| p.script = Some("exit 1".to_string()));
    let ok = action(ActionType::OpenApplication, |p| p.app_name = Some("ok".to_string()));
    let cache = ExecutionFacade::new(vec![definition("two", "Ctrl+T", true, vec![failing, ok])]);
    let steps = cache.plan_actions(0, &None);
    assert_eq!(steps, vec![launch("sh", &["-c", "exit 1"]), launch("ok", &[])]);
    let outcomes = vec![Err(ExecutionError::SpawnFailed("exit status 1".to_string())), Ok(())];
    assert!(outcomes[1].is_ok());
    assert_eq!(first_failure(outcomes), Err(ExecutionError::SpawnFailed("exit status 1".to_string())));
}

#[test]
fn first_failure_reports_the_earliest_error() {
    assert_eq!(first_failure(vec![]), Ok(()));
    assert_eq!(first_failure(vec![Ok(()), Ok(())]), Ok(()));
    assert_eq!(
        first_failure(vec![
            Ok(()),
            Err(ExecutionError::MissingParameter(ActionType::OpenFile)),
            Err(ExecutionError::SpawnFailed("x".to_string())),
        ]),
        Err(ExecutionError::MissingParameter(ActionType::OpenFile))
    );
}

#[test]
fn release_notifies_without_actions() {
    let cache = ExecutionFacade::new(vec![definition("r", "Shift+R", true, vec![])]);
    let fired = Chord::parse("shift+r").unwrap();
    assert_eq!(cache.handle_shortcut_event(&fired, ShortcutState::Released), Dispatch::Released(0));
    assert_eq!(emit_shortcut_event(ShortcutState::Released), "Shortcut Released!");
}

#[test]
fn unknown_chord_is_unmatched() {
    let cache = ExecutionFacade::new(vec![definition("r", "Shift+R", true, vec![])]);
    let fired = Chord::parse("Ctrl+R").unwrap();
    assert_eq!(cache.handle_shortcut_event(&fired, ShortcutState::Pressed), Dispatch::Unmatched);
}

#[test]
fn earliest_definition_wins_a_shared_chord() {
    let cache = ExecutionFacade::new(vec![
        definition("bad", "Ctrl+Nope", true, vec![]),
        definition("first", "Ctrl+S", true, vec![]),
        definition("second", "control+s", true, vec![]),
    ]);
    let fired = Chord::parse("Ctrl+S").unwrap();
    assert_eq!(cache.handle_shortcut_event(&fired, ShortcutState::Pressed), Dispatch::Pressed(1));
    assert_eq!(cache.find_match(&fired), Some(1));
}

#[test]
fn disabled_definitions_are_not_cached() {
    let cache = ExecutionFacade::new(vec![
        definition("off", "Ctrl+O", false, vec![]),
        definition("on", "Ctrl+P", true, vec![]),
    ]);
    assert_eq!(cache.shortcut_cache().len(), 1);
    assert_eq!(cache.shortcut_cache()[0].id, "on");
    let fired = Chord::parse("Ctrl+O").unwrap();
    assert_eq!(cache.handle_shortcut_event(&fired, ShortcutState::Pressed), Dispatch::Unmatched);
}

#[test]
fn startup_skips_unparseable_chords() {
    let cache = ExecutionFacade::new(vec![
        definition("a", "Ctrl+A", true, vec![]),
        definition("bad", "Ctrl", true, vec![]),
        definition("b", "Alt+B", true, vec![]),
    ]);
    assert_eq!(
        cache.load_shortcuts_at_startup(),
        vec![Chord::parse("Ctrl+A").unwrap(), Chord::parse("Alt+B").unwrap()]
    );
}

#[test]
fn cached_form_keeps_the_fields() {
    let s = definition("keep", "Ctrl+K", true, vec![action(ActionType::MinimizeWindow, |_| {})]);
    let e = ExecutionShortcut::from_shortcut(s.clone());
    assert_eq!(e.id, s.id);
    assert_eq!(e.key_combination, s.key_combination);
    assert_eq!(e.command_name, s.command_name);
    assert_eq!(e.enabled, s.enabled);
    assert_eq!(e.actions.len(), 1);
    assert_eq!(e.actions[0].action_type, ActionType::MinimizeWindow);
}

#[test]
fn missing_parameters_are_errors() {
    let none = ActionParameters::empty();
    for kind in [ActionType::OpenFolder, ActionType::OpenFile, ActionType::OpenApplication, ActionType::RunShellScript] {
        assert_eq!(plan_action(kind, &none, &None), Err(ExecutionError::MissingParameter(kind)));
    }
}

#[test]
fn window_and_process_kinds_are_acknowledged() {
    let none = ActionParameters::empty();
    for kind in [
        ActionType::QuitApplication,
        ActionType::HideApplication,
        ActionType::FocusApplication,
        ActionType::MinimizeWindow,
        ActionType::MaximizeWindow,
    ] {
        assert_eq!(plan_action(kind, &none, &None), Ok(ActionStep::Acknowledge(kind)));
    }
}

#[test]
fn open_file_expands_home_too() {
    let mut p = ActionParameters::empty();
    p.path = Some("~/notes.txt".to_string());
    assert_eq!(
        plan_action(ActionType::OpenFile, &p, &Some("/home/u/".to_string())),
        launch("xdg-open", &["/home/u/notes.txt"])
    );
}

#[test]
fn home_expansion_cases() {
    let home = Some("/home/u".to_string());
    assert_eq!(expand_home("~", &home), "/home/u");
    assert_eq!(expand_home("~/", &home), "/home/u/");
    assert_eq!(expand_home("~/a/b", &home), "/home/u/a/b");
    assert_eq!(expand_home("~//etc", &home), "/etc");
    assert_eq!(expand_home("~user/x", &home), "~user/x");
    assert_eq!(expand_home("/abs/~", &home), "/abs/~");
    assert_eq!(expand_home("~/a", &None), "~/a");
}

#[test]
fn join_path_cases() {
    assert_eq!(join_path("/home/u", "x"), "/home/u/x");
    assert_eq!(join_path("/home/u/", "x"), "/home/u/x");
    assert_eq!(join_path("/home/u", "/etc"), "/etc");
    assert_eq!(join_path("", "x"), "x");
}

#[test]
fn config_lives_under_home() {
    let c = AppConfig::for_home("/home/u");
    assert_eq!(c.data_dir, "/home/u/.shortcut-artisan");
    assert_eq!(c.settings_file, "/home/u/.shortcut-artisan/settings.json");
    if let Some(g) = AppConfig::global() {
        assert!(g.settings_file.ends_with("/.shortcut-artisan/settings.json"));
        let home = dirs::home_dir().unwrap().to_string_lossy().into_owned();
        assert_eq!(g, AppConfig::for_home(&home));
    }
}

#[test]
fn settings_are_pretty_printed_when_json() {
    assert_eq!(format_settings("[{\"a\":1}]".to_string()), "[\n  {\n    \"a\": 1\n  }\n]");
    assert_eq!(format_settings("not json".to_string()), "not json");
    assert_eq!(format_settings("[]".to_string()), "[]");
}
