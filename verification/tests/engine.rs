use capslock_forge::config::{CapslockForgetFeature, ShortcutKeyConfigFileFormatError};
use capslock_forge::feature::{ActionRequest, Engine, InputTextAction, LoadError, SimEvent};
use capslock_forge::keys::Key;

fn rules_doc(json: &str) -> String {
    format!("language: en\ncapslock_shortcut: '{}'\n", json)
}

const EMPTY_REPLACE: &str = "[Multifunctional]\n";

#[test]
fn rotating_text_four_triggers_cycle() {
    let mut action = InputTextAction::new(vec![
        "p".to_string(),
        "q".to_string(),
        "r".to_string(),
    ]);
    let mut outputs: Vec<String> = Vec::new();
    for _ in 0..4 {
        outputs.push(action.input_next_text());
    }
    assert_eq!(
        outputs,
        vec!["p".to_string(), "q".to_string(), "r".to_string(), "p".to_string()]
    );
    assert_eq!(action.index, 1);
}

#[test]
fn dispatch_matches_exactly_and_rotates() {
    let doc = rules_doc(r#"[{"key": "ctrl+b", "feature": "input_text", "text": ["p", "q"]}]"#);
    let mut engine = Engine::new();
    engine.reload(Some(&doc), Some(EMPTY_REPLACE)).unwrap();
    assert!(engine.loaded);

    // A bare 'b' never matches a rule bound to 'ctrl+b', and vice versa.
    assert!(engine.dispatch(Key::KeyB, false, false, false, false).is_none());
    assert!(engine.dispatch(Key::KeyB, true, true, false, false).is_none());
    assert!(engine.dispatch(Key::KeyA, true, false, false, false).is_none());

    match engine.dispatch(Key::KeyB, true, false, false, false) {
        Some(ActionRequest::InjectText(t)) => assert_eq!(t, "p"),
        other => panic!("unexpected outcome: {:?}", other),
    }
    match engine.dispatch(Key::KeyB, true, false, false, false) {
        Some(ActionRequest::InjectText(t)) => assert_eq!(t, "q"),
        other => panic!("unexpected outcome: {:?}", other),
    }
    match engine.dispatch(Key::KeyB, true, false, false, false) {
        Some(ActionRequest::InjectText(t)) => assert_eq!(t, "p"),
        other => panic!("unexpected outcome: {:?}", other),
    }
}

#[test]
fn earlier_of_two_identical_bindings_wins() {
    let doc = rules_doc(
        r#"[{"key": "a", "feature": "input_text", "text": ["first"]},
            {"key": "a", "feature": "input_text", "text": ["second"]}]"#,
    );
    let mut engine = Engine::new();
    engine.reload(Some(&doc), Some(EMPTY_REPLACE)).unwrap();
    for _ in 0..3 {
        match engine.dispatch(Key::KeyA, false, false, false, false) {
            Some(ActionRequest::InjectText(t)) => assert_eq!(t, "first"),
            other => panic!("unexpected outcome: {:?}", other),
        }
    }
}

#[test]
fn guard_passes_synthetic_events_through_untouched() {
    let doc = rules_doc(
        r#"[{"key": "a", "feature": "input", "action": ["b"]},
            {"key": "b", "feature": "input_text", "text": ["t"]}]"#,
    );
    let mut engine = Engine::new();
    engine.reload(Some(&doc), Some(EMPTY_REPLACE)).unwrap();
    assert!(!engine.caps_shortcut_listener_is_lock());

    // Triggering the macro sets the guard and hands back its replay.
    match engine.dispatch(Key::KeyA, false, false, false, false) {
        Some(ActionRequest::Simulate(events)) => {
            assert_eq!(
                events,
                vec![
                    SimEvent::Press(Key::KeyB),
                    SimEvent::Release(Key::KeyB),
                    SimEvent::Sleep(0),
                ]
            );
        }
        other => panic!("unexpected outcome: {:?}", other),
    }
    assert!(engine.caps_shortcut_listener_is_lock());

    // The synthetic 'b' the macro generates is observed as "not handled",
    // even though a rule is bound to it.
    assert!(engine.dispatch(Key::KeyB, false, false, false, false).is_none());

    // Once the replay completes the guard clears, and a genuine event is
    // handled normally.
    engine.set_caps_shortcut_listener_lock(false);
    match engine.dispatch(Key::KeyB, false, false, false, false) {
        Some(ActionRequest::InjectText(t)) => assert_eq!(t, "t"),
        other => panic!("unexpected outcome: {:?}", other),
    }
}

#[test]
fn multifunctional_rule_requests_selection_replacement() {
    let doc = rules_doc(r#"[{"key": "capslock", "feature": "multifunctional"}]"#);
    let replace = "[Multifunctional]\ncolor=colour\n";
    let mut engine = Engine::new();
    engine.reload(Some(&doc), Some(replace)).unwrap();
    match engine.dispatch(Key::CapsLock, false, false, false, false) {
        Some(ActionRequest::ReplaceSelection) => {}
        other => panic!("unexpected outcome: {:?}", other),
    }
    let action = capslock_forge::feature::MultifunctionalAction;
    assert_eq!(
        action.replace_text(&engine.map, "color"),
        Some("colour".to_string())
    );
    assert_eq!(action.replace_text(&engine.map, "nothing"), None);
}

#[test]
fn one_bad_entry_fails_the_whole_load() {
    let doc = rules_doc(
        r#"[{"key": "a", "feature": "input_text", "text": ["ok"]},
            {"key": "b", "feature": "fancy"}]"#,
    );
    let mut engine = Engine::new();
    let err = engine.reload(Some(&doc), Some(EMPTY_REPLACE)).unwrap_err();
    assert_eq!(
        err,
        LoadError::ConfigError(ShortcutKeyConfigFileFormatError::FeatureError(
            "fancy".to_string()
        ))
    );
    // Fail-closed: no rules remain active after a broken load.
    assert!(!engine.loaded);
    assert!(engine.rules.is_empty());
    assert!(engine.dispatch(Key::KeyA, false, false, false, false).is_none());
}

#[test]
fn broken_load_clears_a_previous_rule_set() {
    let good = rules_doc(r#"[{"key": "a", "feature": "input_text", "text": ["x"]}]"#);
    let mut engine = Engine::new();
    engine.reload(Some(&good), Some(EMPTY_REPLACE)).unwrap();
    assert!(engine.dispatch(Key::KeyA, false, false, false, false).is_some());

    let bad = rules_doc("broken json");
    assert!(matches!(
        engine.reload(Some(&bad), Some(EMPTY_REPLACE)),
        Err(LoadError::JsonError(_))
    ));
    assert!(engine.dispatch(Key::KeyA, false, false, false, false).is_none());
}

#[test]
fn load_error_kinds_are_distinguished() {
    let mut engine = Engine::new();
    assert!(matches!(
        engine.reload(Some(""), Some(EMPTY_REPLACE)),
        Err(LoadError::FileNotFound)
    ));
    assert!(matches!(
        engine.reload(Some("language: en\n"), Some(EMPTY_REPLACE)),
        Err(LoadError::FileNotFound)
    ));
    assert!(matches!(
        engine.reload(
            Some("language: en\n  bad\n- indentation: [unclosed\n"),
            Some(EMPTY_REPLACE)
        ),
        Err(LoadError::ScanError(_))
    ));
    let good = rules_doc(r#"[{"key": "a", "feature": "multifunctional"}]"#);
    assert!(matches!(
        engine.reload(Some(&good), None),
        Err(LoadError::ReplaceTextConfigError(_))
    ));
    assert!(engine.reload(Some(&good), Some(EMPTY_REPLACE)).is_ok());
}

#[test]
fn unreadable_shortcut_document_loads_no_rules_but_succeeds() {
    let mut engine = Engine::new();
    engine.reload(None, Some(EMPTY_REPLACE)).unwrap();
    assert!(engine.loaded);
    assert!(engine.rules.is_empty());
}

#[test]
fn collision_diagnostics_survive_the_load() {
    let doc = rules_doc(r#"[]"#);
    let replace = "[Multifunctional]\na=[x,y]\nx=q\n";
    let mut engine = Engine::new();
    engine.reload(Some(&doc), Some(replace)).unwrap();
    assert_eq!(engine.diagnostics, vec!["y".to_string()]);
}

#[test]
fn clear_removes_all_matching_logic() {
    let doc = rules_doc(r#"[{"key": "a", "feature": "input_text", "text": ["x"]}]"#);
    let mut engine = Engine::new();
    engine.reload(Some(&doc), Some(EMPTY_REPLACE)).unwrap();
    engine.clear();
    assert!(!engine.loaded);
    assert!(engine.dispatch(Key::KeyA, false, false, false, false).is_none());
}
