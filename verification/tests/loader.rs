use capslock_forge::config::{
    init, language, language_or_auto, shortcut_key_config, CapslockForgetFeature,
    ShortcutConfigDocError, ShortcutKeyConfigFileFormatError,
};
use capslock_forge::defaults;
use capslock_forge::feature::SimEvent;
use capslock_forge::i18n::Language;
use capslock_forge::keys::Key;

fn rules_doc(json: &str) -> String {
    format!("language: en\ncapslock_shortcut: '{}'\n", json)
}

#[test]
fn loads_an_input_text_rule() {
    let doc = rules_doc(r#"[{"key": "ctrl+b", "feature": "input_text", "text": ["p", "q"]}]"#);
    let list = shortcut_key_config(&doc).unwrap().unwrap();
    assert_eq!(list.len(), 1);
    let cfg = list[0].as_ref().unwrap();
    assert_eq!(cfg.key, Key::KeyB);
    assert!(cfg.modifier_key.ctrl && !cfg.modifier_key.shift);
    match &cfg.feature {
        CapslockForgetFeature::InputText(a) => {
            assert_eq!(a.text_list, vec!["p".to_string(), "q".to_string()]);
            assert_eq!(a.index, 0);
        }
        other => panic!("wrong feature: {:?}", other),
    }
}

#[test]
fn loads_an_input_rule_with_delay() {
    let doc = rules_doc(
        r#"[{"key": "a", "feature": "input", "action": ["ctrl+c", "enter"], "delay": 25}]"#,
    );
    let list = shortcut_key_config(&doc).unwrap().unwrap();
    let cfg = list[0].as_ref().unwrap();
    match &cfg.feature {
        CapslockForgetFeature::Input(a) => {
            assert_eq!(a.input_key_list.len(), 2);
            assert_eq!(a.input_key_list[0].key, Key::KeyC);
            assert!(a.input_key_list[0].modifier_key.ctrl);
            assert_eq!(a.input_key_list[0].delay, 25);
            assert_eq!(a.input_key_list[1].key, Key::Return);
            assert_eq!(a.input_key_list[1].delay, 25);
            let events = a.execute();
            assert_eq!(
                events,
                vec![
                    SimEvent::Press(Key::ControlLeft),
                    SimEvent::Press(Key::KeyC),
                    SimEvent::Release(Key::KeyC),
                    SimEvent::Release(Key::ControlLeft),
                    SimEvent::Sleep(25),
                    SimEvent::Press(Key::Return),
                    SimEvent::Release(Key::Return),
                    SimEvent::Sleep(25),
                ]
            );
        }
        other => panic!("wrong feature: {:?}", other),
    }
}

#[test]
fn loads_a_multifunctional_rule() {
    let doc = rules_doc(r#"[{"key": "capslock", "feature": "multifunctional"}]"#);
    let list = shortcut_key_config(&doc).unwrap().unwrap();
    let cfg = list[0].as_ref().unwrap();
    assert!(matches!(cfg.feature, CapslockForgetFeature::Multifunctional(_)));
}

#[test]
fn a_single_string_is_accepted_for_text() {
    let doc = rules_doc(r#"[{"key": "b", "feature": "input_text", "text": "only"}]"#);
    let list = shortcut_key_config(&doc).unwrap().unwrap();
    let cfg = list[0].as_ref().unwrap();
    match &cfg.feature {
        CapslockForgetFeature::InputText(a) => {
            assert_eq!(a.text_list, vec!["only".to_string()]);
        }
        other => panic!("wrong feature: {:?}", other),
    }
}

#[test]
fn array_elements_are_rendered_and_quote_trimmed() {
    let doc = rules_doc(r#"[{"key": "b", "feature": "input_text", "text": ["a", 5, true]}]"#);
    let list = shortcut_key_config(&doc).unwrap().unwrap();
    let cfg = list[0].as_ref().unwrap();
    match &cfg.feature {
        CapslockForgetFeature::InputText(a) => {
            assert_eq!(
                a.text_list,
                vec!["a".to_string(), "5".to_string(), "true".to_string()]
            );
        }
        other => panic!("wrong feature: {:?}", other),
    }
}

#[test]
fn unknown_feature_value_is_a_feature_error() {
    let doc = rules_doc(r#"[{"key": "a", "feature": "fancy"}]"#);
    let list = shortcut_key_config(&doc).unwrap().unwrap();
    match &list[0] {
        Err(e) => assert_eq!(*e, ShortcutKeyConfigFileFormatError::FeatureError("fancy".to_string())),
        Ok(c) => panic!("expected an error, got {:?}", c),
    }
}

#[test]
fn missing_key_field_is_a_json_error() {
    let doc = rules_doc(r#"[{"feature": "multifunctional"}]"#);
    let list = shortcut_key_config(&doc).unwrap().unwrap();
    match &list[0] {
        Err(e) => assert_eq!(*e, ShortcutKeyConfigFileFormatError::JsonError(r#"{"feature":"multifunctional"}"#.to_string())),
        Ok(c) => panic!("expected an error, got {:?}", c),
    }
}

#[test]
fn empty_text_array_is_a_value_error() {
    let doc = rules_doc(r#"[{"key": "a", "feature": "input_text", "text": []}]"#);
    let list = shortcut_key_config(&doc).unwrap().unwrap();
    match &list[0] {
        Err(e) => assert_eq!(*e, ShortcutKeyConfigFileFormatError::ValueError("[]".to_string())),
        Ok(c) => panic!("expected an error, got {:?}", c),
    }
}

#[test]
fn bad_macro_step_is_a_value_error() {
    let doc = rules_doc(r#"[{"key": "a", "feature": "input", "action": ["nosuch"]}]"#);
    let list = shortcut_key_config(&doc).unwrap().unwrap();
    match &list[0] {
        Err(e) => assert_eq!(*e, ShortcutKeyConfigFileFormatError::ValueError("nosuch".to_string())),
        Ok(c) => panic!("expected an error, got {:?}", c),
    }
}

#[test]
fn undecodable_payload_is_a_json_error() {
    let doc = rules_doc("not json at all");
    assert!(matches!(
        shortcut_key_config(&doc),
        Err(ShortcutConfigDocError::Json(_))
    ));
}

#[test]
fn unscannable_document_is_a_scan_error() {
    let doc = "language: en\n  bad\n- indentation: [unclosed\n";
    assert!(matches!(
        shortcut_key_config(doc),
        Err(ShortcutConfigDocError::Scan(_))
    ));
}

#[test]
fn empty_document_is_not_configured() {
    assert!(shortcut_key_config("").unwrap().is_none());
}

#[test]
fn missing_rule_field_is_not_configured() {
    assert!(shortcut_key_config("language: en\n").unwrap().is_none());
}

#[test]
fn non_array_payload_yields_no_rules() {
    let doc = rules_doc(r#"{"key": "a"}"#);
    let list = shortcut_key_config(&doc).unwrap().unwrap();
    assert!(list.is_empty());
}

#[test]
fn configured_language_is_resolved() {
    assert_eq!(language(Some("language: zh-CN\n")), Ok(Language::Chinese));
    assert_eq!(language(Some("language: ja\n")), Ok(Language::Japanese));
    assert_eq!(language(Some("language: en-GB\n")), Ok(Language::English));
    assert_eq!(language_or_auto(Some("language: zh\n")), Language::Chinese);
}

#[test]
fn missing_language_is_an_error() {
    assert_eq!(language(None), Err(()));
    assert_eq!(language(Some("")), Err(()));
    assert_eq!(language(Some("other: x\n")), Err(()));
}

#[test]
fn seeding_writes_only_absent_documents() {
    let plan = init(false, false, "# hello");
    let shortcut = plan.shortcut_write.unwrap();
    assert_eq!(
        shortcut,
        format!("# hello\n{}", defaults::default_shortcut_config_text())
    );
    assert_eq!(
        plan.replace_write.unwrap(),
        defaults::default_replace_text_text()
    );
}

#[test]
fn seeding_never_overwrites_existing_documents() {
    let plan = init(true, true, "# hello");
    assert!(plan.shortcut_write.is_none());
    assert!(plan.replace_write.is_none());
    let plan_again = init(true, false, "# hello");
    assert!(plan_again.shortcut_write.is_none());
    assert!(plan_again.replace_write.is_some());
}

#[test]
fn the_seeded_document_loads() {
    let plan = init(false, false, "# note");
    let doc = plan.shortcut_write.unwrap();
    let list = shortcut_key_config(&doc).unwrap().unwrap();
    assert_eq!(list.len(), 1);
    let cfg = list[0].as_ref().unwrap();
    assert_eq!(cfg.key, Key::CapsLock);
    assert!(matches!(cfg.feature, CapslockForgetFeature::Multifunctional(_)));
}

#[test]
fn a_non_string_rule_field_is_not_configured() {
    let doc = "language: en\ncapslock_shortcut:\n  - a\n  - b\n";
    assert!(shortcut_key_config(doc).unwrap().is_none());
}

#[test]
fn a_fractional_delay_falls_back_to_zero() {
    let doc = rules_doc(r#"[{"key": "a", "feature": "input", "action": ["b"], "delay": 1.5}]"#);
    let list = shortcut_key_config(&doc).unwrap().unwrap();
    let cfg = list[0].as_ref().unwrap();
    match &cfg.feature {
        CapslockForgetFeature::Input(a) => assert_eq!(a.input_key_list[0].delay, 0),
        other => panic!("wrong feature: {:?}", other),
    }
}

#[test]
fn string_array_elements_keep_their_escapes() {
    let doc = "language: en\ncapslock_shortcut: '[{\"key\": \"a\", \"feature\": \"input_text\", \"text\": [\"a\\\"b\", \"x\\ny\"]}]'\n";
    let list = shortcut_key_config(doc).unwrap().unwrap();
    let cfg = list[0].as_ref().unwrap();
    match &cfg.feature {
        CapslockForgetFeature::InputText(a) => {
            // The coercion renders each element and strips one pair of
            // quotes, so inner escapes stay escaped.
            assert_eq!(a.text_list, vec!["a\\\"b".to_string(), "x\\ny".to_string()]);
        }
        other => panic!("wrong feature: {:?}", other),
    }
}
