use capslock_forge::config::{parse_shortcut_key_text, ModifierKey, ShortcutKeyConfigFileFormatError};
use capslock_forge::keys::Key;
use capslock_forge::units::{trim_end_char_matches, trim_start_char_matches, TrimCharMatches};

fn no_mods() -> ModifierKey {
    ModifierKey { ctrl: false, shift: false, alt: false, meta: false }
}

#[test]
fn single_key_parses_with_all_flags_false() {
    assert_eq!(parse_shortcut_key_text("a"), Ok((Key::KeyA, no_mods())));
    assert_eq!(parse_shortcut_key_text("F1"), Ok((Key::F1, no_mods())));
    assert_eq!(parse_shortcut_key_text("capslock"), Ok((Key::CapsLock, no_mods())));
    assert_eq!(parse_shortcut_key_text("  enter  "), Ok((Key::Return, no_mods())));
    assert_eq!(parse_shortcut_key_text("9"), Ok((Key::Num9, no_mods())));
}

#[test]
fn single_key_unrecognized_reports_the_segment() {
    assert_eq!(
        parse_shortcut_key_text("nosuchkey"),
        Err(ShortcutKeyConfigFileFormatError::KeyError("nosuchkey".to_string()))
    );
}

#[test]
fn modifier_combo_parses_regardless_of_order() {
    let expected = Ok((
        Key::F1,
        ModifierKey { ctrl: true, shift: true, alt: false, meta: false },
    ));
    assert_eq!(parse_shortcut_key_text("ctrl+shift+F1"), expected);
    assert_eq!(parse_shortcut_key_text("shift+ctrl+F1"), expected);
    assert_eq!(parse_shortcut_key_text("SHIFT + Ctrl + f1"), expected);
}

#[test]
fn all_four_modifiers() {
    assert_eq!(
        parse_shortcut_key_text("ctrl+alt+shift+meta+x"),
        Ok((Key::KeyX, ModifierKey { ctrl: true, shift: true, alt: true, meta: true }))
    );
}

#[test]
fn segments_after_the_key_are_ignored() {
    assert_eq!(
        parse_shortcut_key_text("ctrl+a+shift"),
        Ok((Key::KeyA, ModifierKey { ctrl: true, shift: false, alt: false, meta: false }))
    );
}

#[test]
fn combo_without_key_reports_original_text() {
    assert_eq!(
        parse_shortcut_key_text("ctrl+shift"),
        Err(ShortcutKeyConfigFileFormatError::KeyError("ctrl+shift".to_string()))
    );
}

#[test]
fn combo_with_bad_key_reports_original_text() {
    assert_eq!(
        parse_shortcut_key_text("ctrl+nosuch"),
        Err(ShortcutKeyConfigFileFormatError::KeyError("ctrl+nosuch".to_string()))
    );
}

#[test]
fn key_names_resolve_case_insensitively() {
    assert_eq!(Key::from_str("Escape"), Some(Key::Escape));
    assert_eq!(Key::from_str("ESC"), Some(Key::Escape));
    assert_eq!(Key::from_str("PageDown"), Some(Key::PageDown));
    assert_eq!(Key::from_str("return"), Some(Key::Return));
    assert_eq!(Key::from_str("bogus"), None);
}

#[test]
fn trim_char_matches_removes_one_occurrence() {
    let text = "--123--".to_string();
    assert_eq!(text.trim_start_char_matches("-"), "-123--");
    assert_eq!(text.trim_end_char_matches("-"), "--123-");
    assert_eq!(text.trim_char_matches("-"), "-123-");
    assert_eq!("abc".trim_char_matches("x"), "abc");
    assert_eq!(trim_start_char_matches("\"quoted\"", "\""), "quoted\"");
    assert_eq!(trim_end_char_matches("\"quoted\"", "\""), "\"quoted");
}
