use capslock_forge::i18n::{ConfigCommentText, I18nText, Language, text_as_language};

#[test]
fn recognized_codes_resolve_without_the_locale() {
    assert_eq!(text_as_language("zh-CN"), Language::Chinese);
    assert_eq!(text_as_language("zh-Hant"), Language::Chinese);
    assert_eq!(text_as_language("ja"), Language::Japanese);
    assert_eq!(text_as_language("en"), Language::English);
    assert_eq!(text_as_language("en-US"), Language::English);
}

#[test]
fn menu_labels_follow_the_language() {
    let en = I18nText::new(Language::English);
    assert_eq!(en.quit().map(|s| s.as_str()), Some("Quit"));
    assert_eq!(en.reload().map(|s| s.as_str()), Some("Reload"));

    let zh = I18nText::new(Language::Chinese);
    assert_eq!(zh.quit().map(|s| s.as_str()), Some("\u{9000}\u{51fa}"));
    assert_eq!(
        zh.reload().map(|s| s.as_str()),
        Some("\u{91cd}\u{65b0}\u{52a0}\u{8f7d}")
    );

    let ja = I18nText::new(Language::Japanese);
    assert_eq!(ja.quit().map(|s| s.as_str()), Some("\u{7d42}\u{4e86}"));
}

#[test]
fn set_language_switches_the_labels() {
    let mut t = I18nText::new(Language::English);
    t.set_language(Language::Chinese);
    assert_eq!(t.quit().map(|s| s.as_str()), Some("\u{9000}\u{51fa}"));
}

#[test]
fn unknown_label_key_is_absent() {
    let t = I18nText::new(Language::English);
    assert!(t.get("nothing").is_none());
}

#[test]
fn comment_blocks_carry_prefixed_lines() {
    let english = ConfigCommentText::english();
    assert_eq!(
        english,
        "# Shortcut configuration file\n# Each rule binds one key combination to one action"
    );
    let chinese = ConfigCommentText::chinese();
    assert!(chinese.starts_with("# "));
    assert!(chinese.contains('\n'));
}

#[test]
fn comment_language_follows_the_selection() {
    assert_eq!(
        ConfigCommentText::auto_select_language(Language::Chinese),
        ConfigCommentText::chinese()
    );
    assert_eq!(
        ConfigCommentText::auto_select_language(Language::English),
        ConfigCommentText::english()
    );
    assert_eq!(
        ConfigCommentText::auto_select_language(Language::Japanese),
        ConfigCommentText::english()
    );
}
