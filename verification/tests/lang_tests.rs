use dialog_cursor_mover::lang::{
    fallback_of, is_valid_code, sanitize_menu_text, sanitize_value, t, tf, Catalog, MAX_VALUE_CHARS,
};

#[test]
fn valid_language_codes_are_accepted() {
    for code in ["en", "ja", "zh-TW", "pt_BR", "de"] {
        assert!(is_valid_code(code), "{code} was refused");
    }
}

/// A language code becomes part of a path, so it may not leave the directory.
#[test]
fn language_codes_cannot_escape_the_lang_directory() {
    for code in [
        "",
        "..",
        r"..\..\secret",
        "../../../etc/passwd",
        r"C:\Windows\System32\config\SAM",
        r"\\attacker\share\x",
        "ja/../../x",
        "ja;rm",
        &"a".repeat(33),
    ] {
        assert!(!is_valid_code(code), "{code} was accepted");
    }
}

/// NUL would cut the string short in Win32, so it is always removed.
#[test]
fn control_characters_are_removed_from_values() {
    assert_eq!(sanitize_value("Exit\u{0}Hidden"), "ExitHidden");
    assert_eq!(sanitize_value("A\tB"), "AB");
    assert_eq!(sanitize_value("A\rB"), "AB");
}

/// Newlines alone are kept (the comments of config.ini need them).
#[test]
fn newlines_survive_sanitizing() {
    assert_eq!(sanitize_value("Line1\nLine2"), "Line1\nLine2");
}

#[test]
fn overly_long_values_are_truncated() {
    let long = "あ".repeat(MAX_VALUE_CHARS + 500);
    assert_eq!(sanitize_value(&long).chars().count(), MAX_VALUE_CHARS);
}

#[test]
fn menu_text_is_kept_on_one_line() {
    assert_eq!(sanitize_menu_text("  日本語\n(JP)  "), "日本語(JP)");
    assert!(sanitize_menu_text(&"x".repeat(200)).chars().count() <= 64);
}

/// A key without a translation shows the built-in English.
#[test]
fn unknown_keys_fall_back_to_builtin_english() {
    let cat = Catalog::new();
    assert_eq!(t(&cat, "menu.exit"), fallback_of("menu.exit"));
    assert!(!t(&cat, "menu.exit").is_empty());
}

/// Each argument goes where its placeholder stands.
#[test]
fn placeholders_are_substituted_in_order() {
    let cat = Catalog::new();
    assert_eq!(
        tf(&cat, "msg.task.installed", &["MyTask"]),
        fallback_of("msg.task.installed").replace("{0}", "MyTask")
    );
}
