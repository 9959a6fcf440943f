use dialog_cursor_mover::config::Config;
use dialog_cursor_mover::theme::pick_cursor;
use dialog_cursor_mover::util::{from_wide, wide};
use dialog_cursor_mover::fallback::fallback_table;
use dialog_cursor_mover::lang::{fallback_of, t, tf, Catalog};

/// Every key that the program looks up, in the order of the built-in table.
const BUILT_IN_KEYS: [&str; 87] = [
    "menu.enabled",
    "menu.delay",
    "menu.delay.current",
    "menu.sound",
    "menu.sound.current",
    "menu.sound.choose",
    "menu.sound.test",
    "menu.skip_file_dialogs",
    "menu.move_animation",
    "menu.move_speed",
    "menu.speed.fast",
    "menu.speed.normal",
    "menu.speed.slow",
    "menu.speed.item",
    "menu.cursor_animation",
    "menu.autostart",
    "menu.diagnostics",
    "menu.test_dialog",
    "menu.log.off",
    "menu.log.normal",
    "menu.log.verbose",
    "menu.open_log",
    "menu.open_config",
    "menu.reload_config",
    "menu.about",
    "menu.exit",
    "menu.language",
    "msg.already_running",
    "msg.wav_failed",
    "msg.test_dialog",
    "msg.about",
    "msg.task.installed",
    "msg.task.removed",
    "msg.task.install_failed",
    "msg.task.remove_failed",
    "msg.task.denied",
    "msg.task.unsafe_location",
    "msg.task.elevated",
    "msg.class_failed",
    "msg.window_failed",
    "msg.choose_wav",
    "msg.filter_wav",
    "msg.filter_all",
    "msg.log_empty",
    "msg.sound_unset",
    "tip.status",
    "tip.on",
    "tip.off",
    "cfg.header",
    "cfg.language",
    "cfg.enabled",
    "cfg.delay_ms",
    "cfg.sound_enabled",
    "cfg.wav_path",
    "cfg.standard_dialog_only",
    "cfg.require_foreground",
    "cfg.skip_if_cursor_inside",
    "cfg.move_once_per_dialog",
    "cfg.ignore_own_process",
    "cfg.move_animation",
    "cfg.move_duration_ms",
    "cfg.move_wobble",
    "cfg.cursor_animation",
    "cfg.abort_on_user_move",
    "cfg.user_move_threshold",
    "cfg.watch_title_changes",
    "cfg.watch_focus_changes",
    "cfg.follow_dialog_default_button",
    "cfg.follow_default_in_browser",
    "cfg.uia_enabled",
    "cfg.uia_dialog_like_only",
    "cfg.uia_max_elements",
    "cfg.log_level",
    "cfg.skip_file_dialogs",
    "cfg.skip_progress_dialogs",
    "cfg.exclude_processes",
    "cfg.exclude_titles",
    "cfg.extra_button_labels",
    "lang.name",
    "menu.ripple",
    "cfg.ripple_enabled",
    "cfg.ripple_size",
    "cfg.ripple_duration_ms",
    "cfg.ripple_color",
    "menu.theme",
    "menu.theme.default",
    "cfg.theme",
];

#[test]
fn built_in_table_has_exactly_the_program_keys() {
    let table = fallback_table();
    let keys: Vec<&str> = table.iter().map(|e| e.0).collect();
    assert_eq!(keys, BUILT_IN_KEYS.to_vec());
    for (k, v) in table {
        assert!(!v.is_empty(), "empty built-in text for {k}");
    }
}

#[test]
fn every_program_key_has_english_text() {
    let none = Catalog::new();
    for k in BUILT_IN_KEYS {
        assert!(!fallback_of(k).is_empty(), "no built-in text for {k}");
        assert_eq!(t(&none, k), fallback_of(k));
    }
    assert_eq!(fallback_of("msg.no_such_key"), "");
}

#[test]
fn messages_about_autostart_and_about_box_are_built_in() {
    let none = Catalog::new();
    assert!(fallback_of("msg.task.unsafe_location").starts_with("DialogCursorMover is in a folder"));
    assert!(fallback_of("msg.task.elevated").starts_with("The operation ran with administrator rights."));
    assert!(fallback_of("msg.test_dialog").starts_with("This is a test dialog."));
    assert_eq!(
        tf(&none, "msg.about", &["1.2", "C:\\x"]),
        "DialogCursorMover 1.2\n\nMoves the mouse cursor to the OK button\nwhen a dialog appears.\n\nSettings and logs:\nC:\\x"
    );
}

#[test]
fn wide_buffers_read_back_to_the_first_nul() {
    assert_eq!(from_wide(&[0x41, 0x42, 0, 0x43]), "AB");
    assert_eq!(from_wide(&[0x41, 0x42]), "AB");
    for s in ["", "OK", "Größe", "保存しますか?", "smile \u{1F600}"] {
        assert_eq!(from_wide(&wide(s)), s);
    }
}

#[test]
fn the_speed_cursor_is_preferred_then_the_plain_one() {
    let pair = || ("a_fast.ani".to_string(), "a.ani".to_string());
    assert_eq!(pick_cursor(pair(), true, true), Some("a_fast.ani".to_string()));
    assert_eq!(pick_cursor(pair(), true, false), Some("a_fast.ani".to_string()));
    assert_eq!(pick_cursor(pair(), false, true), Some("a.ani".to_string()));
    assert_eq!(pick_cursor(pair(), false, false), None);
}

#[test]
fn setting_lines_do_not_depend_on_the_language() {
    let keys = |r: &str| -> Vec<String> {
        r.trim_start_matches('\u{feff}')
            .lines()
            .filter(|l| !l.is_empty() && !l.starts_with(';'))
            .map(|l| l.to_string())
            .collect()
    };
    let mut c = Config::default();
    c.delay_ms = 750;
    c.exclude_titles = vec!["Print".to_string(), "Update".to_string()];
    let english = c.to_ini(&Catalog::new());
    let other = Catalog::from_text(
        "cfg.header = Kopf\\nzweite Zeile\ncfg.delay_ms = Wartezeit\\nin ms\nmsg.about = x\n",
    );
    let translated = c.to_ini(&other);
    assert_ne!(english, translated);
    assert_eq!(keys(&english), keys(&translated));
    assert!(keys(&english).contains(&"delay_ms = 750".to_string()));
    assert!(keys(&english).contains(&"exclude_titles = Print, Update".to_string()));
}
