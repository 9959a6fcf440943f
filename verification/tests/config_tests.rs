use dialog_cursor_mover::config::{contains_ignore_ascii_case, parse_bool, Config, MAX_LIST_ITEMS};
use dialog_cursor_mover::lang::Catalog;

/// Every field survives writing the INI text and reading it back.
#[test]
fn round_trip_preserves_every_field() {
    let original = Config {
        language: "ja".to_string(),
        theme: "cat".to_string(),
        enabled: false,
        delay_ms: 1234,
        sound_enabled: false,
        wav_path: r"C:\sounds\my sound.wav".to_string(),
        move_animation: false,
        move_duration_ms: 999,
        move_wobble: 13,
        cursor_animation: false,
        ripple_enabled: false,
        ripple_size: 123,
        ripple_duration_ms: 456,
        ripple_color: 0xAB_CDEF,
        abort_on_user_move: false,
        user_move_threshold: 42,
        standard_dialog_only: false,
        require_foreground: false,
        skip_if_cursor_inside: false,
        move_once_per_dialog: false,
        ignore_own_process: true,
        watch_title_changes: false,
        watch_focus_changes: false,
        follow_dialog_default_button: false,
        follow_default_in_browser: true,
        uia_enabled: false,
        uia_dialog_like_only: false,
        uia_max_elements: 321,
        skip_file_dialogs: false,
        skip_progress_dialogs: false,
        exclude_processes: vec!["a.exe".into(), "b.exe".into()],
        exclude_titles: vec!["Title One".into(), "Title Two".into()],
        extra_button_labels: vec!["実行".into(), "Install".into()],
        log_level: 2,
    };

    let restored = Config::parse_ini(&original.to_ini(&Catalog::new()));

    assert_eq!(restored.language, original.language);
    assert_eq!(restored.theme, original.theme);
    assert_eq!(restored.enabled, original.enabled);
    assert_eq!(restored.delay_ms, original.delay_ms);
    assert_eq!(restored.sound_enabled, original.sound_enabled);
    assert_eq!(restored.wav_path, original.wav_path);
    assert_eq!(restored.move_animation, original.move_animation);
    assert_eq!(restored.move_duration_ms, original.move_duration_ms);
    assert_eq!(restored.move_wobble, original.move_wobble);
    assert_eq!(restored.cursor_animation, original.cursor_animation);
    assert_eq!(restored.ripple_enabled, original.ripple_enabled);
    assert_eq!(restored.ripple_size, original.ripple_size);
    assert_eq!(restored.ripple_duration_ms, original.ripple_duration_ms);
    assert_eq!(restored.ripple_color, original.ripple_color);
    assert_eq!(restored.abort_on_user_move, original.abort_on_user_move);
    assert_eq!(restored.user_move_threshold, original.user_move_threshold);
    assert_eq!(restored.standard_dialog_only, original.standard_dialog_only);
    assert_eq!(restored.require_foreground, original.require_foreground);
    assert_eq!(restored.skip_if_cursor_inside, original.skip_if_cursor_inside);
    assert_eq!(restored.move_once_per_dialog, original.move_once_per_dialog);
    assert_eq!(restored.ignore_own_process, original.ignore_own_process);
    assert_eq!(restored.watch_title_changes, original.watch_title_changes);
    assert_eq!(restored.watch_focus_changes, original.watch_focus_changes);
    assert_eq!(restored.follow_dialog_default_button, original.follow_dialog_default_button);
    assert_eq!(restored.follow_default_in_browser, original.follow_default_in_browser);
    assert_eq!(restored.uia_enabled, original.uia_enabled);
    assert_eq!(restored.uia_dialog_like_only, original.uia_dialog_like_only);
    assert_eq!(restored.uia_max_elements, original.uia_max_elements);
    assert_eq!(restored.skip_file_dialogs, original.skip_file_dialogs);
    assert_eq!(restored.skip_progress_dialogs, original.skip_progress_dialogs);
    assert_eq!(restored.exclude_processes, original.exclude_processes);
    assert_eq!(restored.exclude_titles, original.exclude_titles);
    assert_eq!(restored.extra_button_labels, original.extra_button_labels);
    assert_eq!(restored.log_level, original.log_level);
}

/// Every field of the settings appears as a key in the written text.
#[test]
fn every_key_is_written() {
    let ini = Config::default().to_ini(&Catalog::new());
    for key in [
        "language",
        "theme",
        "enabled",
        "delay_ms",
        "sound_enabled",
        "wav_path",
        "move_animation",
        "move_duration_ms",
        "move_wobble",
        "cursor_animation",
        "ripple_enabled",
        "ripple_size",
        "ripple_duration_ms",
        "ripple_color",
        "abort_on_user_move",
        "user_move_threshold",
        "standard_dialog_only",
        "require_foreground",
        "skip_if_cursor_inside",
        "move_once_per_dialog",
        "ignore_own_process",
        "watch_title_changes",
        "watch_focus_changes",
        "follow_dialog_default_button",
        "follow_default_in_browser",
        "uia_enabled",
        "uia_dialog_like_only",
        "uia_max_elements",
        "skip_file_dialogs",
        "skip_progress_dialogs",
        "exclude_processes",
        "exclude_titles",
        "extra_button_labels",
        "log_level",
    ] {
        assert!(
            ini.lines().any(|l| l.starts_with(&format!("{key} ="))),
            "{key} is not written to config.ini"
        );
    }
}

/// Values that cannot be read fall back to the defaults instead of breaking anything.
#[test]
fn invalid_values_fall_back_to_defaults() {
    let d = Config::default();
    let cfg = Config::parse_ini(
        "delay_ms = not a number\n\
         log_level = 99\n\
         move_wobble = -5\n\
         uia_max_elements = 1\n\
         enabled = maybe\n\
         = orphan value\n\
         no equals sign here\n",
    );
    assert_eq!(cfg.delay_ms, d.delay_ms, "a value that is no number falls back");
    assert_eq!(cfg.log_level, 2, "a value above the range is clamped to its top");
    assert_eq!(cfg.move_wobble, d.move_wobble, "a negative value falls back");
    assert_eq!(cfg.uia_max_elements, 20, "a value below the range is clamped to its bottom");
    assert_eq!(cfg.enabled, d.enabled, "a value that is no boolean falls back");
}

/// A language code never names an absolute path or a parent directory.
#[test]
fn language_rejects_path_traversal() {
    for evil in [
        r"C:\Windows\System32\config\SAM",
        r"..\..\secret",
        "../../../etc/passwd",
        r"\\attacker\share\x",
    ] {
        let cfg = Config::parse_ini(&format!("language = {evil}\n"));
        assert_eq!(
            cfg.language,
            Config::default().language,
            "an invalid language code was accepted: {evil}"
        );
    }
}

/// Exclusions match without regard to case.
#[test]
fn exclusion_matching_ignores_case() {
    assert!(contains_ignore_ascii_case("FastCopy ver5.11", "fastcopy"));
    assert!(contains_ignore_ascii_case("fastcopy ver5.11", "FastCopy"));
    assert!(!contains_ignore_ascii_case("FastCopy", ""));
    assert!(!contains_ignore_ascii_case("", "x"));
}

/// What was written is kept as written; case is ignored only when comparing.
#[test]
fn exclusion_values_keep_their_original_case() {
    let cfg = Config::parse_ini("exclude_titles = FastCopy, GIMP\n");
    assert_eq!(cfg.exclude_titles, vec!["FastCopy", "GIMP"]);
}

/// A comma-separated list cannot grow without bound.
#[test]
fn comma_separated_lists_are_capped() {
    let many = (0..MAX_LIST_ITEMS + 50)
        .map(|i| format!("t{i}"))
        .collect::<Vec<_>>()
        .join(",");
    let cfg = Config::parse_ini(&format!("exclude_titles = {many}\n"));
    assert_eq!(cfg.exclude_titles.len(), MAX_LIST_ITEMS);
    assert_eq!(cfg.exclude_titles[0], "t0", "the first items are the ones kept");
}

#[test]
fn bool_parsing_accepts_common_spellings() {
    for v in ["true", "TRUE", "1", "yes", "on"] {
        assert!(parse_bool(v, false), "{v} does not read as true");
    }
    for v in ["false", "FALSE", "0", "no", "off"] {
        assert!(!parse_bool(v, true), "{v} does not read as false");
    }
    assert!(parse_bool("???", true), "an unknown value keeps the default");
}
