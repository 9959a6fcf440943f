use dialog_cursor_mover::config::{
    config_path, contains_ignore_ascii_case, file_changed_externally, log_path, parse_list, Config,
};
use dialog_cursor_mover::lang::Catalog;

#[test]
fn default_settings_survive_a_round_trip() {
    let d = Config::default();
    let back = Config::parse_ini(&d.to_ini(&Catalog::new()));
    assert_eq!(back.language, d.language);
    assert_eq!(back.enabled, d.enabled);
    assert_eq!(back.delay_ms, d.delay_ms);
    assert_eq!(back.uia_max_elements, d.uia_max_elements);
    assert_eq!(back.ripple_color, d.ripple_color);
    assert_eq!(back.exclude_titles, d.exclude_titles);
    assert_eq!(back.log_level, d.log_level);
}

#[test]
fn unknown_keys_and_comments_are_ignored() {
    let cfg = Config::parse_ini("; a comment\n# another\nno_such_key = 5\ndelay_ms = 300\n");
    assert_eq!(cfg.delay_ms, 300);
    assert_eq!(cfg.enabled, Config::default().enabled);
}

#[test]
fn hex_colours_are_read() {
    let cfg = Config::parse_ini("ripple_color = 0x00FF00\n");
    assert_eq!(cfg.ripple_color, 0x00FF00);
}

#[test]
fn lists_are_trimmed_and_empty_items_dropped() {
    assert_eq!(parse_list(" a.exe ,, b.exe ,"), vec!["a.exe".to_string(), "b.exe".to_string()]);
    assert!(parse_list("").is_empty());
}

#[test]
fn a_valid_language_code_is_kept() {
    let cfg = Config::parse_ini("language = ja\n");
    assert_eq!(cfg.language, "ja");
}

#[test]
fn theme_sound_replaces_only_the_default_sound() {
    let theme_sound = r"C:\app\theme\cat\sound.wav".to_string();
    let cfg = Config::default();
    assert_eq!(cfg.effective_wav(Some(theme_sound.clone())), theme_sound);
    assert_eq!(cfg.effective_wav(None), cfg.wav_path);
    let mut own = Config::default();
    own.wav_path = r"C:\sounds\beep.wav".to_string();
    assert_eq!(own.effective_wav(None), r"C:\sounds\beep.wav");
    assert_eq!(own.effective_wav(Some(theme_sound)), r"C:\sounds\beep.wav");
}

#[test]
fn settings_files_sit_in_the_given_directory() {
    assert_eq!(config_path(r"C:\Users\me\AppData\Roaming\DialogCursorMover"), r"C:\Users\me\AppData\Roaming\DialogCursorMover\config.ini");
    assert!(log_path(r"C:\x").starts_with(r"C:\x\"));
}

#[test]
fn an_external_change_is_a_change_of_the_stamp() {
    assert!(!file_changed_externally(Some(5), Some(5)));
    assert!(file_changed_externally(Some(5), Some(6)));
    assert!(!file_changed_externally(None, None));
}

#[test]
fn case_is_ignored_only_for_ascii_letters() {
    assert!(contains_ignore_ascii_case("Hello World", "WORLD"));
    assert!(!contains_ignore_ascii_case("Hello", "World"));
}

#[test]
fn flags_copy_the_hot_path_settings() {
    let cfg = Config::parse_ini("enabled = false\ndelay_ms = 42\n");
    let f = cfg.flags();
    assert!(!f.enabled);
    assert_eq!(f.delay_ms, 42);
    assert_eq!(f.uia_enabled, cfg.uia_enabled);
}
