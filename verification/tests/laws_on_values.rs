use dialog_cursor_mover::autostart::xml_escape;
use dialog_cursor_mover::config::{config_size_ok, Config, MAX_CONFIG_BYTES};
use dialog_cursor_mover::dialog::{center_of, point_in_rect, Rect};
use dialog_cursor_mover::lang::{file_acceptable, is_valid_code, Catalog, MAX_FILE_BYTES};
use dialog_cursor_mover::log::format_line;
use dialog_cursor_mover::menu::tray_tip;
use dialog_cursor_mover::theme::{asset_acceptable, is_valid_name, MAX_ASSET_BYTES};

#[test]
fn the_centre_of_a_button_lies_on_it() {
    for r in [
        Rect { left: 0, top: 0, right: 1, bottom: 1 },
        Rect { left: -5, top: -9, right: -4, bottom: 2 },
        Rect { left: 100, top: 500, right: 181, bottom: 531 },
    ] {
        assert!(point_in_rect(&center_of(&r), &r));
    }
}

#[test]
fn a_log_message_cannot_forge_lines() {
    let line = format_line("2024-01-01 00:00:00.000", "title\r\n[2024-01-01] forged\nmore");
    assert!(line.ends_with("\r\n"));
    assert!(!line[..line.len() - 2].contains('\n'));
    assert!(!line[..line.len() - 2].contains('\r'));
}

#[test]
fn escaped_values_hold_no_markup() {
    let e = xml_escape("</Command><Exec>evil</Exec>&");
    assert!(!e.contains('<') && !e.contains('>'));
    assert_eq!(xml_escape("a&lt;"), "a&amp;lt;");
}

#[test]
fn settings_read_from_any_text_are_sane() {
    for text in [
        "language = ..\\..\\x\ntheme = C:\\evil\nlog_level = 7\nuia_max_elements = 0\n",
        "language = DE\ntheme = \nlog_level = -1\nuia_max_elements = 999999\n",
        "\u{feff}garbage\n=\n[section]\nlanguage=\n",
    ] {
        let cfg = Config::parse_ini(text);
        assert!(is_valid_code(&cfg.language), "{}", cfg.language);
        assert!(cfg.theme.is_empty() || is_valid_name(&cfg.theme));
        assert!(cfg.log_level <= 2);
        assert!((20..=5000).contains(&cfg.uia_max_elements));
    }
    assert_eq!(Config::parse_ini("language = DE\n").language, "de");
}

#[test]
fn files_of_unreasonable_size_are_not_read() {
    assert!(config_size_ok(MAX_CONFIG_BYTES));
    assert!(!config_size_ok(MAX_CONFIG_BYTES + 1));
    assert!(file_acceptable(true, MAX_FILE_BYTES));
    assert!(!file_acceptable(false, 10));
    assert!(!file_acceptable(true, MAX_FILE_BYTES + 1));
    assert!(asset_acceptable(true, MAX_ASSET_BYTES));
    assert!(!asset_acceptable(true, MAX_ASSET_BYTES + 1));
    assert!(!asset_acceptable(false, 1));
}

#[test]
fn the_tray_tip_tells_the_state() {
    let cat = Catalog::from_text("tip.status = [{0}|{1}|{2}]\ntip.on = ON\ntip.off = OFF\n");
    let mut cfg = Config::default();
    cfg.enabled = true;
    cfg.delay_ms = 250;
    cfg.sound_enabled = false;
    assert_eq!(tray_tip(&cat, &cfg), "[ON|250|OFF]");
}
