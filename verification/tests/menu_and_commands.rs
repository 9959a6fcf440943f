use dialog_cursor_mover::config::Config;
use dialog_cursor_mover::lang::{fallback_of, Catalog};
use dialog_cursor_mover::menu::{menu_layout, MenuEntry};
use dialog_cursor_mover::tray::{
    apply_command, classify_command, saves_settings, MenuCommand, CMD_DELAY_BASE, CMD_EXIT,
    CMD_LANG_BASE, CMD_LOG_BASE, CMD_SPEED_BASE, CMD_THEME_BASE, CMD_TOGGLE_ENABLED,
    CMD_TOGGLE_MOVE_ANIM,
};

#[test]
fn menu_ids_name_their_commands() {
    assert_eq!(classify_command(CMD_TOGGLE_ENABLED), MenuCommand::ToggleEnabled);
    assert_eq!(classify_command(CMD_EXIT), MenuCommand::Exit);
    assert_eq!(classify_command(CMD_DELAY_BASE + 7), MenuCommand::Delay(7));
    assert_eq!(classify_command(CMD_DELAY_BASE + 8), MenuCommand::Unknown);
    assert_eq!(classify_command(CMD_SPEED_BASE + 2), MenuCommand::Speed(2));
    assert_eq!(classify_command(CMD_LOG_BASE + 2), MenuCommand::LogLevel(2));
    assert_eq!(classify_command(CMD_LANG_BASE + 31), MenuCommand::Language(31));
    assert_eq!(classify_command(CMD_THEME_BASE + 32), MenuCommand::Theme(32));
    assert_eq!(classify_command(CMD_THEME_BASE + 33), MenuCommand::Unknown);
    assert_eq!(classify_command(0), MenuCommand::Unknown);
}

#[test]
fn toggling_twice_gives_the_settings_back() {
    let cfg = Config::default();
    let once = apply_command(cfg.clone(), MenuCommand::ToggleSound, None).expect("a change");
    assert_eq!(once.sound_enabled, !cfg.sound_enabled);
    let twice = apply_command(once, MenuCommand::ToggleSound, None).expect("a change");
    assert_eq!(twice.sound_enabled, cfg.sound_enabled);
    assert_eq!(twice.delay_ms, cfg.delay_ms);
}

#[test]
fn presets_set_their_values() {
    let cfg = Config::default();
    assert_eq!(apply_command(cfg.clone(), MenuCommand::Delay(4), None).unwrap().delay_ms, 500);
    assert_eq!(apply_command(cfg.clone(), MenuCommand::Speed(0), None).unwrap().move_duration_ms, 160);
    assert_eq!(apply_command(cfg.clone(), MenuCommand::LogLevel(0), None).unwrap().log_level, 0);
    assert!(apply_command(cfg.clone(), MenuCommand::Delay(8), None).is_none());
    assert!(apply_command(cfg, MenuCommand::About, None).is_none());
}

#[test]
fn choosing_a_theme_follows_it_with_the_cursor() {
    let mut cfg = Config::default();
    cfg.cursor_animation = false;
    let cat = apply_command(cfg.clone(), MenuCommand::Theme(1), Some("cat".to_string())).unwrap();
    assert_eq!(cat.theme, "cat");
    assert!(cat.cursor_animation);
    let back = apply_command(cat.clone(), MenuCommand::Theme(0), None).unwrap();
    assert_eq!(back.theme, "");
    assert!(!back.cursor_animation);
    // choosing the theme in use changes nothing else
    let mut same = cat.clone();
    same.cursor_animation = false;
    let again = apply_command(same, MenuCommand::Theme(1), Some("cat".to_string())).unwrap();
    assert!(!again.cursor_animation);
    // an entry that is gone changes nothing
    assert!(apply_command(cat, MenuCommand::Theme(3), None).is_none());
}

#[test]
fn a_cancelled_picker_changes_nothing() {
    let cfg = Config::default();
    assert!(apply_command(cfg.clone(), MenuCommand::ChooseWav, None).is_none());
    let picked = apply_command(cfg, MenuCommand::ChooseWav, Some(r"C:\a.wav".to_string())).unwrap();
    assert_eq!(picked.wav_path, r"C:\a.wav");
}

#[test]
fn only_a_reload_is_not_saved() {
    assert!(!saves_settings(MenuCommand::ReloadConfig));
    assert!(saves_settings(MenuCommand::ToggleEnabled));
}

fn items(menu: &[MenuEntry]) -> Vec<(String, u32, bool, bool)> {
    menu.iter()
        .filter_map(|e| match e {
            MenuEntry::Item { text, id, checked, grayed } => Some((text.clone(), *id, *checked, *grayed)),
            _ => None,
        })
        .collect()
}

#[test]
fn the_menu_shows_the_settings() {
    let cat = Catalog::new();
    let mut cfg = Config::default();
    cfg.delay_ms = 300;
    cfg.move_animation = false;
    cfg.theme = "dog".to_string();
    cfg.language = "JA".to_string();
    let themes = vec!["cat".to_string(), "dog".to_string()];
    let languages = vec![("en".to_string(), "English".to_string()), ("ja".to_string(), "日本語".to_string())];
    let menu = menu_layout(&cat, &cfg, &themes, &languages, true, Some("beep.wav".to_string()));
    let all = items(&menu);
    assert_eq!(all[0], (fallback_of("menu.enabled").to_string(), CMD_TOGGLE_ENABLED, cfg.enabled, false));
    // the delay preset in use is checked, and only that one
    let delays: Vec<_> = all.iter().filter(|i| i.1 >= CMD_DELAY_BASE && i.1 < CMD_DELAY_BASE + 8).collect();
    assert_eq!(delays.len(), 8);
    assert_eq!(delays.iter().filter(|i| i.2).count(), 1);
    assert_eq!(delays[3].0, "300 ms");
    assert!(delays[3].2);
    // the theme in use is checked
    let dog = all.iter().find(|i| i.1 == CMD_THEME_BASE + 2).unwrap();
    assert_eq!(dog.0, "dog");
    assert!(dog.2);
    // the language is compared without case
    let ja = all.iter().find(|i| i.1 == CMD_LANG_BASE + 1).unwrap();
    assert!(ja.2);
    // the speed submenu is grayed while gliding is off
    let speed_end = menu.iter().find(|e| matches!(e, MenuEntry::End { text, .. } if text == fallback_of("menu.move_speed")));
    assert!(matches!(speed_end, Some(MenuEntry::End { grayed: true, .. })));
    // submenus open and close in pairs
    let begins = menu.iter().filter(|e| matches!(e, MenuEntry::Begin)).count();
    let ends = menu.iter().filter(|e| matches!(e, MenuEntry::End { .. })).count();
    assert_eq!(begins, 5);
    assert_eq!(begins, ends);
    // the sound file in use is shown
    assert!(all.iter().any(|i| i.1 == 0 && i.3 && i.0.contains("beep.wav")));
    // every command offered is understood
    for i in &all {
        if i.1 != 0 {
            assert_ne!(classify_command(i.1), MenuCommand::Unknown);
        }
    }
    assert_eq!(all.last().unwrap().1, CMD_EXIT);
}

#[test]
fn one_language_gives_no_language_menu() {
    let cat = Catalog::new();
    let cfg = Config::default();
    let languages = vec![("en".to_string(), "English".to_string())];
    let menu = menu_layout(&cat, &cfg, &[], &languages, false, None);
    let begins = menu.iter().filter(|e| matches!(e, MenuEntry::Begin)).count();
    assert_eq!(begins, 4);
    let anim = items(&menu).into_iter().find(|i| i.1 == CMD_TOGGLE_MOVE_ANIM).unwrap();
    assert_eq!(anim.2, cfg.move_animation);
    let unset = fallback_of("msg.sound_unset");
    assert!(items(&menu).iter().any(|i| i.1 == 0 && i.0.contains(unset)));
}
