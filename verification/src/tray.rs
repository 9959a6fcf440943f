//! The tray menu: its command ids, what each command changes in the
//! settings, and the layout of the menu.
use vstd::prelude::*;
use crate::config::{flag_of, with_flag, with_number, Config, Key, Settings};

verus! {

pub const CMD_TOGGLE_ENABLED: u32 = 1001;
pub const CMD_TOGGLE_SOUND: u32 = 1002;
pub const CMD_CHOOSE_WAV: u32 = 1003;
pub const CMD_TEST_SOUND: u32 = 1004;
pub const CMD_OPEN_CONFIG: u32 = 1005;
pub const CMD_RELOAD_CONFIG: u32 = 1006;
pub const CMD_ABOUT: u32 = 1007;
pub const CMD_TEST_DIALOG: u32 = 1008;
pub const CMD_OPEN_LOG: u32 = 1009;
pub const CMD_TOGGLE_MOVE_ANIM: u32 = 1010;
pub const CMD_TOGGLE_CURSOR_ANIM: u32 = 1011;
pub const CMD_TOGGLE_SKIP_FILE: u32 = 1012;
pub const CMD_TOGGLE_AUTOSTART: u32 = 1013;
pub const CMD_TOGGLE_RIPPLE: u32 = 1014;
pub const CMD_EXIT: u32 = 1099;
/// Delay presets: `CMD_DELAY_BASE + index`.
pub const CMD_DELAY_BASE: u32 = 1100;
/// Log levels: `CMD_LOG_BASE + level` for levels 0 to 2.
pub const CMD_LOG_BASE: u32 = 1200;
/// Running speeds: `CMD_SPEED_BASE + index`.
pub const CMD_SPEED_BASE: u32 = 1400;
/// Languages: `CMD_LANG_BASE + index`.
pub const CMD_LANG_BASE: u32 = 1500;
/// At most this many languages are listed.
pub const MAX_LANGUAGES: usize = 32;
/// Themes: `CMD_THEME_BASE + index`, index 0 being the default (no theme).
pub const CMD_THEME_BASE: u32 = 1600;
/// At most this many theme entries, the default included, are listed.
pub const MAX_THEMES: usize = 33;
/// Number of delay presets.
pub const DELAY_PRESET_COUNT: usize = 8;
/// Number of running speed presets.
pub const SPEED_PRESET_COUNT: usize = 3;

/// The delay presets in milliseconds.
pub open spec fn delay_presets() -> Seq<u32> {
    seq![0u32, 100, 200, 300, 500, 800, 1000, 2000]
}

/// The running durations of the speed presets in milliseconds: fast, normal, slow.
pub open spec fn speed_presets() -> Seq<u32> {
    seq![160u32, 320, 640]
}

/// The delay preset `i`.
pub fn delay_preset(i: usize) -> (ms: u32)
    requires
        i < DELAY_PRESET_COUNT,
    ensures
        ms == delay_presets()[i as int],
{
    let v: Vec<u32> = vec![0, 100, 200, 300, 500, 800, 1000, 2000];
    v[i]
}

/// The running duration of the speed preset `i`.
pub fn speed_preset(i: usize) -> (ms: u32)
    requires
        i < SPEED_PRESET_COUNT,
    ensures
        ms == speed_presets()[i as int],
{
    let v: Vec<u32> = vec![160, 320, 640];
    v[i]
}

/// A command of the tray menu.
#[derive(Clone, Copy, PartialEq, Eq, Structural, Debug)]
pub enum MenuCommand {
    ToggleEnabled,
    ToggleSound,
    ToggleMoveAnimation,
    ToggleRipple,
    /// The theme entry with this index (0 = no theme).
    Theme(usize),
    ToggleSkipFileDialogs,
    ToggleAutostart,
    ToggleCursorAnimation,
    ChooseWav,
    TestSound,
    TestDialog,
    OpenLog,
    OpenConfig,
    ReloadConfig,
    About,
    Exit,
    /// The speed preset with this index.
    Speed(usize),
    /// The language with this index in the list.
    Language(usize),
    /// The log level 0, 1 or 2.
    LogLevel(u32),
    /// The delay preset with this index.
    Delay(usize),
    /// An id that is no command.
    Unknown,
}

/// The command with the menu id `id`.
pub open spec fn command_of(id: u32) -> MenuCommand {
    if id == CMD_TOGGLE_ENABLED { MenuCommand::ToggleEnabled }
    else if id == CMD_TOGGLE_SOUND { MenuCommand::ToggleSound }
    else if id == CMD_TOGGLE_MOVE_ANIM { MenuCommand::ToggleMoveAnimation }
    else if id == CMD_TOGGLE_RIPPLE { MenuCommand::ToggleRipple }
    else if CMD_THEME_BASE <= id && id - CMD_THEME_BASE < MAX_THEMES { MenuCommand::Theme((id - CMD_THEME_BASE) as usize) }
    else if id == CMD_TOGGLE_SKIP_FILE { MenuCommand::ToggleSkipFileDialogs }
    else if id == CMD_TOGGLE_AUTOSTART { MenuCommand::ToggleAutostart }
    else if id == CMD_TOGGLE_CURSOR_ANIM { MenuCommand::ToggleCursorAnimation }
    else if id == CMD_CHOOSE_WAV { MenuCommand::ChooseWav }
    else if id == CMD_TEST_SOUND { MenuCommand::TestSound }
    else if id == CMD_TEST_DIALOG { MenuCommand::TestDialog }
    else if id == CMD_OPEN_LOG { MenuCommand::OpenLog }
    else if id == CMD_OPEN_CONFIG { MenuCommand::OpenConfig }
    else if id == CMD_RELOAD_CONFIG { MenuCommand::ReloadConfig }
    else if id == CMD_ABOUT { MenuCommand::About }
    else if id == CMD_EXIT { MenuCommand::Exit }
    else if CMD_SPEED_BASE <= id && id - CMD_SPEED_BASE < SPEED_PRESET_COUNT { MenuCommand::Speed((id - CMD_SPEED_BASE) as usize) }
    else if CMD_LANG_BASE <= id && id - CMD_LANG_BASE < MAX_LANGUAGES { MenuCommand::Language((id - CMD_LANG_BASE) as usize) }
    else if CMD_LOG_BASE <= id && id <= CMD_LOG_BASE + 2 { MenuCommand::LogLevel((id - CMD_LOG_BASE) as u32) }
    else if CMD_DELAY_BASE <= id && id - CMD_DELAY_BASE < DELAY_PRESET_COUNT { MenuCommand::Delay((id - CMD_DELAY_BASE) as usize) }
    else { MenuCommand::Unknown }
}

/// The command that the menu id `id` stands for.
pub fn classify_command(id: u32) -> (c: MenuCommand)
    ensures
        c == command_of(id),
{
    if id == CMD_TOGGLE_ENABLED { MenuCommand::ToggleEnabled }
    else if id == CMD_TOGGLE_SOUND { MenuCommand::ToggleSound }
    else if id == CMD_TOGGLE_MOVE_ANIM { MenuCommand::ToggleMoveAnimation }
    else if id == CMD_TOGGLE_RIPPLE { MenuCommand::ToggleRipple }
    else if CMD_THEME_BASE <= id && ((id - CMD_THEME_BASE) as usize) < MAX_THEMES { MenuCommand::Theme((id - CMD_THEME_BASE) as usize) }
    else if id == CMD_TOGGLE_SKIP_FILE { MenuCommand::ToggleSkipFileDialogs }
    else if id == CMD_TOGGLE_AUTOSTART { MenuCommand::ToggleAutostart }
    else if id == CMD_TOGGLE_CURSOR_ANIM { MenuCommand::ToggleCursorAnimation }
    else if id == CMD_CHOOSE_WAV { MenuCommand::ChooseWav }
    else if id == CMD_TEST_SOUND { MenuCommand::TestSound }
    else if id == CMD_TEST_DIALOG { MenuCommand::TestDialog }
    else if id == CMD_OPEN_LOG { MenuCommand::OpenLog }
    else if id == CMD_OPEN_CONFIG { MenuCommand::OpenConfig }
    else if id == CMD_RELOAD_CONFIG { MenuCommand::ReloadConfig }
    else if id == CMD_ABOUT { MenuCommand::About }
    else if id == CMD_EXIT { MenuCommand::Exit }
    else if CMD_SPEED_BASE <= id && ((id - CMD_SPEED_BASE) as usize) < SPEED_PRESET_COUNT { MenuCommand::Speed((id - CMD_SPEED_BASE) as usize) }
    else if CMD_LANG_BASE <= id && ((id - CMD_LANG_BASE) as usize) < MAX_LANGUAGES { MenuCommand::Language((id - CMD_LANG_BASE) as usize) }
    else if CMD_LOG_BASE <= id && id <= CMD_LOG_BASE + 2 { MenuCommand::LogLevel(id - CMD_LOG_BASE) }
    else if CMD_DELAY_BASE <= id && ((id - CMD_DELAY_BASE) as usize) < DELAY_PRESET_COUNT { MenuCommand::Delay((id - CMD_DELAY_BASE) as usize) }
    else { MenuCommand::Unknown }
}

/// The settings after choosing the theme entry `i`, whose name is `choice`
/// for entries after the first (`None` when that entry is gone). Choosing a
/// theme other than the current one also turns the running cursor on for a
/// theme and off for the default.
pub open spec fn theme_after(c: Settings, i: usize, choice: Option<Seq<char>>) -> Option<Settings> {
    let selected = if i == 0 { Some(Seq::<char>::empty()) } else { choice };
    match selected {
        None => None,
        Some(t) => {
            let c1 = if t != c.theme { with_flag(c, Key::CursorAnimation, t.len() > 0) } else { c };
            Some(Settings { theme: t, ..c1 })
        },
    }
}

/// The flag toggled by a command, if it toggles one.
pub open spec fn toggled_flag(cmd: MenuCommand) -> Option<Key> {
    match cmd {
        MenuCommand::ToggleEnabled => Some(Key::Enabled),
        MenuCommand::ToggleSound => Some(Key::SoundEnabled),
        MenuCommand::ToggleMoveAnimation => Some(Key::MoveAnimation),
        MenuCommand::ToggleRipple => Some(Key::RippleEnabled),
        MenuCommand::ToggleSkipFileDialogs => Some(Key::SkipFileDialogs),
        MenuCommand::ToggleCursorAnimation => Some(Key::CursorAnimation),
        _ => None,
    }
}

/// The settings after a command that changes them, given `choice`: for a
/// theme entry after the first, the theme's name (`None` when the entry is no
/// longer in the list, see [`theme_after`]); for a language, its code (`None`
/// likewise); for choosing a sound, the file picked (`None` when the picker
/// was cancelled). `None` when the command changes no setting.
pub open spec fn settings_after(c: Settings, cmd: MenuCommand, choice: Option<Seq<char>>) -> Option<Settings> {
    match toggled_flag(cmd) {
        Some(k) => Some(with_flag(c, k, !flag_of(c, k))),
        None => match cmd {
            MenuCommand::Theme(i) => theme_after(c, i, choice),
            MenuCommand::ChooseWav => match choice {
                None => None,
                Some(p) => Some(Settings { wav_path: p, ..c }),
            },
            MenuCommand::Language(_) => match choice {
                None => None,
                Some(code) => Some(Settings { language: code, ..c }),
            },
            MenuCommand::Speed(i) => if i < SPEED_PRESET_COUNT { Some(with_number(c, Key::MoveDurationMs, speed_presets()[i as int])) } else { None },
            MenuCommand::LogLevel(l) => Some(with_number(c, Key::LogLevel, l)),
            MenuCommand::Delay(i) => if i < DELAY_PRESET_COUNT { Some(with_number(c, Key::DelayMs, delay_presets()[i as int])) } else { None },
            _ => None,
        },
    }
}

fn toggle(cfg: Config, k: Key) -> (r: Config)
    requires
        crate::config::is_flag(k),
    ensures
        r@ === with_flag(cfg@, k, !flag_of(cfg@, k)),
{
    let b = !cfg.flag(k);
    cfg.with_flag(k, b)
}

fn choose_theme(cfg: Config, i: usize, choice: Option<String>) -> (r: Option<Config>)
    ensures
        r matches Some(n) ==> theme_after(cfg@, i, match choice { Some(s) => Some(s@), None => None }) === Some(n@),
        r is None <==> theme_after(cfg@, i, match choice { Some(s) => Some(s@), None => None }) is None,
{
    let selected = if i == 0 {
        String::new()
    } else {
        match choice {
            None => return None,
            Some(t) => t,
        }
    };
    let same = crate::text::chars_eq(&crate::text::chars_of(selected.as_str()), &crate::text::chars_of(cfg.theme.as_str()));
    let c1 = if !same {
        let on = !selected.as_str().is_empty();
        cfg.with_flag(Key::CursorAnimation, on)
    } else {
        cfg
    };
    Some(c1.set_theme(selected))
}

/// The settings after the command `cmd` (see [`settings_after`]), or `None`
/// when it changes none.
pub fn apply_command(cfg: Config, cmd: MenuCommand, choice: Option<String>) -> (r: Option<Config>)
    ensures
        r matches Some(n) ==> settings_after(cfg@, cmd, match choice { Some(s) => Some(s@), None => None }) === Some(n@),
        r is None <==> settings_after(cfg@, cmd, match choice { Some(s) => Some(s@), None => None }) is None,
{
    match cmd {
        MenuCommand::ToggleEnabled => Some(toggle(cfg, Key::Enabled)),
        MenuCommand::ToggleSound => Some(toggle(cfg, Key::SoundEnabled)),
        MenuCommand::ToggleMoveAnimation => Some(toggle(cfg, Key::MoveAnimation)),
        MenuCommand::ToggleRipple => Some(toggle(cfg, Key::RippleEnabled)),
        MenuCommand::ToggleSkipFileDialogs => Some(toggle(cfg, Key::SkipFileDialogs)),
        MenuCommand::ToggleCursorAnimation => Some(toggle(cfg, Key::CursorAnimation)),
        MenuCommand::Theme(i) => choose_theme(cfg, i, choice),
        MenuCommand::ChooseWav => match choice {
            None => None,
            Some(p) => Some(cfg.set_wav_path(p)),
        },
        MenuCommand::Language(_) => match choice {
            None => None,
            Some(code) => Some(cfg.set_language(code)),
        },
        MenuCommand::Speed(i) => {
            if i < SPEED_PRESET_COUNT {
                let ms = speed_preset(i);
                Some(cfg.with_number(Key::MoveDurationMs, ms))
            } else {
                None
            }
        },
        MenuCommand::LogLevel(l) => Some(cfg.with_number(Key::LogLevel, l)),
        MenuCommand::Delay(i) => {
            if i < DELAY_PRESET_COUNT {
                let ms = delay_preset(i);
                Some(cfg.with_number(Key::DelayMs, ms))
            } else {
                None
            }
        },
        _ => None,
    }
}

/// Whether the settings changed by `cmd` are written back to the file:
/// every change but the one made by reloading the file.
pub fn saves_settings(cmd: MenuCommand) -> (b: bool)
    ensures
        b == !(cmd is ReloadConfig),
{
    match cmd {
        MenuCommand::ReloadConfig => false,
        _ => true,
    }
}

#[verifier::spinoff_prover]
proof fn lemma_enabled_twice(c: Settings, choice: Option<Seq<char>>)
    ensures
        settings_after(c, MenuCommand::ToggleEnabled, choice) === Some(with_flag(c, Key::Enabled, !c.enabled)),
        settings_after(with_flag(c, Key::Enabled, !c.enabled), MenuCommand::ToggleEnabled, choice) === Some(c),
{
    assert(with_flag(with_flag(c, Key::Enabled, !c.enabled), Key::Enabled, c.enabled) === c);
}

#[verifier::spinoff_prover]
proof fn lemma_sound_enabled_twice(c: Settings, choice: Option<Seq<char>>)
    ensures
        settings_after(c, MenuCommand::ToggleSound, choice) === Some(with_flag(c, Key::SoundEnabled, !c.sound_enabled)),
        settings_after(with_flag(c, Key::SoundEnabled, !c.sound_enabled), MenuCommand::ToggleSound, choice) === Some(c),
{
    assert(with_flag(with_flag(c, Key::SoundEnabled, !c.sound_enabled), Key::SoundEnabled, c.sound_enabled) === c);
}

#[verifier::spinoff_prover]
proof fn lemma_move_animation_twice(c: Settings, choice: Option<Seq<char>>)
    ensures
        settings_after(c, MenuCommand::ToggleMoveAnimation, choice) === Some(with_flag(c, Key::MoveAnimation, !c.move_animation)),
        settings_after(with_flag(c, Key::MoveAnimation, !c.move_animation), MenuCommand::ToggleMoveAnimation, choice) === Some(c),
{
    assert(with_flag(with_flag(c, Key::MoveAnimation, !c.move_animation), Key::MoveAnimation, c.move_animation) === c);
}

#[verifier::spinoff_prover]
proof fn lemma_ripple_enabled_twice(c: Settings, choice: Option<Seq<char>>)
    ensures
        settings_after(c, MenuCommand::ToggleRipple, choice) === Some(with_flag(c, Key::RippleEnabled, !c.ripple_enabled)),
        settings_after(with_flag(c, Key::RippleEnabled, !c.ripple_enabled), MenuCommand::ToggleRipple, choice) === Some(c),
{
    assert(with_flag(with_flag(c, Key::RippleEnabled, !c.ripple_enabled), Key::RippleEnabled, c.ripple_enabled) === c);
}

#[verifier::spinoff_prover]
proof fn lemma_skip_file_dialogs_twice(c: Settings, choice: Option<Seq<char>>)
    ensures
        settings_after(c, MenuCommand::ToggleSkipFileDialogs, choice) === Some(with_flag(c, Key::SkipFileDialogs, !c.skip_file_dialogs)),
        settings_after(with_flag(c, Key::SkipFileDialogs, !c.skip_file_dialogs), MenuCommand::ToggleSkipFileDialogs, choice) === Some(c),
{
    assert(with_flag(with_flag(c, Key::SkipFileDialogs, !c.skip_file_dialogs), Key::SkipFileDialogs, c.skip_file_dialogs) === c);
}

#[verifier::spinoff_prover]
proof fn lemma_cursor_animation_twice(c: Settings, choice: Option<Seq<char>>)
    ensures
        settings_after(c, MenuCommand::ToggleCursorAnimation, choice) === Some(with_flag(c, Key::CursorAnimation, !c.cursor_animation)),
        settings_after(with_flag(c, Key::CursorAnimation, !c.cursor_animation), MenuCommand::ToggleCursorAnimation, choice) === Some(c),
{
    assert(with_flag(with_flag(c, Key::CursorAnimation, !c.cursor_animation), Key::CursorAnimation, c.cursor_animation) === c);
}

/// Choosing a switch of the menu twice gives the settings back, whatever
/// else is chosen with it.
pub proof fn lemma_toggle_twice(c: Settings, cmd: MenuCommand, choice: Option<Seq<char>>)
    requires
        toggled_flag(cmd) is Some,
    ensures
        settings_after(c, cmd, choice) is Some,
        settings_after(settings_after(c, cmd, choice).unwrap(), cmd, choice) === Some(c),
{
    match cmd {
        MenuCommand::ToggleEnabled => lemma_enabled_twice(c, choice),
        MenuCommand::ToggleSound => lemma_sound_enabled_twice(c, choice),
        MenuCommand::ToggleMoveAnimation => lemma_move_animation_twice(c, choice),
        MenuCommand::ToggleRipple => lemma_ripple_enabled_twice(c, choice),
        MenuCommand::ToggleSkipFileDialogs => lemma_skip_file_dialogs_twice(c, choice),
        MenuCommand::ToggleCursorAnimation => lemma_cursor_animation_twice(c, choice),
        _ => {},
    }
}

} // verus!
