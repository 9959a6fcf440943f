//! Settings assembled from two sources: each setting taken either from one
//! value or from another, by its position in the order of the file.

use vstd::prelude::*;
use crate::config::{flag_of, is_flag, is_list, is_number, key_at, list_of, number_of, with_flag, with_list, with_number, Key, Settings, KEY_COUNT};

verus! {

/// `x` with the setting `k` taken from `m`.
#[verifier::opaque]
pub open spec fn copy_field(x: Settings, m: Settings, k: Key) -> Settings {
    if is_flag(k) {
        with_flag(x, k, flag_of(m, k))
    } else if is_number(k) {
        with_number(x, k, number_of(m, k))
    } else if is_list(k) {
        with_list(x, k, list_of(m, k))
    } else {
        match k {
            Key::Language => Settings { language: m.language, ..x },
            Key::Theme => Settings { theme: m.theme, ..x },
            Key::WavPath => Settings { wav_path: m.wav_path, ..x },
            _ => Settings { ripple_color: m.ripple_color, ..x },
        }
    }
}

/// `x` with the settings from the `i`-th on (in the order in which they are
/// written) taken from `m`, one after the other.
#[verifier::opaque]
pub open spec fn copy_from(x: Settings, m: Settings, i: nat) -> Settings
    decreases KEY_COUNT - i,
{
    if i >= KEY_COUNT {
        x
    } else {
        copy_from(copy_field(x, m, key_at(i)), m, i + 1)
    }
}

/// Taking the settings from the `i`-th on is taking the `i`-th, then those after it.
pub proof fn lemma_copy_step(x: Settings, m: Settings, i: nat)
    requires
        i < KEY_COUNT,
    ensures
        copy_from(x, m, i) === copy_from(copy_field(x, m, key_at(i)), m, i + 1),
{
    reveal_with_fuel(copy_from, 1);
}

/// Past the last setting nothing is taken.
pub proof fn lemma_copy_end(x: Settings, m: Settings, i: nat)
    requires
        i >= KEY_COUNT,
    ensures
        copy_from(x, m, i) === x,
{
    reveal_with_fuel(copy_from, 1);
}

/// The value of one setting, whatever its kind.
pub enum SettingValue {
    Flag(bool),
    Number(u32),
    Text(Seq<char>),
    List(Seq<Seq<char>>),
}

/// The value of the setting `k` in `s`.
pub open spec fn value_of(s: Settings, k: Key) -> SettingValue {
    match k {
        Key::Language => SettingValue::Text(s.language),
        Key::Theme => SettingValue::Text(s.theme),
        Key::Enabled => SettingValue::Flag(s.enabled),
        Key::DelayMs => SettingValue::Number(s.delay_ms),
        Key::SoundEnabled => SettingValue::Flag(s.sound_enabled),
        Key::WavPath => SettingValue::Text(s.wav_path),
        Key::StandardDialogOnly => SettingValue::Flag(s.standard_dialog_only),
        Key::RequireForeground => SettingValue::Flag(s.require_foreground),
        Key::SkipIfCursorInside => SettingValue::Flag(s.skip_if_cursor_inside),
        Key::MoveOncePerDialog => SettingValue::Flag(s.move_once_per_dialog),
        Key::IgnoreOwnProcess => SettingValue::Flag(s.ignore_own_process),
        Key::MoveAnimation => SettingValue::Flag(s.move_animation),
        Key::MoveDurationMs => SettingValue::Number(s.move_duration_ms),
        Key::MoveWobble => SettingValue::Number(s.move_wobble),
        Key::CursorAnimation => SettingValue::Flag(s.cursor_animation),
        Key::RippleEnabled => SettingValue::Flag(s.ripple_enabled),
        Key::RippleSize => SettingValue::Number(s.ripple_size),
        Key::RippleDurationMs => SettingValue::Number(s.ripple_duration_ms),
        Key::RippleColor => SettingValue::Number(s.ripple_color),
        Key::AbortOnUserMove => SettingValue::Flag(s.abort_on_user_move),
        Key::UserMoveThreshold => SettingValue::Number(s.user_move_threshold),
        Key::WatchTitleChanges => SettingValue::Flag(s.watch_title_changes),
        Key::WatchFocusChanges => SettingValue::Flag(s.watch_focus_changes),
        Key::FollowDialogDefaultButton => SettingValue::Flag(s.follow_dialog_default_button),
        Key::FollowDefaultInBrowser => SettingValue::Flag(s.follow_default_in_browser),
        Key::UiaEnabled => SettingValue::Flag(s.uia_enabled),
        Key::UiaDialogLikeOnly => SettingValue::Flag(s.uia_dialog_like_only),
        Key::UiaMaxElements => SettingValue::Number(s.uia_max_elements),
        Key::LogLevel => SettingValue::Number(s.log_level),
        Key::SkipFileDialogs => SettingValue::Flag(s.skip_file_dialogs),
        Key::SkipProgressDialogs => SettingValue::Flag(s.skip_progress_dialogs),
        Key::ExcludeProcesses => SettingValue::List(s.exclude_processes),
        Key::ExcludeTitles => SettingValue::List(s.exclude_titles),
        Key::ExtraButtonLabels => SettingValue::List(s.extra_button_labels),
    }
}

/// The position of the setting `k` in the order in which they are written.
pub open spec fn key_index(k: Key) -> nat {
    match k {
        Key::Language => 0,
        Key::Theme => 1,
        Key::Enabled => 2,
        Key::DelayMs => 3,
        Key::SoundEnabled => 4,
        Key::WavPath => 5,
        Key::StandardDialogOnly => 6,
        Key::RequireForeground => 7,
        Key::SkipIfCursorInside => 8,
        Key::MoveOncePerDialog => 9,
        Key::IgnoreOwnProcess => 10,
        Key::MoveAnimation => 11,
        Key::MoveDurationMs => 12,
        Key::MoveWobble => 13,
        Key::CursorAnimation => 14,
        Key::RippleEnabled => 15,
        Key::RippleSize => 16,
        Key::RippleDurationMs => 17,
        Key::RippleColor => 18,
        Key::AbortOnUserMove => 19,
        Key::UserMoveThreshold => 20,
        Key::WatchTitleChanges => 21,
        Key::WatchFocusChanges => 22,
        Key::FollowDialogDefaultButton => 23,
        Key::FollowDefaultInBrowser => 24,
        Key::UiaEnabled => 25,
        Key::UiaDialogLikeOnly => 26,
        Key::UiaMaxElements => 27,
        Key::LogLevel => 28,
        Key::SkipFileDialogs => 29,
        Key::SkipProgressDialogs => 30,
        Key::ExcludeProcesses => 31,
        Key::ExcludeTitles => 32,
        Key::ExtraButtonLabels => 33,
    }
}

proof fn lemma_key_index(i: nat, k: Key)
    ensures
        i < KEY_COUNT ==> key_index(key_at(i)) == i,
        key_index(k) < KEY_COUNT,
        key_at(key_index(k)) == k,
{
}

/// Two settings values that agree on every setting are the same.
proof fn lemma_same_values(a: Settings, b: Settings)
    requires
        forall|k: Key| value_of(a, k) == value_of(b, k),
    ensures
        a === b,
{
    assert(value_of(a, Key::Language) == value_of(b, Key::Language));
    assert(value_of(a, Key::Theme) == value_of(b, Key::Theme));
    assert(value_of(a, Key::Enabled) == value_of(b, Key::Enabled));
    assert(value_of(a, Key::DelayMs) == value_of(b, Key::DelayMs));
    assert(value_of(a, Key::SoundEnabled) == value_of(b, Key::SoundEnabled));
    assert(value_of(a, Key::WavPath) == value_of(b, Key::WavPath));
    assert(value_of(a, Key::StandardDialogOnly) == value_of(b, Key::StandardDialogOnly));
    assert(value_of(a, Key::RequireForeground) == value_of(b, Key::RequireForeground));
    assert(value_of(a, Key::SkipIfCursorInside) == value_of(b, Key::SkipIfCursorInside));
    assert(value_of(a, Key::MoveOncePerDialog) == value_of(b, Key::MoveOncePerDialog));
    assert(value_of(a, Key::IgnoreOwnProcess) == value_of(b, Key::IgnoreOwnProcess));
    assert(value_of(a, Key::MoveAnimation) == value_of(b, Key::MoveAnimation));
    assert(value_of(a, Key::MoveDurationMs) == value_of(b, Key::MoveDurationMs));
    assert(value_of(a, Key::MoveWobble) == value_of(b, Key::MoveWobble));
    assert(value_of(a, Key::CursorAnimation) == value_of(b, Key::CursorAnimation));
    assert(value_of(a, Key::RippleEnabled) == value_of(b, Key::RippleEnabled));
    assert(value_of(a, Key::RippleSize) == value_of(b, Key::RippleSize));
    assert(value_of(a, Key::RippleDurationMs) == value_of(b, Key::RippleDurationMs));
    assert(value_of(a, Key::RippleColor) == value_of(b, Key::RippleColor));
    assert(value_of(a, Key::AbortOnUserMove) == value_of(b, Key::AbortOnUserMove));
    assert(value_of(a, Key::UserMoveThreshold) == value_of(b, Key::UserMoveThreshold));
    assert(value_of(a, Key::WatchTitleChanges) == value_of(b, Key::WatchTitleChanges));
    assert(value_of(a, Key::WatchFocusChanges) == value_of(b, Key::WatchFocusChanges));
    assert(value_of(a, Key::FollowDialogDefaultButton) == value_of(b, Key::FollowDialogDefaultButton));
    assert(value_of(a, Key::FollowDefaultInBrowser) == value_of(b, Key::FollowDefaultInBrowser));
    assert(value_of(a, Key::UiaEnabled) == value_of(b, Key::UiaEnabled));
    assert(value_of(a, Key::UiaDialogLikeOnly) == value_of(b, Key::UiaDialogLikeOnly));
    assert(value_of(a, Key::UiaMaxElements) == value_of(b, Key::UiaMaxElements));
    assert(value_of(a, Key::LogLevel) == value_of(b, Key::LogLevel));
    assert(value_of(a, Key::SkipFileDialogs) == value_of(b, Key::SkipFileDialogs));
    assert(value_of(a, Key::SkipProgressDialogs) == value_of(b, Key::SkipProgressDialogs));
    assert(value_of(a, Key::ExcludeProcesses) == value_of(b, Key::ExcludeProcesses));
    assert(value_of(a, Key::ExcludeTitles) == value_of(b, Key::ExcludeTitles));
    assert(value_of(a, Key::ExtraButtonLabels) == value_of(b, Key::ExtraButtonLabels));
}

proof fn lemma_frame_language(x: Settings, m: Settings, k2: Key)
    ensures
        value_of(copy_field(x, m, Key::Language), k2) == (if Key::Language == k2 { value_of(m, k2) } else { value_of(x, k2) }),
{
    reveal(copy_field);
    assert(copy_field(x, m, Key::Language) === Settings { language: m.language, ..x });
}

proof fn lemma_frame_theme(x: Settings, m: Settings, k2: Key)
    ensures
        value_of(copy_field(x, m, Key::Theme), k2) == (if Key::Theme == k2 { value_of(m, k2) } else { value_of(x, k2) }),
{
    reveal(copy_field);
    assert(copy_field(x, m, Key::Theme) === Settings { theme: m.theme, ..x });
}

proof fn lemma_frame_enabled(x: Settings, m: Settings, k2: Key)
    ensures
        value_of(copy_field(x, m, Key::Enabled), k2) == (if Key::Enabled == k2 { value_of(m, k2) } else { value_of(x, k2) }),
{
    reveal(copy_field);
    assert(copy_field(x, m, Key::Enabled) === Settings { enabled: m.enabled, ..x });
}

proof fn lemma_frame_delay_ms(x: Settings, m: Settings, k2: Key)
    ensures
        value_of(copy_field(x, m, Key::DelayMs), k2) == (if Key::DelayMs == k2 { value_of(m, k2) } else { value_of(x, k2) }),
{
    reveal(copy_field);
    assert(copy_field(x, m, Key::DelayMs) === Settings { delay_ms: m.delay_ms, ..x });
}

proof fn lemma_frame_sound_enabled(x: Settings, m: Settings, k2: Key)
    ensures
        value_of(copy_field(x, m, Key::SoundEnabled), k2) == (if Key::SoundEnabled == k2 { value_of(m, k2) } else { value_of(x, k2) }),
{
    reveal(copy_field);
    assert(copy_field(x, m, Key::SoundEnabled) === Settings { sound_enabled: m.sound_enabled, ..x });
}

proof fn lemma_frame_wav_path(x: Settings, m: Settings, k2: Key)
    ensures
        value_of(copy_field(x, m, Key::WavPath), k2) == (if Key::WavPath == k2 { value_of(m, k2) } else { value_of(x, k2) }),
{
    reveal(copy_field);
    assert(copy_field(x, m, Key::WavPath) === Settings { wav_path: m.wav_path, ..x });
}

proof fn lemma_frame_standard_dialog_only(x: Settings, m: Settings, k2: Key)
    ensures
        value_of(copy_field(x, m, Key::StandardDialogOnly), k2) == (if Key::StandardDialogOnly == k2 { value_of(m, k2) } else { value_of(x, k2) }),
{
    reveal(copy_field);
    assert(copy_field(x, m, Key::StandardDialogOnly) === Settings { standard_dialog_only: m.standard_dialog_only, ..x });
}

proof fn lemma_frame_require_foreground(x: Settings, m: Settings, k2: Key)
    ensures
        value_of(copy_field(x, m, Key::RequireForeground), k2) == (if Key::RequireForeground == k2 { value_of(m, k2) } else { value_of(x, k2) }),
{
    reveal(copy_field);
    assert(copy_field(x, m, Key::RequireForeground) === Settings { require_foreground: m.require_foreground, ..x });
}

proof fn lemma_frame_skip_if_cursor_inside(x: Settings, m: Settings, k2: Key)
    ensures
        value_of(copy_field(x, m, Key::SkipIfCursorInside), k2) == (if Key::SkipIfCursorInside == k2 { value_of(m, k2) } else { value_of(x, k2) }),
{
    reveal(copy_field);
    assert(copy_field(x, m, Key::SkipIfCursorInside) === Settings { skip_if_cursor_inside: m.skip_if_cursor_inside, ..x });
}

proof fn lemma_frame_move_once_per_dialog(x: Settings, m: Settings, k2: Key)
    ensures
        value_of(copy_field(x, m, Key::MoveOncePerDialog), k2) == (if Key::MoveOncePerDialog == k2 { value_of(m, k2) } else { value_of(x, k2) }),
{
    reveal(copy_field);
    assert(copy_field(x, m, Key::MoveOncePerDialog) === Settings { move_once_per_dialog: m.move_once_per_dialog, ..x });
}

proof fn lemma_frame_ignore_own_process(x: Settings, m: Settings, k2: Key)
    ensures
        value_of(copy_field(x, m, Key::IgnoreOwnProcess), k2) == (if Key::IgnoreOwnProcess == k2 { value_of(m, k2) } else { value_of(x, k2) }),
{
    reveal(copy_field);
    assert(copy_field(x, m, Key::IgnoreOwnProcess) === Settings { ignore_own_process: m.ignore_own_process, ..x });
}

proof fn lemma_frame_move_animation(x: Settings, m: Settings, k2: Key)
    ensures
        value_of(copy_field(x, m, Key::MoveAnimation), k2) == (if Key::MoveAnimation == k2 { value_of(m, k2) } else { value_of(x, k2) }),
{
    reveal(copy_field);
    assert(copy_field(x, m, Key::MoveAnimation) === Settings { move_animation: m.move_animation, ..x });
}

proof fn lemma_frame_move_duration_ms(x: Settings, m: Settings, k2: Key)
    ensures
        value_of(copy_field(x, m, Key::MoveDurationMs), k2) == (if Key::MoveDurationMs == k2 { value_of(m, k2) } else { value_of(x, k2) }),
{
    reveal(copy_field);
    assert(copy_field(x, m, Key::MoveDurationMs) === Settings { move_duration_ms: m.move_duration_ms, ..x });
}

proof fn lemma_frame_move_wobble(x: Settings, m: Settings, k2: Key)
    ensures
        value_of(copy_field(x, m, Key::MoveWobble), k2) == (if Key::MoveWobble == k2 { value_of(m, k2) } else { value_of(x, k2) }),
{
    reveal(copy_field);
    assert(copy_field(x, m, Key::MoveWobble) === Settings { move_wobble: m.move_wobble, ..x });
}

proof fn lemma_frame_cursor_animation(x: Settings, m: Settings, k2: Key)
    ensures
        value_of(copy_field(x, m, Key::CursorAnimation), k2) == (if Key::CursorAnimation == k2 { value_of(m, k2) } else { value_of(x, k2) }),
{
    reveal(copy_field);
    assert(copy_field(x, m, Key::CursorAnimation) === Settings { cursor_animation: m.cursor_animation, ..x });
}

proof fn lemma_frame_ripple_enabled(x: Settings, m: Settings, k2: Key)
    ensures
        value_of(copy_field(x, m, Key::RippleEnabled), k2) == (if Key::RippleEnabled == k2 { value_of(m, k2) } else { value_of(x, k2) }),
{
    reveal(copy_field);
    assert(copy_field(x, m, Key::RippleEnabled) === Settings { ripple_enabled: m.ripple_enabled, ..x });
}

proof fn lemma_frame_ripple_size(x: Settings, m: Settings, k2: Key)
    ensures
        value_of(copy_field(x, m, Key::RippleSize), k2) == (if Key::RippleSize == k2 { value_of(m, k2) } else { value_of(x, k2) }),
{
    reveal(copy_field);
    assert(copy_field(x, m, Key::RippleSize) === Settings { ripple_size: m.ripple_size, ..x });
}

proof fn lemma_frame_ripple_duration_ms(x: Settings, m: Settings, k2: Key)
    ensures
        value_of(copy_field(x, m, Key::RippleDurationMs), k2) == (if Key::RippleDurationMs == k2 { value_of(m, k2) } else { value_of(x, k2) }),
{
    reveal(copy_field);
    assert(copy_field(x, m, Key::RippleDurationMs) === Settings { ripple_duration_ms: m.ripple_duration_ms, ..x });
}

proof fn lemma_frame_ripple_color(x: Settings, m: Settings, k2: Key)
    ensures
        value_of(copy_field(x, m, Key::RippleColor), k2) == (if Key::RippleColor == k2 { value_of(m, k2) } else { value_of(x, k2) }),
{
    reveal(copy_field);
    assert(copy_field(x, m, Key::RippleColor) === Settings { ripple_color: m.ripple_color, ..x });
}

proof fn lemma_frame_abort_on_user_move(x: Settings, m: Settings, k2: Key)
    ensures
        value_of(copy_field(x, m, Key::AbortOnUserMove), k2) == (if Key::AbortOnUserMove == k2 { value_of(m, k2) } else { value_of(x, k2) }),
{
    reveal(copy_field);
    assert(copy_field(x, m, Key::AbortOnUserMove) === Settings { abort_on_user_move: m.abort_on_user_move, ..x });
}

proof fn lemma_frame_user_move_threshold(x: Settings, m: Settings, k2: Key)
    ensures
        value_of(copy_field(x, m, Key::UserMoveThreshold), k2) == (if Key::UserMoveThreshold == k2 { value_of(m, k2) } else { value_of(x, k2) }),
{
    reveal(copy_field);
    assert(copy_field(x, m, Key::UserMoveThreshold) === Settings { user_move_threshold: m.user_move_threshold, ..x });
}

proof fn lemma_frame_watch_title_changes(x: Settings, m: Settings, k2: Key)
    ensures
        value_of(copy_field(x, m, Key::WatchTitleChanges), k2) == (if Key::WatchTitleChanges == k2 { value_of(m, k2) } else { value_of(x, k2) }),
{
    reveal(copy_field);
    assert(copy_field(x, m, Key::WatchTitleChanges) === Settings { watch_title_changes: m.watch_title_changes, ..x });
}

proof fn lemma_frame_watch_focus_changes(x: Settings, m: Settings, k2: Key)
    ensures
        value_of(copy_field(x, m, Key::WatchFocusChanges), k2) == (if Key::WatchFocusChanges == k2 { value_of(m, k2) } else { value_of(x, k2) }),
{
    reveal(copy_field);
    assert(copy_field(x, m, Key::WatchFocusChanges) === Settings { watch_focus_changes: m.watch_focus_changes, ..x });
}

proof fn lemma_frame_follow_dialog_default_button(x: Settings, m: Settings, k2: Key)
    ensures
        value_of(copy_field(x, m, Key::FollowDialogDefaultButton), k2) == (if Key::FollowDialogDefaultButton == k2 { value_of(m, k2) } else { value_of(x, k2) }),
{
    reveal(copy_field);
    assert(copy_field(x, m, Key::FollowDialogDefaultButton) === Settings { follow_dialog_default_button: m.follow_dialog_default_button, ..x });
}

proof fn lemma_frame_follow_default_in_browser(x: Settings, m: Settings, k2: Key)
    ensures
        value_of(copy_field(x, m, Key::FollowDefaultInBrowser), k2) == (if Key::FollowDefaultInBrowser == k2 { value_of(m, k2) } else { value_of(x, k2) }),
{
    reveal(copy_field);
    assert(copy_field(x, m, Key::FollowDefaultInBrowser) === Settings { follow_default_in_browser: m.follow_default_in_browser, ..x });
}

proof fn lemma_frame_uia_enabled(x: Settings, m: Settings, k2: Key)
    ensures
        value_of(copy_field(x, m, Key::UiaEnabled), k2) == (if Key::UiaEnabled == k2 { value_of(m, k2) } else { value_of(x, k2) }),
{
    reveal(copy_field);
    assert(copy_field(x, m, Key::UiaEnabled) === Settings { uia_enabled: m.uia_enabled, ..x });
}

proof fn lemma_frame_uia_dialog_like_only(x: Settings, m: Settings, k2: Key)
    ensures
        value_of(copy_field(x, m, Key::UiaDialogLikeOnly), k2) == (if Key::UiaDialogLikeOnly == k2 { value_of(m, k2) } else { value_of(x, k2) }),
{
    reveal(copy_field);
    assert(copy_field(x, m, Key::UiaDialogLikeOnly) === Settings { uia_dialog_like_only: m.uia_dialog_like_only, ..x });
}

proof fn lemma_frame_uia_max_elements(x: Settings, m: Settings, k2: Key)
    ensures
        value_of(copy_field(x, m, Key::UiaMaxElements), k2) == (if Key::UiaMaxElements == k2 { value_of(m, k2) } else { value_of(x, k2) }),
{
    reveal(copy_field);
    assert(copy_field(x, m, Key::UiaMaxElements) === Settings { uia_max_elements: m.uia_max_elements, ..x });
}

proof fn lemma_frame_log_level(x: Settings, m: Settings, k2: Key)
    ensures
        value_of(copy_field(x, m, Key::LogLevel), k2) == (if Key::LogLevel == k2 { value_of(m, k2) } else { value_of(x, k2) }),
{
    reveal(copy_field);
    assert(copy_field(x, m, Key::LogLevel) === Settings { log_level: m.log_level, ..x });
}

proof fn lemma_frame_skip_file_dialogs(x: Settings, m: Settings, k2: Key)
    ensures
        value_of(copy_field(x, m, Key::SkipFileDialogs), k2) == (if Key::SkipFileDialogs == k2 { value_of(m, k2) } else { value_of(x, k2) }),
{
    reveal(copy_field);
    assert(copy_field(x, m, Key::SkipFileDialogs) === Settings { skip_file_dialogs: m.skip_file_dialogs, ..x });
}

proof fn lemma_frame_skip_progress_dialogs(x: Settings, m: Settings, k2: Key)
    ensures
        value_of(copy_field(x, m, Key::SkipProgressDialogs), k2) == (if Key::SkipProgressDialogs == k2 { value_of(m, k2) } else { value_of(x, k2) }),
{
    reveal(copy_field);
    assert(copy_field(x, m, Key::SkipProgressDialogs) === Settings { skip_progress_dialogs: m.skip_progress_dialogs, ..x });
}

proof fn lemma_frame_exclude_processes(x: Settings, m: Settings, k2: Key)
    ensures
        value_of(copy_field(x, m, Key::ExcludeProcesses), k2) == (if Key::ExcludeProcesses == k2 { value_of(m, k2) } else { value_of(x, k2) }),
{
    reveal(copy_field);
    assert(copy_field(x, m, Key::ExcludeProcesses) === Settings { exclude_processes: m.exclude_processes, ..x });
}

proof fn lemma_frame_exclude_titles(x: Settings, m: Settings, k2: Key)
    ensures
        value_of(copy_field(x, m, Key::ExcludeTitles), k2) == (if Key::ExcludeTitles == k2 { value_of(m, k2) } else { value_of(x, k2) }),
{
    reveal(copy_field);
    assert(copy_field(x, m, Key::ExcludeTitles) === Settings { exclude_titles: m.exclude_titles, ..x });
}

proof fn lemma_frame_extra_button_labels(x: Settings, m: Settings, k2: Key)
    ensures
        value_of(copy_field(x, m, Key::ExtraButtonLabels), k2) == (if Key::ExtraButtonLabels == k2 { value_of(m, k2) } else { value_of(x, k2) }),
{
    reveal(copy_field);
    assert(copy_field(x, m, Key::ExtraButtonLabels) === Settings { extra_button_labels: m.extra_button_labels, ..x });
}

/// Taking the setting `k` changes that setting only.
proof fn lemma_copy_field_frame(x: Settings, m: Settings, k: Key, k2: Key)
    ensures
        value_of(copy_field(x, m, k), k2) == (if k == k2 { value_of(m, k2) } else { value_of(x, k2) }),
{
    match k {
        Key::Language => lemma_frame_language(x, m, k2),
        Key::Theme => lemma_frame_theme(x, m, k2),
        Key::Enabled => lemma_frame_enabled(x, m, k2),
        Key::DelayMs => lemma_frame_delay_ms(x, m, k2),
        Key::SoundEnabled => lemma_frame_sound_enabled(x, m, k2),
        Key::WavPath => lemma_frame_wav_path(x, m, k2),
        Key::StandardDialogOnly => lemma_frame_standard_dialog_only(x, m, k2),
        Key::RequireForeground => lemma_frame_require_foreground(x, m, k2),
        Key::SkipIfCursorInside => lemma_frame_skip_if_cursor_inside(x, m, k2),
        Key::MoveOncePerDialog => lemma_frame_move_once_per_dialog(x, m, k2),
        Key::IgnoreOwnProcess => lemma_frame_ignore_own_process(x, m, k2),
        Key::MoveAnimation => lemma_frame_move_animation(x, m, k2),
        Key::MoveDurationMs => lemma_frame_move_duration_ms(x, m, k2),
        Key::MoveWobble => lemma_frame_move_wobble(x, m, k2),
        Key::CursorAnimation => lemma_frame_cursor_animation(x, m, k2),
        Key::RippleEnabled => lemma_frame_ripple_enabled(x, m, k2),
        Key::RippleSize => lemma_frame_ripple_size(x, m, k2),
        Key::RippleDurationMs => lemma_frame_ripple_duration_ms(x, m, k2),
        Key::RippleColor => lemma_frame_ripple_color(x, m, k2),
        Key::AbortOnUserMove => lemma_frame_abort_on_user_move(x, m, k2),
        Key::UserMoveThreshold => lemma_frame_user_move_threshold(x, m, k2),
        Key::WatchTitleChanges => lemma_frame_watch_title_changes(x, m, k2),
        Key::WatchFocusChanges => lemma_frame_watch_focus_changes(x, m, k2),
        Key::FollowDialogDefaultButton => lemma_frame_follow_dialog_default_button(x, m, k2),
        Key::FollowDefaultInBrowser => lemma_frame_follow_default_in_browser(x, m, k2),
        Key::UiaEnabled => lemma_frame_uia_enabled(x, m, k2),
        Key::UiaDialogLikeOnly => lemma_frame_uia_dialog_like_only(x, m, k2),
        Key::UiaMaxElements => lemma_frame_uia_max_elements(x, m, k2),
        Key::LogLevel => lemma_frame_log_level(x, m, k2),
        Key::SkipFileDialogs => lemma_frame_skip_file_dialogs(x, m, k2),
        Key::SkipProgressDialogs => lemma_frame_skip_progress_dialogs(x, m, k2),
        Key::ExcludeProcesses => lemma_frame_exclude_processes(x, m, k2),
        Key::ExcludeTitles => lemma_frame_exclude_titles(x, m, k2),
        Key::ExtraButtonLabels => lemma_frame_extra_button_labels(x, m, k2),
    }
}

/// Taking the settings from the `i`-th on changes exactly those settings.
proof fn lemma_copy_from_values(x: Settings, m: Settings, i: nat, k: Key)
    requires
        i <= KEY_COUNT,
    ensures
        value_of(copy_from(x, m, i), k) == (if i <= key_index(k) { value_of(m, k) } else { value_of(x, k) }),
    decreases KEY_COUNT - i,
{
    lemma_key_index(i, k);
    if i == KEY_COUNT {
        lemma_copy_end(x, m, i);
    } else {
        let y = copy_field(x, m, key_at(i));
        lemma_copy_step(x, m, i);
        lemma_copy_from_values(y, m, i + 1, k);
        lemma_copy_field_frame(x, m, key_at(i), k);
    }
}

/// Taking every setting from `m` gives `m`.
pub proof fn lemma_copy_all(x: Settings, m: Settings)
    ensures
        copy_from(x, m, 0) === m,
{
    assert forall|k: Key| value_of(copy_from(x, m, 0), k) == value_of(m, k) by {
        lemma_copy_from_values(x, m, 0, k);
    }
    lemma_same_values(copy_from(x, m, 0), m);
}

} // verus!
