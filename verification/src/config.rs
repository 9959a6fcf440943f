//! Settings: the `config.ini` format, its defaults, and how each value is read
//! back and written out.
//!
//! Reading and writing the file itself is left to the caller; this module turns
//! text into a [`Config`] and back.
use vstd::prelude::*;
use crate::lang::{t, translate, valid_code, Catalog, Entries};
use crate::num::{hex_padded, decimal, parse_u32, parse_u32_spec, push_digits, push_hex_padded};
use crate::text::{
    contains_chars, contains_seq, append_chars, append_range, append_str, replace_all, replace_chars, chars_eq, chars_of, copy_range, cut_trailing, find_char, find_from,
    is_trimmed, lemma_find_from_bounds, line_at, lines, lines_from, lower, skip_leading, string_of,
    strip_both, strip_leading, to_lower, trim, trim_bounds,
};
use crate::theme::{join_path, path_join, valid_theme_name};

verus! {

/// The settings of the application.
#[derive(Clone, Debug)]
pub struct Config {
    /// Display language (a file name in the `lang` directory).
    pub language: String,
    /// Theme that replaces the icon, cursors and sound (empty: built-in).
    pub theme: String,
    /// Whether dialogs are watched at all.
    pub enabled: bool,
    /// Delay from detecting a dialog to moving the cursor (milliseconds).
    pub delay_ms: u32,
    /// Whether a `.wav` file is played on a move.
    pub sound_enabled: bool,
    /// Full path of the `.wav` file to play.
    pub wav_path: String,
    /// Only standard dialogs (window class `#32770`) are targeted.
    pub standard_dialog_only: bool,
    /// Only move while the dialog is in the foreground.
    pub require_foreground: bool,
    /// Do nothing when the cursor already rests on the button.
    pub skip_if_cursor_inside: bool,
    /// React only once to the same dialog.
    pub move_once_per_dialog: bool,
    /// Ignore dialogs raised by this process.
    pub ignore_own_process: bool,
    /// Glide the cursor instead of jumping.
    pub move_animation: bool,
    /// Time the glide takes (milliseconds).
    pub move_duration_ms: u32,
    /// Sideways wobble while gliding (pixels, 0: straight).
    pub move_wobble: u32,
    /// Replace the cursor image while gliding.
    pub cursor_animation: bool,
    /// Show concentric rings where the cursor lands.
    pub ripple_enabled: bool,
    /// Diameter of the rings (pixels).
    pub ripple_size: u32,
    /// Time the rings take to close (milliseconds).
    pub ripple_duration_ms: u32,
    /// Colour of the rings (`0xRRGGBB`).
    pub ripple_color: u32,
    /// Give up the glide when the user moves the mouse.
    pub abort_on_user_move: bool,
    /// Cursor offset that counts as user input (pixels).
    pub user_move_threshold: u32,
    /// Title changes also trigger detection.
    pub watch_title_changes: bool,
    /// Focus changes also trigger detection.
    pub watch_focus_changes: bool,
    /// Follow a dialog's default button even when its label is not registered.
    pub follow_dialog_default_button: bool,
    /// Apply the default-button rule inside browsers as well.
    pub follow_default_in_browser: bool,
    /// Also use UI Automation.
    pub uia_enabled: bool,
    /// Restrict UI Automation scans to dialog-shaped windows.
    pub uia_dialog_like_only: bool,
    /// Upper bound of elements inspected by one UI Automation scan.
    pub uia_max_elements: u32,
    /// Diagnostic log level (0 off, 1 normal, 2 verbose).
    pub log_level: u32,
    /// Ignore file and folder pickers.
    pub skip_file_dialogs: bool,
    /// Ignore "in progress" dialogs that hold a progress bar.
    pub skip_progress_dialogs: bool,
    /// Ignore dialogs raised by these executables.
    pub exclude_processes: Vec<String>,
    /// Ignore dialogs whose title contains one of these strings.
    pub exclude_titles: Vec<String>,
    /// Additional button labels treated as OK.
    pub extra_button_labels: Vec<String>,
}

/// The settings as values: strings as character sequences.
pub struct Settings {
    pub language: Seq<char>,
    pub theme: Seq<char>,
    pub enabled: bool,
    pub delay_ms: u32,
    pub sound_enabled: bool,
    pub wav_path: Seq<char>,
    pub standard_dialog_only: bool,
    pub require_foreground: bool,
    pub skip_if_cursor_inside: bool,
    pub move_once_per_dialog: bool,
    pub ignore_own_process: bool,
    pub move_animation: bool,
    pub move_duration_ms: u32,
    pub move_wobble: u32,
    pub cursor_animation: bool,
    pub ripple_enabled: bool,
    pub ripple_size: u32,
    pub ripple_duration_ms: u32,
    pub ripple_color: u32,
    pub abort_on_user_move: bool,
    pub user_move_threshold: u32,
    pub watch_title_changes: bool,
    pub watch_focus_changes: bool,
    pub follow_dialog_default_button: bool,
    pub follow_default_in_browser: bool,
    pub uia_enabled: bool,
    pub uia_dialog_like_only: bool,
    pub uia_max_elements: u32,
    pub log_level: u32,
    pub skip_file_dialogs: bool,
    pub skip_progress_dialogs: bool,
    pub exclude_processes: Seq<Seq<char>>,
    pub exclude_titles: Seq<Seq<char>>,
    pub extra_button_labels: Seq<Seq<char>>,
}

/// The contents of a list of strings.
pub open spec fn string_views(v: Seq<String>) -> Seq<Seq<char>> {
    v.map_values(|s: String| s@)
}

impl View for Config {
    type V = Settings;

    open spec fn view(&self) -> Settings {
        Settings {
            language: self.language@,
            theme: self.theme@,
            enabled: self.enabled,
            delay_ms: self.delay_ms,
            sound_enabled: self.sound_enabled,
            wav_path: self.wav_path@,
            standard_dialog_only: self.standard_dialog_only,
            require_foreground: self.require_foreground,
            skip_if_cursor_inside: self.skip_if_cursor_inside,
            move_once_per_dialog: self.move_once_per_dialog,
            ignore_own_process: self.ignore_own_process,
            move_animation: self.move_animation,
            move_duration_ms: self.move_duration_ms,
            move_wobble: self.move_wobble,
            cursor_animation: self.cursor_animation,
            ripple_enabled: self.ripple_enabled,
            ripple_size: self.ripple_size,
            ripple_duration_ms: self.ripple_duration_ms,
            ripple_color: self.ripple_color,
            abort_on_user_move: self.abort_on_user_move,
            user_move_threshold: self.user_move_threshold,
            watch_title_changes: self.watch_title_changes,
            watch_focus_changes: self.watch_focus_changes,
            follow_dialog_default_button: self.follow_dialog_default_button,
            follow_default_in_browser: self.follow_default_in_browser,
            uia_enabled: self.uia_enabled,
            uia_dialog_like_only: self.uia_dialog_like_only,
            uia_max_elements: self.uia_max_elements,
            log_level: self.log_level,
            skip_file_dialogs: self.skip_file_dialogs,
            skip_progress_dialogs: self.skip_progress_dialogs,
            exclude_processes: string_views(self.exclude_processes@),
            exclude_titles: string_views(self.exclude_titles@),
            extra_button_labels: string_views(self.extra_button_labels@),
        }
    }
}

/// The sound played when none is chosen: the Windows system sound.
pub open spec fn default_wav_path() -> Seq<char> {
    "C:\\Windows\\Media\\Windows Ding.wav"@
}

fn default_wav() -> (s: String)
    ensures
        s@ == default_wav_path(),
{
    String::from_str("C:\\Windows\\Media\\Windows Ding.wav")
}

/// The settings used when the file does not say otherwise.
pub open spec fn default_settings() -> Settings {
    Settings {
        language: crate::lang::DEFAULT_LANG@,
        theme: Seq::empty(),
        enabled: true,
        delay_ms: 300,
        sound_enabled: true,
        wav_path: default_wav_path(),
        standard_dialog_only: true,
        require_foreground: true,
        skip_if_cursor_inside: true,
        move_once_per_dialog: true,
        ignore_own_process: false,
        move_animation: true,
        move_duration_ms: 320,
        move_wobble: 4,
        cursor_animation: false,
        ripple_enabled: true,
        ripple_size: 96,
        ripple_duration_ms: 420,
        ripple_color: 0x3A84D6,
        abort_on_user_move: true,
        user_move_threshold: 12,
        watch_title_changes: true,
        watch_focus_changes: true,
        follow_dialog_default_button: true,
        follow_default_in_browser: false,
        uia_enabled: true,
        uia_dialog_like_only: true,
        uia_max_elements: 800,
        log_level: 0,
        skip_file_dialogs: true,
        skip_progress_dialogs: true,
        exclude_processes: Seq::empty(),
        exclude_titles: Seq::empty(),
        extra_button_labels: Seq::empty(),
    }
}

impl Default for Config {
    fn default() -> (c: Self)
        ensures
            c@ == default_settings(),
    {
        let c = Config {
            language: String::from_str(crate::lang::DEFAULT_LANG),
            theme: String::new(),
            enabled: true,
            delay_ms: 300,
            sound_enabled: true,
            wav_path: default_wav(),
            standard_dialog_only: true,
            require_foreground: true,
            skip_if_cursor_inside: true,
            move_once_per_dialog: true,
            ignore_own_process: false,
            move_animation: true,
            move_duration_ms: 320,
            move_wobble: 4,
            cursor_animation: false,
            ripple_enabled: true,
            ripple_size: 96,
            ripple_duration_ms: 420,
            ripple_color: 0x3A84D6,
            abort_on_user_move: true,
            user_move_threshold: 12,
            watch_title_changes: true,
            watch_focus_changes: true,
            follow_dialog_default_button: true,
            follow_default_in_browser: false,
            uia_enabled: true,
            uia_dialog_like_only: true,
            uia_max_elements: 800,
            log_level: 0,
            skip_file_dialogs: true,
            skip_progress_dialogs: true,
            exclude_processes: Vec::new(),
            exclude_titles: Vec::new(),
            extra_button_labels: Vec::new(),
        };
        assert(string_views(c.exclude_processes@) =~= Seq::empty());
        assert(string_views(c.exclude_titles@) =~= Seq::empty());
        assert(string_views(c.extra_button_labels@) =~= Seq::empty());
        c
    }
}

/// The scalar settings that the event hot path reads, copied without allocation.
#[derive(Clone, Copy)]
pub struct Flags {
    pub enabled: bool,
    pub delay_ms: u32,
    pub standard_dialog_only: bool,
    pub ignore_own_process: bool,
    pub uia_enabled: bool,
    pub uia_dialog_like_only: bool,
}

impl Config {
    /// The scalar settings that event handling needs.
    pub fn flags(&self) -> (f: Flags)
        ensures
            f.enabled == self.enabled,
            f.delay_ms == self.delay_ms,
            f.standard_dialog_only == self.standard_dialog_only,
            f.ignore_own_process == self.ignore_own_process,
            f.uia_enabled == self.uia_enabled,
            f.uia_dialog_like_only == self.uia_dialog_like_only,
    {
        Flags {
            enabled: self.enabled,
            delay_ms: self.delay_ms,
            standard_dialog_only: self.standard_dialog_only,
            ignore_own_process: self.ignore_own_process,
            uia_enabled: self.uia_enabled,
            uia_dialog_like_only: self.uia_dialog_like_only,
        }
    }
}


impl Config {
    /// The sound that is actually played: the theme's `sound.wav` when the
    /// user has kept the default sound and the theme has one (`theme_sound`,
    /// as found on disk by the caller), else the configured file.
    pub fn effective_wav(&self, theme_sound: Option<String>) -> (r: String)
        ensures
            r@ == (match theme_sound {
                Some(p) => if self.wav_path@ == default_wav_path() { p@ } else { self.wav_path@ },
                None => self.wav_path@,
            }),
    {
        let wav = chars_of(self.wav_path.as_str());
        let dflt = default_wav();
        let dflt_chars = chars_of(dflt.as_str());
        if chars_eq(&wav, &dflt_chars) {
            if let Some(p) = theme_sound {
                return p;
            }
        }
        string_of(&wav)
    }
}

/// The settings file inside the settings directory `dir`.
pub fn config_path(dir: &str) -> (r: String)
    ensures
        r@ == path_join(dir@, "config.ini"@),
{
    join_path(dir, "config.ini")
}

/// The log file inside the settings directory `dir`.
pub fn log_path(dir: &str) -> (r: String)
    ensures
        r@ == path_join(dir@, "log.txt"@),
{
    join_path(dir, "log.txt")
}

/// Upper bound of the size of a settings file that is read; a larger one is
/// ignored and the defaults are used.
pub const MAX_CONFIG_BYTES: u64 = 256 * 1024;

/// Whether a settings file of `len` bytes is read.
pub fn config_size_ok(len: u64) -> (b: bool)
    ensures
        b == (len <= MAX_CONFIG_BYTES),
{
    len <= MAX_CONFIG_BYTES
}

/// Whether the settings file was changed by someone else since it was last
/// read or written: `known` is its modification time then, `now` its
/// modification time now. When either is unknown (never recorded, or the file
/// is gone) the answer is no, so that nothing is overwritten or reloaded on a
/// guess.
pub fn file_changed_externally(known: Option<u128>, now: Option<u128>) -> (b: bool)
    ensures
        b == (known is Some && now is Some && known.unwrap() != now.unwrap()),
{
    match (known, now) {
        (Some(k), Some(n)) => k != n,
        _ => false,
    }
}

/// `str::contains` on ASCII-lower-cased copies, with an empty needle matching
/// nothing.
pub open spec fn contains_ignoring_case(haystack: Seq<char>, needle: Seq<char>) -> bool {
    needle.len() > 0 && contains_seq(lower(haystack), lower(needle))
}

/// Whether `needle` occurs in `haystack`, ignoring ASCII case. An empty needle
/// never matches.
pub fn contains_ignore_ascii_case(haystack: &str, needle: &str) -> (b: bool)
    ensures
        b == contains_ignoring_case(haystack@, needle@),
{
    let n = chars_of(needle);
    if n.len() == 0 {
        return false;
    }
    let h = chars_of(haystack);
    let hl = to_lower(&h);
    let nl = to_lower(&n);
    contains_chars(&hl, &nl)
}

// ---------------------------------------------------------------------------
// Reading single values
// ---------------------------------------------------------------------------

/// The boolean that a word spells (ignoring case and surrounding whitespace).
pub open spec fn bool_word(v: Seq<char>) -> Option<bool> {
    let w = lower(trim(v));
    if w == "1"@ || w == "true"@ || w == "yes"@ || w == "on"@ {
        Some(true)
    } else if w == "0"@ || w == "false"@ || w == "no"@ || w == "off"@ {
        Some(false)
    } else {
        None
    }
}

/// A boolean setting: `fallback` unless the value spells a boolean.
pub open spec fn parse_bool_spec(v: Seq<char>, fallback: bool) -> bool {
    match bool_word(v) {
        Some(b) => b,
        None => fallback,
    }
}

fn is_word(w: &[char], lit: &str) -> (b: bool)
    ensures
        b == (w@ == lit@),
{
    let l = chars_of(lit);
    chars_eq(w, &l)
}

/// Reads a boolean setting; values other than the accepted spellings keep `fallback`.
pub fn parse_bool_chars(v: &[char], fallback: bool) -> (b: bool)
    ensures
        b == parse_bool_spec(v@, fallback),
{
    let (lo, hi) = trim_bounds(v, 0, v.len());
    assert(v@.subrange(0, v@.len() as int) == v@);
    let t = copy_range(v, lo, hi);
    let w = to_lower(&t);
    if is_word(&w, "1") || is_word(&w, "true") || is_word(&w, "yes") || is_word(&w, "on") {
        true
    } else if is_word(&w, "0") || is_word(&w, "false") || is_word(&w, "no") || is_word(&w, "off") {
        false
    } else {
        fallback
    }
}

/// Reads a boolean setting; `1`, `true`, `yes`, `on` and `0`, `false`, `no`,
/// `off` are accepted in any case, anything else keeps `fallback`.
pub fn parse_bool(v: &str, fallback: bool) -> (b: bool)
    ensures
        b == parse_bool_spec(v@, fallback),
{
    let cs = chars_of(v);
    parse_bool_chars(&cs, fallback)
}

/// `x` limited to `lo..=hi` (`Ord::clamp`).
pub open spec fn clamp(x: u32, lo: u32, hi: u32) -> u32 {
    if x < lo {
        lo
    } else if x > hi {
        hi
    } else {
        x
    }
}

/// A numeric setting: the decimal value of `v`, or `current` when it is not
/// one, limited to `lo..=hi`.
pub open spec fn number_setting(v: Seq<char>, current: u32, lo: u32, hi: u32) -> u32 {
    let n = match parse_u32_spec(v, 10) {
        Some(n) => n,
        None => current,
    };
    clamp(n, lo, hi)
}

fn read_number(v: &[char], current: u32, lo: u32, hi: u32) -> (n: u32)
    requires
        lo <= hi,
    ensures
        n == number_setting(v@, current, lo, hi),
{
    let n = match parse_u32(v, 10) {
        Some(n) => n,
        None => current,
    };
    if n < lo {
        lo
    } else if n > hi {
        hi
    } else {
        n
    }
}

/// `v.trim_start_matches("0x")`: drops every leading `"0x"`.
pub open spec fn strip_0x(s: Seq<char>) -> Seq<char>
    decreases s.len(),
{
    if s.len() >= 2 && s[0] == '0' && s[1] == 'x' {
        strip_0x(s.subrange(2, s.len() as int))
    } else {
        s
    }
}

/// The colour setting: hex digits after any leading `#` and `0x`, or
/// `current` when there are none; at most `0xFFFFFF`.
pub open spec fn color_setting(v: Seq<char>, current: u32) -> u32 {
    let t = strip_0x(strip_leading(v, '#'));
    let n = match parse_u32_spec(t, 16) {
        Some(n) => n,
        None => current,
    };
    if n > 0xFF_FFFF {
        0xFF_FFFF
    } else {
        n
    }
}

fn read_color(v: &[char], current: u32) -> (n: u32)
    ensures
        n == color_setting(v@, current),
{
    let a = skip_leading(v, 0, v.len(), '#');
    assert(v@.subrange(0, v@.len() as int) == v@);
    let mut b = a;
    while v.len() - b >= 2 && v[b] == '0' && v[b + 1] == 'x'
        invariant
            a <= b <= v@.len(),
            strip_0x(v@.subrange(b as int, v@.len() as int)) == strip_0x(
                v@.subrange(a as int, v@.len() as int),
            ),
        decreases v@.len() - b,
    {
        assert(v@.subrange(b as int, v@.len() as int).subrange(2, v@.len() - b) =~= v@.subrange(
            b + 2,
            v@.len() as int,
        ));
        b = b + 2;
    }
    let t = copy_range(v, b, v.len());
    let n = match parse_u32(&t, 16) {
        Some(n) => n,
        None => current,
    };
    if n > 0xFF_FFFF {
        0xFF_FFFF
    } else {
        n
    }
}

// ---------------------------------------------------------------------------
// Comma separated lists
// ---------------------------------------------------------------------------

/// Upper bound of the entries kept from one comma separated list.
pub const MAX_LIST_ITEMS: usize = 256;

/// The pieces of `s[pos..]` between commas (`str::split(',')`).
pub open spec fn pieces_from(s: Seq<char>, pos: int) -> Seq<Seq<char>>
    decreases s.len() - pos,
{
    if pos < 0 || pos > s.len() {
        Seq::empty()
    } else {
        let i = find_from(s, pos, ',');
        if i < s.len() {
            proof {
                lemma_find_from_bounds(s, pos, ',');
            }
            seq![s.subrange(pos, i)] + pieces_from(s, i + 1)
        } else {
            seq![s.subrange(pos, s.len() as int)]
        }
    }
}

/// The trimmed pieces that are not empty, in order.
pub open spec fn kept_items(ps: Seq<Seq<char>>) -> Seq<Seq<char>>
    decreases ps.len(),
{
    if ps.len() == 0 {
        Seq::empty()
    } else {
        let t = trim(ps[0]);
        let rest = kept_items(ps.drop_first());
        if t.len() > 0 {
            seq![t] + rest
        } else {
            rest
        }
    }
}

/// The first `n` entries of a list.
pub open spec fn at_most(xs: Seq<Seq<char>>, n: nat) -> Seq<Seq<char>> {
    if xs.len() > n {
        xs.take(n as int)
    } else {
        xs
    }
}

/// A comma separated list: the trimmed, non-empty entries, at most
/// [`MAX_LIST_ITEMS`] of them, in the order written.
pub open spec fn list_setting(v: Seq<char>) -> Seq<Seq<char>> {
    at_most(kept_items(pieces_from(v, 0)), MAX_LIST_ITEMS as nat)
}

/// Reads a comma separated list.
pub fn parse_list_chars(v: &[char]) -> (r: Vec<String>)
    ensures
        string_views(r@) == list_setting(v@),
{
    let ghost full = kept_items(pieces_from(v@, 0));
    let mut out: Vec<String> = Vec::new();
    let mut pos: usize = 0;
    loop
        invariant_except_break
            pos <= v@.len(),
            out@.len() <= MAX_LIST_ITEMS,
            full == kept_items(pieces_from(v@, 0)),
            string_views(out@) + kept_items(pieces_from(v@, pos as int)) == full,
        ensures
            string_views(out@) == at_most(full, MAX_LIST_ITEMS as nat),
            full == kept_items(pieces_from(v@, 0)),
        decreases v@.len() - pos,
    {
        if out.len() >= MAX_LIST_ITEMS {
            assert(full.take(MAX_LIST_ITEMS as int) =~= string_views(out@));
            break;
        }
        let i = find_char(v, pos, ',');
        let (a, b) = trim_bounds(v, pos, i);
        let ghost before = string_views(out@);
        let ghost piece = v@.subrange(pos as int, i as int);
        let ghost rest_pieces = if i < v@.len() {
            pieces_from(v@, i + 1)
        } else {
            Seq::<Seq<char>>::empty()
        };
        assert(pieces_from(v@, pos as int) == seq![piece] + rest_pieces);
        assert((seq![piece] + rest_pieces).drop_first() =~= rest_pieces);
        if a < b {
            let item = copy_range(v, a, b);
            let st = string_of(&item);
            out.push(st);
            assert(string_views(out@) =~= before.push(trim(piece)));
        }
        if i >= v.len() {
            assert(kept_items(rest_pieces) =~= Seq::<Seq<char>>::empty());
            assert(string_views(out@) =~= full);
            break;
        }
        pos = i + 1;
        assert(string_views(out@) + kept_items(pieces_from(v@, pos as int)) =~= full);
    }
    out
}

/// Reads a comma separated list: entries are trimmed, empty ones dropped, and
/// at most [`MAX_LIST_ITEMS`] kept, in the order written.
pub fn parse_list(v: &str) -> (r: Vec<String>)
    ensures
        string_views(r@) == list_setting(v@),
{
    let cs = chars_of(v);
    parse_list_chars(&cs)
}


// ---------------------------------------------------------------------------
// Keys
// ---------------------------------------------------------------------------

/// A setting, named by its key in `config.ini`. The variants are in the order
/// in which [`Config::to_ini`] writes them.
#[derive(Clone, Copy, PartialEq, Eq, Structural, Debug)]
pub enum Key {
    Language,
    Theme,
    Enabled,
    DelayMs,
    SoundEnabled,
    WavPath,
    StandardDialogOnly,
    RequireForeground,
    SkipIfCursorInside,
    MoveOncePerDialog,
    IgnoreOwnProcess,
    MoveAnimation,
    MoveDurationMs,
    MoveWobble,
    CursorAnimation,
    RippleEnabled,
    RippleSize,
    RippleDurationMs,
    RippleColor,
    AbortOnUserMove,
    UserMoveThreshold,
    WatchTitleChanges,
    WatchFocusChanges,
    FollowDialogDefaultButton,
    FollowDefaultInBrowser,
    UiaEnabled,
    UiaDialogLikeOnly,
    UiaMaxElements,
    LogLevel,
    SkipFileDialogs,
    SkipProgressDialogs,
    ExcludeProcesses,
    ExcludeTitles,
    ExtraButtonLabels,
}

/// The key of a setting in `config.ini`.
pub open spec fn key_name(k: Key) -> Seq<char> {
    match k {
        Key::Language => "language"@,
        Key::Theme => "theme"@,
        Key::Enabled => "enabled"@,
        Key::DelayMs => "delay_ms"@,
        Key::SoundEnabled => "sound_enabled"@,
        Key::WavPath => "wav_path"@,
        Key::StandardDialogOnly => "standard_dialog_only"@,
        Key::RequireForeground => "require_foreground"@,
        Key::SkipIfCursorInside => "skip_if_cursor_inside"@,
        Key::MoveOncePerDialog => "move_once_per_dialog"@,
        Key::IgnoreOwnProcess => "ignore_own_process"@,
        Key::MoveAnimation => "move_animation"@,
        Key::MoveDurationMs => "move_duration_ms"@,
        Key::MoveWobble => "move_wobble"@,
        Key::CursorAnimation => "cursor_animation"@,
        Key::RippleEnabled => "ripple_enabled"@,
        Key::RippleSize => "ripple_size"@,
        Key::RippleDurationMs => "ripple_duration_ms"@,
        Key::RippleColor => "ripple_color"@,
        Key::AbortOnUserMove => "abort_on_user_move"@,
        Key::UserMoveThreshold => "user_move_threshold"@,
        Key::WatchTitleChanges => "watch_title_changes"@,
        Key::WatchFocusChanges => "watch_focus_changes"@,
        Key::FollowDialogDefaultButton => "follow_dialog_default_button"@,
        Key::FollowDefaultInBrowser => "follow_default_in_browser"@,
        Key::UiaEnabled => "uia_enabled"@,
        Key::UiaDialogLikeOnly => "uia_dialog_like_only"@,
        Key::UiaMaxElements => "uia_max_elements"@,
        Key::LogLevel => "log_level"@,
        Key::SkipFileDialogs => "skip_file_dialogs"@,
        Key::SkipProgressDialogs => "skip_progress_dialogs"@,
        Key::ExcludeProcesses => "exclude_processes"@,
        Key::ExcludeTitles => "exclude_titles"@,
        Key::ExtraButtonLabels => "extra_button_labels"@,
    }
}

/// The key of a setting in `config.ini`.
pub fn key_str(k: Key) -> (s: &'static str)
    ensures
        s@ == key_name(k),
{
    match k {
        Key::Language => "language",
        Key::Theme => "theme",
        Key::Enabled => "enabled",
        Key::DelayMs => "delay_ms",
        Key::SoundEnabled => "sound_enabled",
        Key::WavPath => "wav_path",
        Key::StandardDialogOnly => "standard_dialog_only",
        Key::RequireForeground => "require_foreground",
        Key::SkipIfCursorInside => "skip_if_cursor_inside",
        Key::MoveOncePerDialog => "move_once_per_dialog",
        Key::IgnoreOwnProcess => "ignore_own_process",
        Key::MoveAnimation => "move_animation",
        Key::MoveDurationMs => "move_duration_ms",
        Key::MoveWobble => "move_wobble",
        Key::CursorAnimation => "cursor_animation",
        Key::RippleEnabled => "ripple_enabled",
        Key::RippleSize => "ripple_size",
        Key::RippleDurationMs => "ripple_duration_ms",
        Key::RippleColor => "ripple_color",
        Key::AbortOnUserMove => "abort_on_user_move",
        Key::UserMoveThreshold => "user_move_threshold",
        Key::WatchTitleChanges => "watch_title_changes",
        Key::WatchFocusChanges => "watch_focus_changes",
        Key::FollowDialogDefaultButton => "follow_dialog_default_button",
        Key::FollowDefaultInBrowser => "follow_default_in_browser",
        Key::UiaEnabled => "uia_enabled",
        Key::UiaDialogLikeOnly => "uia_dialog_like_only",
        Key::UiaMaxElements => "uia_max_elements",
        Key::LogLevel => "log_level",
        Key::SkipFileDialogs => "skip_file_dialogs",
        Key::SkipProgressDialogs => "skip_progress_dialogs",
        Key::ExcludeProcesses => "exclude_processes",
        Key::ExcludeTitles => "exclude_titles",
        Key::ExtraButtonLabels => "extra_button_labels",
    }
}

/// Number of settings.
pub const KEY_COUNT: usize = 34;

/// The `i`-th setting in the order in which they are written.
pub open spec fn key_at(i: nat) -> Key {
    if i == 0 {
        Key::Language
    } else if i == 1 {
        Key::Theme
    } else if i == 2 {
        Key::Enabled
    } else if i == 3 {
        Key::DelayMs
    } else if i == 4 {
        Key::SoundEnabled
    } else if i == 5 {
        Key::WavPath
    } else if i == 6 {
        Key::StandardDialogOnly
    } else if i == 7 {
        Key::RequireForeground
    } else if i == 8 {
        Key::SkipIfCursorInside
    } else if i == 9 {
        Key::MoveOncePerDialog
    } else if i == 10 {
        Key::IgnoreOwnProcess
    } else if i == 11 {
        Key::MoveAnimation
    } else if i == 12 {
        Key::MoveDurationMs
    } else if i == 13 {
        Key::MoveWobble
    } else if i == 14 {
        Key::CursorAnimation
    } else if i == 15 {
        Key::RippleEnabled
    } else if i == 16 {
        Key::RippleSize
    } else if i == 17 {
        Key::RippleDurationMs
    } else if i == 18 {
        Key::RippleColor
    } else if i == 19 {
        Key::AbortOnUserMove
    } else if i == 20 {
        Key::UserMoveThreshold
    } else if i == 21 {
        Key::WatchTitleChanges
    } else if i == 22 {
        Key::WatchFocusChanges
    } else if i == 23 {
        Key::FollowDialogDefaultButton
    } else if i == 24 {
        Key::FollowDefaultInBrowser
    } else if i == 25 {
        Key::UiaEnabled
    } else if i == 26 {
        Key::UiaDialogLikeOnly
    } else if i == 27 {
        Key::UiaMaxElements
    } else if i == 28 {
        Key::LogLevel
    } else if i == 29 {
        Key::SkipFileDialogs
    } else if i == 30 {
        Key::SkipProgressDialogs
    } else if i == 31 {
        Key::ExcludeProcesses
    } else if i == 32 {
        Key::ExcludeTitles
    } else {
        Key::ExtraButtonLabels
    }
}

/// The `i`-th setting in the order in which they are written.
pub fn key_at_index(i: usize) -> (k: Key)
    requires
        i < KEY_COUNT,
    ensures
        k == key_at(i as nat),
{
    match i {
        0 => Key::Language,
        1 => Key::Theme,
        2 => Key::Enabled,
        3 => Key::DelayMs,
        4 => Key::SoundEnabled,
        5 => Key::WavPath,
        6 => Key::StandardDialogOnly,
        7 => Key::RequireForeground,
        8 => Key::SkipIfCursorInside,
        9 => Key::MoveOncePerDialog,
        10 => Key::IgnoreOwnProcess,
        11 => Key::MoveAnimation,
        12 => Key::MoveDurationMs,
        13 => Key::MoveWobble,
        14 => Key::CursorAnimation,
        15 => Key::RippleEnabled,
        16 => Key::RippleSize,
        17 => Key::RippleDurationMs,
        18 => Key::RippleColor,
        19 => Key::AbortOnUserMove,
        20 => Key::UserMoveThreshold,
        21 => Key::WatchTitleChanges,
        22 => Key::WatchFocusChanges,
        23 => Key::FollowDialogDefaultButton,
        24 => Key::FollowDefaultInBrowser,
        25 => Key::UiaEnabled,
        26 => Key::UiaDialogLikeOnly,
        27 => Key::UiaMaxElements,
        28 => Key::LogLevel,
        29 => Key::SkipFileDialogs,
        30 => Key::SkipProgressDialogs,
        31 => Key::ExcludeProcesses,
        32 => Key::ExcludeTitles,
        _ => Key::ExtraButtonLabels,
    }
}

/// The setting named by a (lower-case) key.
pub open spec fn key_of(name: Seq<char>) -> Option<Key> {
    if name == "language"@ {
        Some(Key::Language)
    } else if name == "theme"@ {
        Some(Key::Theme)
    } else if name == "enabled"@ {
        Some(Key::Enabled)
    } else if name == "delay_ms"@ {
        Some(Key::DelayMs)
    } else if name == "sound_enabled"@ {
        Some(Key::SoundEnabled)
    } else if name == "wav_path"@ {
        Some(Key::WavPath)
    } else if name == "standard_dialog_only"@ {
        Some(Key::StandardDialogOnly)
    } else if name == "require_foreground"@ {
        Some(Key::RequireForeground)
    } else if name == "skip_if_cursor_inside"@ {
        Some(Key::SkipIfCursorInside)
    } else if name == "move_once_per_dialog"@ {
        Some(Key::MoveOncePerDialog)
    } else if name == "ignore_own_process"@ {
        Some(Key::IgnoreOwnProcess)
    } else if name == "move_animation"@ {
        Some(Key::MoveAnimation)
    } else if name == "move_duration_ms"@ {
        Some(Key::MoveDurationMs)
    } else if name == "move_wobble"@ {
        Some(Key::MoveWobble)
    } else if name == "cursor_animation"@ {
        Some(Key::CursorAnimation)
    } else if name == "ripple_enabled"@ {
        Some(Key::RippleEnabled)
    } else if name == "ripple_size"@ {
        Some(Key::RippleSize)
    } else if name == "ripple_duration_ms"@ {
        Some(Key::RippleDurationMs)
    } else if name == "ripple_color"@ {
        Some(Key::RippleColor)
    } else if name == "abort_on_user_move"@ {
        Some(Key::AbortOnUserMove)
    } else if name == "user_move_threshold"@ {
        Some(Key::UserMoveThreshold)
    } else if name == "watch_title_changes"@ {
        Some(Key::WatchTitleChanges)
    } else if name == "watch_focus_changes"@ {
        Some(Key::WatchFocusChanges)
    } else if name == "follow_dialog_default_button"@ {
        Some(Key::FollowDialogDefaultButton)
    } else if name == "follow_default_in_browser"@ {
        Some(Key::FollowDefaultInBrowser)
    } else if name == "uia_enabled"@ {
        Some(Key::UiaEnabled)
    } else if name == "uia_dialog_like_only"@ {
        Some(Key::UiaDialogLikeOnly)
    } else if name == "uia_max_elements"@ {
        Some(Key::UiaMaxElements)
    } else if name == "log_level"@ {
        Some(Key::LogLevel)
    } else if name == "skip_file_dialogs"@ {
        Some(Key::SkipFileDialogs)
    } else if name == "skip_progress_dialogs"@ {
        Some(Key::SkipProgressDialogs)
    } else if name == "exclude_processes"@ {
        Some(Key::ExcludeProcesses)
    } else if name == "exclude_titles"@ {
        Some(Key::ExcludeTitles)
    } else if name == "extra_button_labels"@ {
        Some(Key::ExtraButtonLabels)
    } else {
        None
    }
}

/// The setting named by `name`, if any.
pub fn lookup_key(name: &[char]) -> (r: Option<Key>)
    ensures
        r == key_of(name@),
{
    if is_word(name, "language") {
        Some(Key::Language)
    } else if is_word(name, "theme") {
        Some(Key::Theme)
    } else if is_word(name, "enabled") {
        Some(Key::Enabled)
    } else if is_word(name, "delay_ms") {
        Some(Key::DelayMs)
    } else if is_word(name, "sound_enabled") {
        Some(Key::SoundEnabled)
    } else if is_word(name, "wav_path") {
        Some(Key::WavPath)
    } else if is_word(name, "standard_dialog_only") {
        Some(Key::StandardDialogOnly)
    } else if is_word(name, "require_foreground") {
        Some(Key::RequireForeground)
    } else if is_word(name, "skip_if_cursor_inside") {
        Some(Key::SkipIfCursorInside)
    } else if is_word(name, "move_once_per_dialog") {
        Some(Key::MoveOncePerDialog)
    } else if is_word(name, "ignore_own_process") {
        Some(Key::IgnoreOwnProcess)
    } else if is_word(name, "move_animation") {
        Some(Key::MoveAnimation)
    } else if is_word(name, "move_duration_ms") {
        Some(Key::MoveDurationMs)
    } else if is_word(name, "move_wobble") {
        Some(Key::MoveWobble)
    } else if is_word(name, "cursor_animation") {
        Some(Key::CursorAnimation)
    } else if is_word(name, "ripple_enabled") {
        Some(Key::RippleEnabled)
    } else if is_word(name, "ripple_size") {
        Some(Key::RippleSize)
    } else if is_word(name, "ripple_duration_ms") {
        Some(Key::RippleDurationMs)
    } else if is_word(name, "ripple_color") {
        Some(Key::RippleColor)
    } else if is_word(name, "abort_on_user_move") {
        Some(Key::AbortOnUserMove)
    } else if is_word(name, "user_move_threshold") {
        Some(Key::UserMoveThreshold)
    } else if is_word(name, "watch_title_changes") {
        Some(Key::WatchTitleChanges)
    } else if is_word(name, "watch_focus_changes") {
        Some(Key::WatchFocusChanges)
    } else if is_word(name, "follow_dialog_default_button") {
        Some(Key::FollowDialogDefaultButton)
    } else if is_word(name, "follow_default_in_browser") {
        Some(Key::FollowDefaultInBrowser)
    } else if is_word(name, "uia_enabled") {
        Some(Key::UiaEnabled)
    } else if is_word(name, "uia_dialog_like_only") {
        Some(Key::UiaDialogLikeOnly)
    } else if is_word(name, "uia_max_elements") {
        Some(Key::UiaMaxElements)
    } else if is_word(name, "log_level") {
        Some(Key::LogLevel)
    } else if is_word(name, "skip_file_dialogs") {
        Some(Key::SkipFileDialogs)
    } else if is_word(name, "skip_progress_dialogs") {
        Some(Key::SkipProgressDialogs)
    } else if is_word(name, "exclude_processes") {
        Some(Key::ExcludeProcesses)
    } else if is_word(name, "exclude_titles") {
        Some(Key::ExcludeTitles)
    } else if is_word(name, "extra_button_labels") {
        Some(Key::ExtraButtonLabels)
    } else {
        None
    }
}

// ---------------------------------------------------------------------------
// Applying one `key = value` line
// ---------------------------------------------------------------------------

/// Settings that are booleans.
pub open spec fn is_flag(k: Key) -> bool {
    k == Key::Enabled || k == Key::SoundEnabled || k == Key::StandardDialogOnly || k == Key::RequireForeground || k == Key::SkipIfCursorInside || k == Key::MoveOncePerDialog || k == Key::IgnoreOwnProcess || k == Key::MoveAnimation || k == Key::CursorAnimation || k == Key::RippleEnabled || k == Key::AbortOnUserMove || k == Key::WatchTitleChanges || k == Key::WatchFocusChanges || k == Key::FollowDialogDefaultButton || k == Key::FollowDefaultInBrowser || k == Key::UiaEnabled || k == Key::UiaDialogLikeOnly || k == Key::SkipFileDialogs || k == Key::SkipProgressDialogs
}

/// Settings that are numbers limited to a range.
pub open spec fn is_number(k: Key) -> bool {
    k == Key::DelayMs || k == Key::MoveDurationMs || k == Key::MoveWobble || k == Key::RippleSize || k == Key::RippleDurationMs || k == Key::UserMoveThreshold || k == Key::UiaMaxElements || k == Key::LogLevel
}

/// Settings that are comma separated lists.
pub open spec fn is_list(k: Key) -> bool {
    k == Key::ExcludeProcesses || k == Key::ExcludeTitles || k == Key::ExtraButtonLabels
}

/// The value of a boolean setting.
pub open spec fn flag_of(m: Settings, k: Key) -> bool {
    match k {
        Key::Enabled => m.enabled,
        Key::SoundEnabled => m.sound_enabled,
        Key::StandardDialogOnly => m.standard_dialog_only,
        Key::RequireForeground => m.require_foreground,
        Key::SkipIfCursorInside => m.skip_if_cursor_inside,
        Key::MoveOncePerDialog => m.move_once_per_dialog,
        Key::IgnoreOwnProcess => m.ignore_own_process,
        Key::MoveAnimation => m.move_animation,
        Key::CursorAnimation => m.cursor_animation,
        Key::RippleEnabled => m.ripple_enabled,
        Key::AbortOnUserMove => m.abort_on_user_move,
        Key::WatchTitleChanges => m.watch_title_changes,
        Key::WatchFocusChanges => m.watch_focus_changes,
        Key::FollowDialogDefaultButton => m.follow_dialog_default_button,
        Key::FollowDefaultInBrowser => m.follow_default_in_browser,
        Key::UiaEnabled => m.uia_enabled,
        Key::UiaDialogLikeOnly => m.uia_dialog_like_only,
        Key::SkipFileDialogs => m.skip_file_dialogs,
        Key::SkipProgressDialogs => m.skip_progress_dialogs,
        _ => false,
    }
}

/// The settings with a boolean setting replaced.
pub open spec fn with_flag(m: Settings, k: Key, b: bool) -> Settings {
    match k {
        Key::Enabled => Settings { enabled: b, ..m },
        Key::SoundEnabled => Settings { sound_enabled: b, ..m },
        Key::StandardDialogOnly => Settings { standard_dialog_only: b, ..m },
        Key::RequireForeground => Settings { require_foreground: b, ..m },
        Key::SkipIfCursorInside => Settings { skip_if_cursor_inside: b, ..m },
        Key::MoveOncePerDialog => Settings { move_once_per_dialog: b, ..m },
        Key::IgnoreOwnProcess => Settings { ignore_own_process: b, ..m },
        Key::MoveAnimation => Settings { move_animation: b, ..m },
        Key::CursorAnimation => Settings { cursor_animation: b, ..m },
        Key::RippleEnabled => Settings { ripple_enabled: b, ..m },
        Key::AbortOnUserMove => Settings { abort_on_user_move: b, ..m },
        Key::WatchTitleChanges => Settings { watch_title_changes: b, ..m },
        Key::WatchFocusChanges => Settings { watch_focus_changes: b, ..m },
        Key::FollowDialogDefaultButton => Settings { follow_dialog_default_button: b, ..m },
        Key::FollowDefaultInBrowser => Settings { follow_default_in_browser: b, ..m },
        Key::UiaEnabled => Settings { uia_enabled: b, ..m },
        Key::UiaDialogLikeOnly => Settings { uia_dialog_like_only: b, ..m },
        Key::SkipFileDialogs => Settings { skip_file_dialogs: b, ..m },
        Key::SkipProgressDialogs => Settings { skip_progress_dialogs: b, ..m },
        _ => m,
    }
}

/// The value of a numeric setting.
pub open spec fn number_of(m: Settings, k: Key) -> u32 {
    match k {
        Key::DelayMs => m.delay_ms,
        Key::MoveDurationMs => m.move_duration_ms,
        Key::MoveWobble => m.move_wobble,
        Key::RippleSize => m.ripple_size,
        Key::RippleDurationMs => m.ripple_duration_ms,
        Key::UserMoveThreshold => m.user_move_threshold,
        Key::UiaMaxElements => m.uia_max_elements,
        Key::LogLevel => m.log_level,
        _ => 0,
    }
}

/// The settings with a numeric setting replaced.
pub open spec fn with_number(m: Settings, k: Key, n: u32) -> Settings {
    match k {
        Key::DelayMs => Settings { delay_ms: n, ..m },
        Key::MoveDurationMs => Settings { move_duration_ms: n, ..m },
        Key::MoveWobble => Settings { move_wobble: n, ..m },
        Key::RippleSize => Settings { ripple_size: n, ..m },
        Key::RippleDurationMs => Settings { ripple_duration_ms: n, ..m },
        Key::UserMoveThreshold => Settings { user_move_threshold: n, ..m },
        Key::UiaMaxElements => Settings { uia_max_elements: n, ..m },
        Key::LogLevel => Settings { log_level: n, ..m },
        _ => m,
    }
}

/// The range a numeric setting is limited to.
pub open spec fn number_range(k: Key) -> (u32, u32) {
    match k {
        Key::DelayMs => (0, 60000),
        Key::MoveDurationMs => (0, 5000),
        Key::MoveWobble => (0, 40),
        Key::RippleSize => (16, 600),
        Key::RippleDurationMs => (0, 3000),
        Key::UserMoveThreshold => (2, 500),
        Key::UiaMaxElements => (20, 5000),
        Key::LogLevel => (0, 2),
        _ => (0, 0),
    }
}

/// The entries of a list setting.
pub open spec fn list_of(m: Settings, k: Key) -> Seq<Seq<char>> {
    match k {
        Key::ExcludeProcesses => m.exclude_processes,
        Key::ExcludeTitles => m.exclude_titles,
        Key::ExtraButtonLabels => m.extra_button_labels,
        _ => Seq::empty(),
    }
}

/// The settings with a list setting replaced.
pub open spec fn with_list(m: Settings, k: Key, l: Seq<Seq<char>>) -> Settings {
    match k {
        Key::ExcludeProcesses => Settings { exclude_processes: l, ..m },
        Key::ExcludeTitles => Settings { exclude_titles: l, ..m },
        Key::ExtraButtonLabels => Settings { extra_button_labels: l, ..m },
        _ => m,
    }
}

/// The settings after reading `key = v` (`v` already trimmed).
///
/// Booleans keep their value unless `v` spells one; numbers keep theirs unless
/// `v` is a decimal number, and are limited to their range; lists take the
/// entries of `v`; a theme name or language code that is not safe in a path is
/// ignored; quotes around the sound path are dropped.
pub open spec fn apply_key(m: Settings, k: Key, v: Seq<char>) -> Settings {
    if is_flag(k) {
        with_flag(m, k, parse_bool_spec(v, flag_of(m, k)))
    } else if is_number(k) {
        with_number(m, k, number_setting(v, number_of(m, k), number_range(k).0, number_range(k).1))
    } else if is_list(k) {
        with_list(m, k, list_setting(v))
    } else {
        match k {
            Key::Theme => if v.len() == 0 || valid_theme_name(v) {
                Settings { theme: v, ..m }
            } else {
                m
            },
            Key::Language => if valid_code(v) {
                Settings { language: lower(v), ..m }
            } else {
                m
            },
            Key::WavPath => Settings { wav_path: strip_both(v, '"'), ..m },
            _ => Settings { ripple_color: color_setting(v, m.ripple_color), ..m },
        }
    }
}

impl Config {
    pub(crate) fn flag(&self, k: Key) -> (b: bool)
        ensures
            b == flag_of(self@, k),
    {
        match k {
            Key::Enabled => self.enabled,
            Key::SoundEnabled => self.sound_enabled,
            Key::StandardDialogOnly => self.standard_dialog_only,
            Key::RequireForeground => self.require_foreground,
            Key::SkipIfCursorInside => self.skip_if_cursor_inside,
            Key::MoveOncePerDialog => self.move_once_per_dialog,
            Key::IgnoreOwnProcess => self.ignore_own_process,
            Key::MoveAnimation => self.move_animation,
            Key::CursorAnimation => self.cursor_animation,
            Key::RippleEnabled => self.ripple_enabled,
            Key::AbortOnUserMove => self.abort_on_user_move,
            Key::WatchTitleChanges => self.watch_title_changes,
            Key::WatchFocusChanges => self.watch_focus_changes,
            Key::FollowDialogDefaultButton => self.follow_dialog_default_button,
            Key::FollowDefaultInBrowser => self.follow_default_in_browser,
            Key::UiaEnabled => self.uia_enabled,
            Key::UiaDialogLikeOnly => self.uia_dialog_like_only,
            Key::SkipFileDialogs => self.skip_file_dialogs,
            Key::SkipProgressDialogs => self.skip_progress_dialogs,
            _ => false,
        }
    }

    pub(crate) fn with_flag(self, k: Key, b: bool) -> (r: Config)
        requires
            is_flag(k),
        ensures
            r@ == with_flag(self@, k, b),
    {
        match k {
            Key::Enabled => self.set_enabled(b),
            Key::SoundEnabled => self.set_sound_enabled(b),
            Key::StandardDialogOnly => self.set_standard_dialog_only(b),
            Key::RequireForeground => self.set_require_foreground(b),
            Key::SkipIfCursorInside => self.set_skip_if_cursor_inside(b),
            Key::MoveOncePerDialog => self.set_move_once_per_dialog(b),
            Key::IgnoreOwnProcess => self.set_ignore_own_process(b),
            Key::MoveAnimation => self.set_move_animation(b),
            Key::CursorAnimation => self.set_cursor_animation(b),
            Key::RippleEnabled => self.set_ripple_enabled(b),
            Key::AbortOnUserMove => self.set_abort_on_user_move(b),
            Key::WatchTitleChanges => self.set_watch_title_changes(b),
            Key::WatchFocusChanges => self.set_watch_focus_changes(b),
            Key::FollowDialogDefaultButton => self.set_follow_dialog_default_button(b),
            Key::FollowDefaultInBrowser => self.set_follow_default_in_browser(b),
            Key::UiaEnabled => self.set_uia_enabled(b),
            Key::UiaDialogLikeOnly => self.set_uia_dialog_like_only(b),
            Key::SkipFileDialogs => self.set_skip_file_dialogs(b),
            _ => self.set_skip_progress_dialogs(b),
        }
    }

    fn number(&self, k: Key) -> (n: u32)
        ensures
            n == number_of(self@, k),
    {
        match k {
            Key::DelayMs => self.delay_ms,
            Key::MoveDurationMs => self.move_duration_ms,
            Key::MoveWobble => self.move_wobble,
            Key::RippleSize => self.ripple_size,
            Key::RippleDurationMs => self.ripple_duration_ms,
            Key::UserMoveThreshold => self.user_move_threshold,
            Key::UiaMaxElements => self.uia_max_elements,
            Key::LogLevel => self.log_level,
            _ => 0,
        }
    }

    pub(crate) fn with_number(self, k: Key, n: u32) -> (r: Config)
        requires
            is_number(k),
        ensures
            r@ == with_number(self@, k, n),
    {
        match k {
            Key::DelayMs => self.set_delay_ms(n),
            Key::MoveDurationMs => self.set_move_duration_ms(n),
            Key::MoveWobble => self.set_move_wobble(n),
            Key::RippleSize => self.set_ripple_size(n),
            Key::RippleDurationMs => self.set_ripple_duration_ms(n),
            Key::UserMoveThreshold => self.set_user_move_threshold(n),
            Key::UiaMaxElements => self.set_uia_max_elements(n),
            _ => self.set_log_level(n),
        }
    }

    fn with_list(self, k: Key, l: Vec<String>) -> (r: Config)
        requires
            is_list(k),
        ensures
            r@ == with_list(self@, k, string_views(l@)),
    {
        match k {
            Key::ExcludeProcesses => self.set_exclude_processes(l),
            Key::ExcludeTitles => self.set_exclude_titles(l),
            _ => self.set_extra_button_labels(l),
        }
    }

    fn set_enabled(self, b: bool) -> (r: Config)
        ensures
            r@ == with_flag(self@, Key::Enabled, b),
    {
        Config { enabled: b, ..self }
    }

    fn set_sound_enabled(self, b: bool) -> (r: Config)
        ensures
            r@ == with_flag(self@, Key::SoundEnabled, b),
    {
        Config { sound_enabled: b, ..self }
    }

    fn set_standard_dialog_only(self, b: bool) -> (r: Config)
        ensures
            r@ == with_flag(self@, Key::StandardDialogOnly, b),
    {
        Config { standard_dialog_only: b, ..self }
    }

    fn set_require_foreground(self, b: bool) -> (r: Config)
        ensures
            r@ == with_flag(self@, Key::RequireForeground, b),
    {
        Config { require_foreground: b, ..self }
    }

    fn set_skip_if_cursor_inside(self, b: bool) -> (r: Config)
        ensures
            r@ == with_flag(self@, Key::SkipIfCursorInside, b),
    {
        Config { skip_if_cursor_inside: b, ..self }
    }

    fn set_move_once_per_dialog(self, b: bool) -> (r: Config)
        ensures
            r@ == with_flag(self@, Key::MoveOncePerDialog, b),
    {
        Config { move_once_per_dialog: b, ..self }
    }

    fn set_ignore_own_process(self, b: bool) -> (r: Config)
        ensures
            r@ == with_flag(self@, Key::IgnoreOwnProcess, b),
    {
        Config { ignore_own_process: b, ..self }
    }

    fn set_move_animation(self, b: bool) -> (r: Config)
        ensures
            r@ == with_flag(self@, Key::MoveAnimation, b),
    {
        Config { move_animation: b, ..self }
    }

    fn set_cursor_animation(self, b: bool) -> (r: Config)
        ensures
            r@ == with_flag(self@, Key::CursorAnimation, b),
    {
        Config { cursor_animation: b, ..self }
    }

    fn set_ripple_enabled(self, b: bool) -> (r: Config)
        ensures
            r@ == with_flag(self@, Key::RippleEnabled, b),
    {
        Config { ripple_enabled: b, ..self }
    }

    fn set_abort_on_user_move(self, b: bool) -> (r: Config)
        ensures
            r@ == with_flag(self@, Key::AbortOnUserMove, b),
    {
        Config { abort_on_user_move: b, ..self }
    }

    fn set_watch_title_changes(self, b: bool) -> (r: Config)
        ensures
            r@ == with_flag(self@, Key::WatchTitleChanges, b),
    {
        Config { watch_title_changes: b, ..self }
    }

    fn set_watch_focus_changes(self, b: bool) -> (r: Config)
        ensures
            r@ == with_flag(self@, Key::WatchFocusChanges, b),
    {
        Config { watch_focus_changes: b, ..self }
    }

    fn set_follow_dialog_default_button(self, b: bool) -> (r: Config)
        ensures
            r@ == with_flag(self@, Key::FollowDialogDefaultButton, b),
    {
        Config { follow_dialog_default_button: b, ..self }
    }

    fn set_follow_default_in_browser(self, b: bool) -> (r: Config)
        ensures
            r@ == with_flag(self@, Key::FollowDefaultInBrowser, b),
    {
        Config { follow_default_in_browser: b, ..self }
    }

    fn set_uia_enabled(self, b: bool) -> (r: Config)
        ensures
            r@ == with_flag(self@, Key::UiaEnabled, b),
    {
        Config { uia_enabled: b, ..self }
    }

    fn set_uia_dialog_like_only(self, b: bool) -> (r: Config)
        ensures
            r@ == with_flag(self@, Key::UiaDialogLikeOnly, b),
    {
        Config { uia_dialog_like_only: b, ..self }
    }

    fn set_skip_file_dialogs(self, b: bool) -> (r: Config)
        ensures
            r@ == with_flag(self@, Key::SkipFileDialogs, b),
    {
        Config { skip_file_dialogs: b, ..self }
    }

    fn set_skip_progress_dialogs(self, b: bool) -> (r: Config)
        ensures
            r@ == with_flag(self@, Key::SkipProgressDialogs, b),
    {
        Config { skip_progress_dialogs: b, ..self }
    }

    fn set_delay_ms(self, n: u32) -> (r: Config)
        ensures
            r@ == with_number(self@, Key::DelayMs, n),
    {
        Config { delay_ms: n, ..self }
    }

    fn set_move_duration_ms(self, n: u32) -> (r: Config)
        ensures
            r@ == with_number(self@, Key::MoveDurationMs, n),
    {
        Config { move_duration_ms: n, ..self }
    }

    fn set_move_wobble(self, n: u32) -> (r: Config)
        ensures
            r@ == with_number(self@, Key::MoveWobble, n),
    {
        Config { move_wobble: n, ..self }
    }

    fn set_ripple_size(self, n: u32) -> (r: Config)
        ensures
            r@ == with_number(self@, Key::RippleSize, n),
    {
        Config { ripple_size: n, ..self }
    }

    fn set_ripple_duration_ms(self, n: u32) -> (r: Config)
        ensures
            r@ == with_number(self@, Key::RippleDurationMs, n),
    {
        Config { ripple_duration_ms: n, ..self }
    }

    fn set_user_move_threshold(self, n: u32) -> (r: Config)
        ensures
            r@ == with_number(self@, Key::UserMoveThreshold, n),
    {
        Config { user_move_threshold: n, ..self }
    }

    fn set_uia_max_elements(self, n: u32) -> (r: Config)
        ensures
            r@ == with_number(self@, Key::UiaMaxElements, n),
    {
        Config { uia_max_elements: n, ..self }
    }

    fn set_log_level(self, n: u32) -> (r: Config)
        ensures
            r@ == with_number(self@, Key::LogLevel, n),
    {
        Config { log_level: n, ..self }
    }

    fn set_exclude_processes(self, l: Vec<String>) -> (r: Config)
        ensures
            r@ == with_list(self@, Key::ExcludeProcesses, string_views(l@)),
    {
        Config { exclude_processes: l, ..self }
    }

    fn set_exclude_titles(self, l: Vec<String>) -> (r: Config)
        ensures
            r@ == with_list(self@, Key::ExcludeTitles, string_views(l@)),
    {
        Config { exclude_titles: l, ..self }
    }

    fn set_extra_button_labels(self, l: Vec<String>) -> (r: Config)
        ensures
            r@ == with_list(self@, Key::ExtraButtonLabels, string_views(l@)),
    {
        Config { extra_button_labels: l, ..self }
    }

}

fn number_bounds(k: Key) -> (r: (u32, u32))
    ensures
        r == number_range(k),
        r.0 <= r.1,
{
    match k {
        Key::DelayMs => (0, 60000),
        Key::MoveDurationMs => (0, 5000),
        Key::MoveWobble => (0, 40),
        Key::RippleSize => (16, 600),
        Key::RippleDurationMs => (0, 3000),
        Key::UserMoveThreshold => (2, 500),
        Key::UiaMaxElements => (20, 5000),
        Key::LogLevel => (0, 2),
        _ => (0, 0),
    }
}

fn key_is_flag(k: Key) -> (b: bool)
    ensures
        b == is_flag(k),
{
    match k {
        Key::Enabled => true,
        Key::SoundEnabled => true,
        Key::StandardDialogOnly => true,
        Key::RequireForeground => true,
        Key::SkipIfCursorInside => true,
        Key::MoveOncePerDialog => true,
        Key::IgnoreOwnProcess => true,
        Key::MoveAnimation => true,
        Key::CursorAnimation => true,
        Key::RippleEnabled => true,
        Key::AbortOnUserMove => true,
        Key::WatchTitleChanges => true,
        Key::WatchFocusChanges => true,
        Key::FollowDialogDefaultButton => true,
        Key::FollowDefaultInBrowser => true,
        Key::UiaEnabled => true,
        Key::UiaDialogLikeOnly => true,
        Key::SkipFileDialogs => true,
        Key::SkipProgressDialogs => true,
        _ => false,
    }
}

fn key_is_number(k: Key) -> (b: bool)
    ensures
        b == is_number(k),
{
    match k {
        Key::DelayMs => true,
        Key::MoveDurationMs => true,
        Key::MoveWobble => true,
        Key::RippleSize => true,
        Key::RippleDurationMs => true,
        Key::UserMoveThreshold => true,
        Key::UiaMaxElements => true,
        Key::LogLevel => true,
        _ => false,
    }
}

fn key_is_list(k: Key) -> (b: bool)
    ensures
        b == is_list(k),
{
    match k {
        Key::ExcludeProcesses => true,
        Key::ExcludeTitles => true,
        Key::ExtraButtonLabels => true,
        _ => false,
    }
}

/// The settings after reading `key = v` (`v` already trimmed).
pub fn set_key(cfg: Config, k: Key, v: &[char]) -> (r: Config)
    ensures
        r@ == apply_key(cfg@, k, v@),
{
    if key_is_flag(k) {
        let cur = cfg.flag(k);
        let b = parse_bool_chars(v, cur);
        cfg.with_flag(k, b)
    } else if key_is_number(k) {
        let cur = cfg.number(k);
        let (lo, hi) = number_bounds(k);
        let n = read_number(v, cur, lo, hi);
        cfg.with_number(k, n)
    } else if key_is_list(k) {
        let l = parse_list_chars(v);
        cfg.with_list(k, l)
    } else {
        set_text_key(cfg, k, v)
    }
}

/// The settings after reading one of the settings that are neither booleans,
/// numbers nor lists.
fn set_text_key(cfg: Config, k: Key, v: &[char]) -> (r: Config)
    requires
        !is_flag(k),
        !is_number(k),
        !is_list(k),
    ensures
        r@ == apply_key(cfg@, k, v@),
{
    match k {
        Key::Theme => {
            if v.len() == 0 || crate::theme::safe_name(v, 64) {
                cfg.set_theme(string_of(v))
            } else {
                cfg
            }
        },
        Key::Language => {
            if crate::theme::safe_name(v, 32) {
                let l = to_lower(v);
                cfg.set_language(string_of(&l))
            } else {
                cfg
            }
        },
        Key::WavPath => {
            let a = skip_leading(v, 0, v.len(), '"');
            let b = cut_trailing(v, a, v.len(), '"');
            assert(v@.subrange(0, v@.len() as int) == v@);
            let p = copy_range(v, a, b);
            cfg.set_wav_path(string_of(&p))
        },
        _ => {
            let c = read_color(v, cfg.ripple_color);
            cfg.set_ripple_color(c)
        },
    }
}

impl Config {
    pub(crate) fn set_theme(self, t: String) -> (r: Config)
        ensures
            r@ == (Settings { theme: t@, ..self@ }),
    {
        Config { theme: t, ..self }
    }

    pub(crate) fn set_language(self, t: String) -> (r: Config)
        ensures
            r@ == (Settings { language: t@, ..self@ }),
    {
        Config { language: t, ..self }
    }

    pub(crate) fn set_wav_path(self, t: String) -> (r: Config)
        ensures
            r@ == (Settings { wav_path: t@, ..self@ }),
    {
        Config { wav_path: t, ..self }
    }

    fn set_ripple_color(self, c: u32) -> (r: Config)
        ensures
            r@ == (Settings { ripple_color: c, ..self@ }),
    {
        Config { ripple_color: c, ..self }
    }
}


// ---------------------------------------------------------------------------
// Reading the whole file
// ---------------------------------------------------------------------------

/// The settings after reading one line of `config.ini`.
///
/// Blank lines, comments (`;` or `#`) and section headers (`[`) change
/// nothing, and so does a line without `=` or with an unknown key. Keys are
/// matched ignoring ASCII case; key and value are trimmed.
pub open spec fn apply_line(m: Settings, line: Seq<char>) -> Settings {
    let l = trim(line);
    if l.len() == 0 || l[0] == ';' || l[0] == '#' || l[0] == '[' {
        m
    } else {
        let i = find_from(l, 0, '=');
        if i >= l.len() {
            m
        } else {
            let key = lower(trim(l.subrange(0, i)));
            let v = trim(l.subrange(i + 1, l.len() as int));
            match key_of(key) {
                Some(k) => apply_key(m, k, v),
                None => m,
            }
        }
    }
}

/// The settings after reading the given lines in order.
pub open spec fn apply_lines(m: Settings, ls: Seq<Seq<char>>) -> Settings
    decreases ls.len(),
{
    if ls.len() == 0 {
        m
    } else {
        apply_lines(apply_line(m, ls[0]), ls.drop_first())
    }
}

/// The byte order mark that may open the file.
pub open spec fn bom() -> char {
    '\u{feff}'
}

/// The settings that `config.ini` text denotes: the defaults, changed by each
/// line in turn (after any leading byte order marks).
pub open spec fn parse_ini_spec(text: Seq<char>) -> Settings {
    apply_lines(default_settings(), lines(strip_leading(text, bom())))
}

/// The settings after reading the line `s[lo..hi]`.
fn read_line(cfg: Config, s: &[char], lo: usize, hi: usize) -> (r: Config)
    requires
        lo <= hi <= s@.len(),
    ensures
        r@ == apply_line(cfg@, s@.subrange(lo as int, hi as int)),
{
    let (a, b) = trim_bounds(s, lo, hi);
    if a == b {
        return cfg;
    }
    let first = s[a];
    if first == ';' || first == '#' || first == '[' {
        return cfg;
    }
    let l = copy_range(s, a, b);
    let i = find_char(&l, 0, '=');
    if i >= l.len() {
        return cfg;
    }
    let (ka, kb) = trim_bounds(&l, 0, i);
    let key_raw = copy_range(&l, ka, kb);
    let key = to_lower(&key_raw);
    let (va, vb) = trim_bounds(&l, i + 1, l.len());
    let v = copy_range(&l, va, vb);
    match lookup_key(&key) {
        Some(k) => set_key(cfg, k, &v),
        None => cfg,
    }
}

impl Config {
    /// Reads settings from `config.ini` text.
    ///
    /// Starts from the defaults and applies each line in turn; values that
    /// cannot be read leave the setting as it was, so broken input never fails.
    pub fn parse_ini(text: &str) -> (cfg: Config)
        ensures
            cfg@ == parse_ini_spec(text@),
    {
        let t = chars_of(text);
        let start = skip_leading(&t, 0, t.len(), '\u{feff}');
        assert(t@.subrange(0, t@.len() as int) == t@);
        let body = copy_range(&t, start, t.len());
        let mut cfg = Config::default();
        let mut pos: usize = 0;
        while pos < body.len()
            invariant
                pos <= body@.len(),
                body@ == strip_leading(text@, bom()),
                apply_lines(cfg@, lines_from(body@, pos as int)) == parse_ini_spec(text@),
            decreases body@.len() - pos,
        {
            let (lo, hi, next) = line_at(&body, pos);
            let ghost line = body@.subrange(lo as int, hi as int);
            let ghost rest = lines_from(body@, next as int);
            assert((seq![line] + rest)[0] == line);
            assert((seq![line] + rest).drop_first() =~= rest);
            cfg = read_line(cfg, &body, lo, hi);
            pos = next;
        }
        assert(lines_from(body@, pos as int) =~= Seq::<Seq<char>>::empty());
        cfg
    }
}


// ---------------------------------------------------------------------------
// Writing the file
// ---------------------------------------------------------------------------

/// Comment lines `; <line>`, one per entry, each ending in CRLF.
pub open spec fn comment_lines(ls: Seq<Seq<char>>) -> Seq<char>
    decreases ls.len(),
{
    if ls.len() == 0 {
        Seq::empty()
    } else {
        "; "@ + ls[0] + "\r\n"@ + comment_lines(ls.drop_first())
    }
}

/// The key of the language file string that explains a setting: `cfg.<key>`.
pub open spec fn comment_key(k: Key) -> Seq<char> {
    "cfg."@ + key_name(k)
}

/// The heading comment of the file: the `cfg.header` text, each of its lines
/// commented out.
pub open spec fn header_block(cat: Option<Entries>) -> Seq<char> {
    "; "@ + replace_all(translate(cat, "cfg.header"@), "\n"@, "\r\n; "@) + "\r\n\r\n"@
}

/// `bool::to_string`.
pub open spec fn bool_text(b: bool) -> Seq<char> {
    if b {
        "true"@
    } else {
        "false"@
    }
}

/// The entries separated by `sep` (`[String]::join`).
pub open spec fn join(xs: Seq<Seq<char>>, sep: Seq<char>) -> Seq<char>
    decreases xs.len(),
{
    if xs.len() == 0 {
        Seq::empty()
    } else if xs.len() == 1 {
        xs[0]
    } else {
        join(xs.drop_last(), sep) + sep + xs.last()
    }
}

/// How a setting's value is written: booleans as `true`/`false`, numbers in
/// decimal, the colour as six upper-case hex digits, lists joined by `", "`,
/// strings as they are.
pub open spec fn value_text(m: Settings, k: Key) -> Seq<char> {
    if is_flag(k) {
        bool_text(flag_of(m, k))
    } else if is_number(k) {
        decimal(number_of(m, k) as nat)
    } else if is_list(k) {
        join(list_of(m, k), ", "@)
    } else {
        match k {
            Key::Language => m.language,
            Key::Theme => m.theme,
            Key::WavPath => m.wav_path,
            _ => hex_padded(m.ripple_color as nat, 6),
        }
    }
}

/// The line `<key> = <value>`.
pub open spec fn setting_line(m: Settings, k: Key) -> Seq<char> {
    key_name(k) + " = "@ + value_text(m, k)
}

/// One setting in the file: its explanation as comments, then `key = value`
/// and a blank line.
pub open spec fn item_block(m: Settings, cat: Option<Entries>, k: Key) -> Seq<char> {
    comment_lines(lines(translate(cat, comment_key(k)))) + setting_line(m, k) + "\r\n\r\n"@
}

/// The settings from the `i`-th on, in the order of [`key_at`].
pub open spec fn items_from(m: Settings, cat: Option<Entries>, i: nat) -> Seq<char>
    decreases KEY_COUNT - i,
{
    if i >= KEY_COUNT {
        Seq::empty()
    } else {
        item_block(m, cat, key_at(i)) + items_from(m, cat, i + 1)
    }
}

/// The text of `config.ini` for the settings `m`: a byte order mark, the
/// heading comment, then every setting with its explanation.
pub open spec fn ini_text(m: Settings, cat: Option<Entries>) -> Seq<char> {
    seq![bom()] + header_block(cat) + items_from(m, cat, 0)
}

/// Appends `; <line>\r\n` for each line of `text`.
fn push_comment_lines(out: &mut Vec<char>, text: &[char])
    ensures
        final(out)@ == old(out)@ + comment_lines(lines(text@)),
{
    let mut pos: usize = 0;
    let prefix = chars_of("; ");
    let crlf = chars_of("\r\n");
    while pos < text.len()
        invariant
            pos <= text@.len(),
            prefix@ == "; "@,
            crlf@ == "\r\n"@,
            out@ + comment_lines(lines_from(text@, pos as int)) == old(out)@ + comment_lines(
                lines(text@),
            ),
        decreases text@.len() - pos,
    {
        let (lo, hi, next) = line_at(text, pos);
        let ghost line = text@.subrange(lo as int, hi as int);
        let ghost rest = lines_from(text@, next as int);
        assert((seq![line] + rest)[0] == line);
        assert((seq![line] + rest).drop_first() =~= rest);
        let ghost before = out@;
        append_chars(out, &prefix);
        append_range(out, text, lo, hi);
        append_chars(out, &crlf);
        assert(out@ + comment_lines(rest) =~= before + comment_lines(seq![line] + rest));
        pos = next;
    }
    assert(lines_from(text@, pos as int) =~= Seq::<Seq<char>>::empty());
    assert(out@ + comment_lines(lines_from(text@, pos as int)) =~= out@);
}

/// Appends the entries separated by `", "`.
fn push_joined(out: &mut Vec<char>, xs: &Vec<String>)
    ensures
        final(out)@ == old(out)@ + join(string_views(xs@), ", "@),
{
    let ghost v = string_views(xs@);
    let sep = chars_of(", ");
    let ghost start = out@;
    let mut j: usize = 0;
    while j < xs.len()
        invariant
            j <= xs@.len(),
            v == string_views(xs@),
            sep@ == ", "@,
            out@ == start + join(v.take(j as int), ", "@),
        decreases xs@.len() - j,
    {
        if j > 0 {
            append_chars(out, &sep);
        }
        append_str(out, xs[j].as_str());
        proof {
            let tk = v.take(j + 1);
            assert(tk.drop_last() =~= v.take(j as int));
            assert(tk.last() == xs@[j as int]@);
            if j == 0 {
                assert(v.take(0) =~= Seq::<Seq<char>>::empty());
            }
        }
        j = j + 1;
    }
    assert(v.take(xs@.len() as int) =~= v);
}

/// Appends a setting's value as it is written in the file.
fn push_value(out: &mut Vec<char>, cfg: &Config, k: Key)
    ensures
        final(out)@ == old(out)@ + value_text(cfg@, k),
{
    if key_is_flag(k) {
        if cfg.flag(k) {
            append_str(out, "true");
        } else {
            append_str(out, "false");
        }
    } else if key_is_number(k) {
        push_digits(out, cfg.number(k), 10);
    } else if key_is_list(k) {
        match k {
            Key::ExcludeProcesses => push_joined(out, &cfg.exclude_processes),
            Key::ExcludeTitles => push_joined(out, &cfg.exclude_titles),
            _ => push_joined(out, &cfg.extra_button_labels),
        }
    } else {
        match k {
            Key::Language => append_str(out, cfg.language.as_str()),
            Key::Theme => append_str(out, cfg.theme.as_str()),
            Key::WavPath => append_str(out, cfg.wav_path.as_str()),
            _ => push_hex_padded(out, cfg.ripple_color, 6),
        }
    }
}

/// Appends one setting: its explanation as comments, `key = value`, a blank line.
fn push_item(out: &mut Vec<char>, cfg: &Config, cat: &Catalog, k: Key)
    ensures
        final(out)@ == old(out)@ + item_block(cfg@, cat@, k),
{
    let mut ck = chars_of("cfg.");
    append_str(&mut ck, key_str(k));
    let ck_s = string_of(&ck);
    let comment = t(cat, ck_s.as_str());
    let cc = chars_of(comment.as_str());
    let ghost before = out@;
    push_comment_lines(out, &cc);
    append_str(out, key_str(k));
    append_str(out, " = ");
    push_value(out, cfg, k);
    append_str(out, "\r\n\r\n");
    assert(out@ =~= before + item_block(cfg@, cat@, k));
}

impl Config {
    /// The settings as `config.ini` text.
    ///
    /// Each setting is preceded by its explanation from the language file
    /// (`cfg.<key>`) as comment lines; values are written in a form that
    /// [`Config::parse_ini`] reads back.
    pub fn to_ini(&self, cat: &Catalog) -> (s: String)
        ensures
            s@ == ini_text(self@, cat@),
    {
        let mut out: Vec<char> = Vec::new();
        out.push('\u{feff}');
        let h = t(cat, "cfg.header");
        let hc = chars_of(h.as_str());
        let nl = chars_of("\n");
        let rep = chars_of("\r\n; ");
        proof {
            reveal_strlit("\n");
        }
        let body = replace_chars(&hc, &nl, &rep);
        append_str(&mut out, "; ");
        append_chars(&mut out, &body);
        append_str(&mut out, "\r\n\r\n");
        assert(out@ =~= seq![bom()] + header_block(cat@));
        let mut i: usize = 0;
        while i < KEY_COUNT
            invariant
                i <= KEY_COUNT,
                out@ + items_from(self@, cat@, i as nat) == ini_text(self@, cat@),
            decreases KEY_COUNT - i,
        {
            let ghost before = out@;
            push_item(&mut out, self, cat, key_at_index(i));
            assert(out@ + items_from(self@, cat@, (i + 1) as nat) =~= before + items_from(
                self@,
                cat@,
                i as nat,
            ));
            i = i + 1;
        }
        assert(out@ + items_from(self@, cat@, i as nat) =~= out@);
        string_of(&out)
    }
}

} // verus!
