//! The layout of the tray menu: every line, in the order in which it is added,
//! with its text, command id and marks. Submenus are written inline: a
//! `Begin` line opens one, and the matching `End` line closes it and names it
//! in the menu above.
use vstd::prelude::*;
use crate::config::{string_views, Config, Settings};
use crate::tray::MenuCommand;
use crate::lang::{substitute, t, tf, translate, Catalog, Entries};
use crate::num::{decimal, push_digits};
use crate::order::entry_values;
use crate::text::{append_str, chars_eq, chars_eq_ignore_case, chars_of, eq_ignore_case, string_of};
use crate::tray::{
    delay_preset, delay_presets, speed_preset, speed_presets, CMD_ABOUT, CMD_CHOOSE_WAV,
    CMD_DELAY_BASE, CMD_EXIT, CMD_LANG_BASE, CMD_LOG_BASE, CMD_OPEN_CONFIG, CMD_OPEN_LOG,
    CMD_RELOAD_CONFIG, CMD_SPEED_BASE, CMD_TEST_DIALOG, CMD_TEST_SOUND, CMD_THEME_BASE,
    CMD_TOGGLE_AUTOSTART, CMD_TOGGLE_CURSOR_ANIM, CMD_TOGGLE_ENABLED, CMD_TOGGLE_MOVE_ANIM,
    CMD_TOGGLE_RIPPLE, CMD_TOGGLE_SKIP_FILE, CMD_TOGGLE_SOUND, DELAY_PRESET_COUNT, MAX_LANGUAGES,
    MAX_THEMES, SPEED_PRESET_COUNT,
};

verus! {

/// A line of the menu as a value.
pub enum Line {
    /// A command (`id` 0: a note that does nothing), possibly checked or grayed.
    Item { text: Seq<char>, id: u32, checked: bool, grayed: bool },
    Separator,
    /// The lines up to the matching `End` form a submenu.
    Begin,
    /// Closes the submenu opened last and hangs it under `text`.
    End { text: Seq<char>, grayed: bool },
}

/// A line of the menu.
#[derive(Clone, Debug)]
pub enum MenuEntry {
    Item { text: String, id: u32, checked: bool, grayed: bool },
    Separator,
    Begin,
    End { text: String, grayed: bool },
}

impl View for MenuEntry {
    type V = Line;

    open spec fn view(&self) -> Line {
        match self {
            MenuEntry::Item { text, id, checked, grayed } => Line::Item { text: text@, id: *id, checked: *checked, grayed: *grayed },
            MenuEntry::Separator => Line::Separator,
            MenuEntry::Begin => Line::Begin,
            MenuEntry::End { text, grayed } => Line::End { text: text@, grayed: *grayed },
        }
    }
}

/// The lines of a built menu.
pub open spec fn lines(v: Seq<MenuEntry>) -> Seq<Line> {
    v.map_values(|e: MenuEntry| e@)
}

proof fn lemma_lines_add(a: Seq<MenuEntry>, b: Seq<MenuEntry>)
    ensures
        lines(a + b) == lines(a) + lines(b),
{
    assert(lines(a + b) =~= lines(a) + lines(b));
}

// ---------------------------------------------------------------------------
// The layout as values
// ---------------------------------------------------------------------------

/// A command whose text is the translation of `key`.
pub open spec fn command(cat: Option<Entries>, key: Seq<char>, id: u32, checked: bool) -> Line {
    Line::Item { text: translate(cat, key), id, checked, grayed: false }
}

/// A grayed line that only shows `text`.
pub open spec fn note(text: Seq<char>) -> Line {
    Line::Item { text, id: 0, checked: false, grayed: true }
}

/// "Current: ..." with `value` in place of the placeholder.
pub open spec fn current(cat: Option<Entries>, key: Seq<char>, value: Seq<char>) -> Line {
    note(substitute(translate(cat, key), seq![value], 0))
}

/// The head: on/off and the skipping of file dialogs.
pub open spec fn head_lines(cat: Option<Entries>, s: Settings) -> Seq<Line> {
    seq![
        command(cat, "menu.enabled"@, CMD_TOGGLE_ENABLED, s.enabled),
        command(cat, "menu.skip_file_dialogs"@, CMD_TOGGLE_SKIP_FILE, s.skip_file_dialogs),
        Line::Separator,
    ]
}

/// The delay preset `i` as a line.
pub open spec fn delay_line(delay: u32, i: int) -> Line {
    Line::Item {
        text: decimal(delay_presets()[i] as nat) + " ms"@,
        id: (CMD_DELAY_BASE + i) as u32,
        checked: delay_presets()[i] == delay,
        grayed: false,
    }
}

/// The delay submenu.
pub open spec fn delay_lines(cat: Option<Entries>, delay: u32) -> Seq<Line> {
    seq![Line::Begin, current(cat, "menu.delay.current"@, decimal(delay as nat)), Line::Separator]
        + Seq::new(DELAY_PRESET_COUNT as nat, |i: int| delay_line(delay, i))
        + seq![Line::End { text: translate(cat, "menu.delay"@), grayed: false }]
}

/// The sound: on/off, the file in use (`name`, or a word for none), choosing
/// and testing; then gliding on/off.
pub open spec fn sound_lines(cat: Option<Entries>, s: Settings, name: Option<Seq<char>>) -> Seq<Line> {
    let shown = match name {
        Some(n) => n,
        None => translate(cat, "msg.sound_unset"@),
    };
    seq![
        Line::Separator,
        command(cat, "menu.sound"@, CMD_TOGGLE_SOUND, s.sound_enabled),
        current(cat, "menu.sound.current"@, shown),
        command(cat, "menu.sound.choose"@, CMD_CHOOSE_WAV, false),
        command(cat, "menu.sound.test"@, CMD_TEST_SOUND, false),
        Line::Separator,
        command(cat, "menu.move_animation"@, CMD_TOGGLE_MOVE_ANIM, s.move_animation),
    ]
}

/// The language key of the name of speed preset `i`.
pub open spec fn speed_key(i: int) -> Seq<char> {
    if i == 0 {
        "menu.speed.fast"@
    } else if i == 1 {
        "menu.speed.normal"@
    } else {
        "menu.speed.slow"@
    }
}

/// The speed preset `i` as a line.
pub open spec fn speed_line(cat: Option<Entries>, duration: u32, i: int) -> Line {
    Line::Item {
        text: substitute(translate(cat, "menu.speed.item"@), seq![translate(cat, speed_key(i)), decimal(speed_presets()[i] as nat)], 0),
        id: (CMD_SPEED_BASE + i) as u32,
        checked: speed_presets()[i] == duration,
        grayed: false,
    }
}

/// The running speed submenu, grayed while gliding is off.
pub open spec fn speed_lines(cat: Option<Entries>, s: Settings) -> Seq<Line> {
    seq![Line::Begin, current(cat, "menu.delay.current"@, decimal(s.move_duration_ms as nat)), Line::Separator]
        + Seq::new(SPEED_PRESET_COUNT as nat, |i: int| speed_line(cat, s.move_duration_ms, i))
        + seq![Line::End { text: translate(cat, "menu.move_speed"@), grayed: !s.move_animation }]
}

/// How many themes are listed: the default takes the first of the
/// [`MAX_THEMES`] entries.
pub open spec fn themes_shown(n: nat) -> nat {
    if n < MAX_THEMES - 1 { n } else { (MAX_THEMES - 1) as nat }
}

/// The theme `themes[i]` as a line.
pub open spec fn theme_line(theme: Seq<char>, themes: Seq<Seq<char>>, i: int) -> Line {
    Line::Item { text: themes[i], id: (CMD_THEME_BASE + i + 1) as u32, checked: theme == themes[i], grayed: false }
}

/// The theme submenu: the default, then the themes found.
pub open spec fn theme_lines(cat: Option<Entries>, theme: Seq<char>, themes: Seq<Seq<char>>) -> Seq<Line> {
    seq![Line::Begin, command(cat, "menu.theme.default"@, CMD_THEME_BASE, theme.len() == 0)]
        + Seq::new(themes_shown(themes.len()), |i: int| theme_line(theme, themes, i))
        + seq![Line::End { text: translate(cat, "menu.theme"@), grayed: false }]
}

/// The effects and starting with Windows.
pub open spec fn effect_lines(cat: Option<Entries>, s: Settings, registered: bool) -> Seq<Line> {
    seq![
        command(cat, "menu.ripple"@, CMD_TOGGLE_RIPPLE, s.ripple_enabled),
        command(cat, "menu.cursor_animation"@, CMD_TOGGLE_CURSOR_ANIM, s.cursor_animation),
        Line::Separator,
        command(cat, "menu.autostart"@, CMD_TOGGLE_AUTOSTART, registered),
        Line::Separator,
    ]
}

/// The diagnostics submenu: a test dialog, the log levels and the log file.
pub open spec fn diagnostics_lines(cat: Option<Entries>, level: u32) -> Seq<Line> {
    seq![
        Line::Begin,
        command(cat, "menu.test_dialog"@, CMD_TEST_DIALOG, false),
        Line::Separator,
        command(cat, "menu.log.off"@, CMD_LOG_BASE, level == 0),
        command(cat, "menu.log.normal"@, (CMD_LOG_BASE + 1) as u32, level == 1),
        command(cat, "menu.log.verbose"@, (CMD_LOG_BASE + 2) as u32, level == 2),
        Line::Separator,
        command(cat, "menu.open_log"@, CMD_OPEN_LOG, false),
        Line::End { text: translate(cat, "menu.diagnostics"@), grayed: false },
    ]
}

/// How many languages are listed.
pub open spec fn languages_shown(n: nat) -> nat {
    if n < MAX_LANGUAGES { n } else { MAX_LANGUAGES as nat }
}

/// The language `languages[i]` (code, name) as a line; the code is compared
/// without regard to case.
pub open spec fn language_line(language: Seq<char>, languages: Seq<(Seq<char>, Seq<char>)>, i: int) -> Line {
    Line::Item {
        text: languages[i].1,
        id: (CMD_LANG_BASE + i) as u32,
        checked: eq_ignore_case(languages[i].0, language),
        grayed: false,
    }
}

/// The language submenu, present only when there is a choice.
pub open spec fn language_lines(cat: Option<Entries>, language: Seq<char>, languages: Seq<(Seq<char>, Seq<char>)>) -> Seq<Line> {
    if languages.len() > 1 {
        seq![Line::Begin]
            + Seq::new(languages_shown(languages.len()), |i: int| language_line(language, languages, i))
            + seq![Line::End { text: translate(cat, "menu.language"@), grayed: false }]
    } else {
        Seq::empty()
    }
}

/// The tail: the settings file, about, and exit.
pub open spec fn tail_lines(cat: Option<Entries>) -> Seq<Line> {
    seq![
        command(cat, "menu.open_config"@, CMD_OPEN_CONFIG, false),
        command(cat, "menu.reload_config"@, CMD_RELOAD_CONFIG, false),
        command(cat, "menu.about"@, CMD_ABOUT, false),
        Line::Separator,
        command(cat, "menu.exit"@, CMD_EXIT, false),
    ]
}

/// The whole menu for the settings `s`, the themes and languages found, whether
/// starting with Windows is registered, and the file name of the sound in use.
pub open spec fn menu_lines(
    cat: Option<Entries>,
    s: Settings,
    themes: Seq<Seq<char>>,
    languages: Seq<(Seq<char>, Seq<char>)>,
    registered: bool,
    sound_name: Option<Seq<char>>,
) -> Seq<Line> {
    head_lines(cat, s) + delay_lines(cat, s.delay_ms) + sound_lines(cat, s, sound_name) + speed_lines(cat, s)
        + theme_lines(cat, s.theme, themes) + effect_lines(cat, s, registered) + diagnostics_lines(cat, s.log_level)
        + language_lines(cat, s.language, languages) + tail_lines(cat)
}

/// Every command of a line is one that the tray understands (notes, with id 0,
/// do nothing).
pub open spec fn understood(l: Line) -> bool {
    match l {
        Line::Item { id, .. } => id == 0 || !(crate::tray::command_of(id) is Unknown),
        _ => true,
    }
}

pub open spec fn all_understood(ls: Seq<Line>) -> bool {
    forall|k: int| 0 <= k < ls.len() ==> understood(#[trigger] ls[k])
}

proof fn lemma_understood_add(a: Seq<Line>, b: Seq<Line>)
    requires
        all_understood(a),
        all_understood(b),
    ensures
        all_understood(a + b),
{
    assert forall|k: int| 0 <= k < (a + b).len() implies understood(#[trigger] (a + b)[k]) by {
        if k < a.len() {
            assert((a + b)[k] == a[k]);
        } else {
            assert((a + b)[k] == b[k - a.len()]);
        }
    }
}

/// Whatever the settings, themes and languages, every command that the menu
/// offers is one that the tray understands.
pub proof fn lemma_menu_commands_understood(
    cat: Option<Entries>,
    s: Settings,
    themes: Seq<Seq<char>>,
    languages: Seq<(Seq<char>, Seq<char>)>,
    registered: bool,
    sound_name: Option<Seq<char>>,
)
    ensures
        all_understood(menu_lines(cat, s, themes, languages, registered, sound_name)),
{
    let h = head_lines(cat, s);
    assert(all_understood(h)) by {
        assert forall|k: int| 0 <= k < h.len() implies understood(#[trigger] h[k]) by {}
    }
    let d = delay_lines(cat, s.delay_ms);
    assert(all_understood(d)) by {
        assert forall|k: int| 0 <= k < d.len() implies understood(#[trigger] d[k]) by {
            if 3 <= k < 3 + DELAY_PRESET_COUNT {
                assert(d[k] == delay_line(s.delay_ms, k - 3));
            }
        }
    }
    let so = sound_lines(cat, s, sound_name);
    assert(all_understood(so)) by {
        assert forall|k: int| 0 <= k < so.len() implies understood(#[trigger] so[k]) by {}
    }
    let sp = speed_lines(cat, s);
    assert(all_understood(sp)) by {
        assert forall|k: int| 0 <= k < sp.len() implies understood(#[trigger] sp[k]) by {
            if 3 <= k < 3 + SPEED_PRESET_COUNT {
                assert(sp[k] == speed_line(cat, s.move_duration_ms, k - 3));
            }
        }
    }
    let th = theme_lines(cat, s.theme, themes);
    assert(all_understood(th)) by {
        assert forall|k: int| 0 <= k < th.len() implies understood(#[trigger] th[k]) by {
            if 2 <= k < 2 + themes_shown(themes.len()) {
                assert(th[k] == theme_line(s.theme, themes, k - 2));
            }
        }
    }
    let ef = effect_lines(cat, s, registered);
    assert(all_understood(ef)) by {
        assert forall|k: int| 0 <= k < ef.len() implies understood(#[trigger] ef[k]) by {}
    }
    let dg = diagnostics_lines(cat, s.log_level);
    assert(all_understood(dg)) by {
        assert forall|k: int| 0 <= k < dg.len() implies understood(#[trigger] dg[k]) by {}
    }
    let lg = language_lines(cat, s.language, languages);
    assert(all_understood(lg)) by {
        assert forall|k: int| 0 <= k < lg.len() implies understood(#[trigger] lg[k]) by {
            if 1 <= k < 1 + languages_shown(languages.len()) {
                assert(lg[k] == language_line(s.language, languages, k - 1));
            }
        }
    }
    let tl = tail_lines(cat);
    assert(all_understood(tl)) by {
        assert forall|k: int| 0 <= k < tl.len() implies understood(#[trigger] tl[k]) by {}
    }
    lemma_understood_add(h, d);
    lemma_understood_add(h + d, so);
    lemma_understood_add(h + d + so, sp);
    lemma_understood_add(h + d + so + sp, th);
    lemma_understood_add(h + d + so + sp + th, ef);
    lemma_understood_add(h + d + so + sp + th + ef, dg);
    lemma_understood_add(h + d + so + sp + th + ef + dg, lg);
    lemma_understood_add(h + d + so + sp + th + ef + dg + lg, tl);
}

/// Each item of a list in the menu stands for the command that chooses that
/// very item: the delay and speed presets by their position, the themes found
/// after the default entry, and the languages found in order.
pub proof fn lemma_items_choose_themselves(
    cat: Option<Entries>,
    s: Settings,
    themes: Seq<Seq<char>>,
    languages: Seq<(Seq<char>, Seq<char>)>,
    j: int,
)
    ensures
        0 <= j < DELAY_PRESET_COUNT ==> (delay_line(s.delay_ms, j) matches Line::Item { id, .. }
            && crate::tray::command_of(id) == MenuCommand::Delay(j as usize)),
        0 <= j < SPEED_PRESET_COUNT ==> (speed_line(cat, s.move_duration_ms, j) matches Line::Item { id, .. }
            && crate::tray::command_of(id) == MenuCommand::Speed(j as usize)),
        0 <= j < themes_shown(themes.len()) ==> (theme_line(s.theme, themes, j) matches Line::Item { id, .. }
            && crate::tray::command_of(id) == MenuCommand::Theme((j + 1) as usize)),
        0 <= j < languages_shown(languages.len()) ==> (language_line(s.language, languages, j) matches Line::Item { id, .. }
            && crate::tray::command_of(id) == MenuCommand::Language(j as usize)),
{
}

/// What is chosen from a list of the menu shows as checked the next time the
/// menu opens: a delay or speed preset, a theme found, or a language found.
pub proof fn lemma_chosen_item_is_checked(
    c: Settings,
    themes: Seq<Seq<char>>,
    languages: Seq<(Seq<char>, Seq<char>)>,
    cat: Option<Entries>,
    j: int,
)
    ensures
        0 <= j < DELAY_PRESET_COUNT ==> ({
            let n = crate::tray::settings_after(c, MenuCommand::Delay(j as usize), None);
            n is Some && (delay_line(n.unwrap().delay_ms, j) matches Line::Item { checked, .. } && checked)
        }),
        0 <= j < SPEED_PRESET_COUNT ==> ({
            let n = crate::tray::settings_after(c, MenuCommand::Speed(j as usize), None);
            n is Some && (speed_line(cat, n.unwrap().move_duration_ms, j) matches Line::Item { checked, .. } && checked)
        }),
        0 <= j < themes_shown(themes.len()) ==> ({
            let n = crate::tray::settings_after(c, MenuCommand::Theme((j + 1) as usize), Some(themes[j]));
            n is Some && (theme_line(n.unwrap().theme, themes, j) matches Line::Item { checked, .. } && checked)
        }),
        0 <= j < languages_shown(languages.len()) ==> ({
            let n = crate::tray::settings_after(c, MenuCommand::Language(j as usize), Some(languages[j].0));
            n is Some && (language_line(n.unwrap().language, languages, j) matches Line::Item { checked, .. } && checked)
        }),
{
}

// ---------------------------------------------------------------------------
// Building it
// ---------------------------------------------------------------------------

fn join(out: &mut Vec<MenuEntry>, part: Vec<MenuEntry>)
    ensures
        lines(final(out)@) == lines(old(out)@) + lines(part@),
{
    let mut p = part;
    let ghost a = out@;
    let ghost b = p@;
    out.append(&mut p);
    proof {
        lemma_lines_add(a, b);
    }
}

fn push_line(out: &mut Vec<MenuEntry>, e: MenuEntry)
    ensures
        lines(final(out)@) == lines(old(out)@).push(e@),
{
    let ghost a = out@;
    out.push(e);
    assert(lines(out@) =~= lines(a).push(e@));
}

fn command_entry(cat: &Catalog, key: &str, id: u32, checked: bool) -> (e: MenuEntry)
    ensures
        e@ == command(cat@, key@, id, checked),
{
    MenuEntry::Item { text: t(cat, key), id, checked, grayed: false }
}

fn current_entry(cat: &Catalog, key: &str, value: &str) -> (e: MenuEntry)
    ensures
        e@ == current(cat@, key@, value@),
{
    let args: Vec<&str> = vec![value];
    assert(args@.map_values(|a: &str| a@) =~= seq![value@]);
    MenuEntry::Item { text: tf(cat, key, args.as_slice()), id: 0, checked: false, grayed: true }
}

fn decimal_string(n: u32) -> (s: String)
    ensures
        s@ == decimal(n as nat),
{
    let mut v: Vec<char> = Vec::new();
    push_digits(&mut v, n, 10);
    assert(v@ =~= decimal(n as nat));
    string_of(&v)
}

fn head_part(cat: &Catalog, cfg: &Config) -> (r: Vec<MenuEntry>)
    ensures
        lines(r@) == head_lines(cat@, cfg@),
{
    let r = vec![
        command_entry(cat, "menu.enabled", CMD_TOGGLE_ENABLED, cfg.enabled),
        command_entry(cat, "menu.skip_file_dialogs", CMD_TOGGLE_SKIP_FILE, cfg.skip_file_dialogs),
        MenuEntry::Separator,
    ];
    assert(lines(r@) =~= head_lines(cat@, cfg@));
    r
}

fn delay_part(cat: &Catalog, delay: u32) -> (r: Vec<MenuEntry>)
    ensures
        lines(r@) == delay_lines(cat@, delay),
{
    let d = decimal_string(delay);
    let mut r = vec![MenuEntry::Begin, current_entry(cat, "menu.delay.current", d.as_str()), MenuEntry::Separator];
    let ghost start = lines(r@);
    assert(start =~= seq![Line::Begin, current(cat@, "menu.delay.current"@, decimal(delay as nat)), Line::Separator]);
    let mut i: usize = 0;
    while i < DELAY_PRESET_COUNT
        invariant
            i <= DELAY_PRESET_COUNT,
            lines(r@).len() == start.len() + i,
            forall|j: int| 0 <= j < start.len() ==> lines(r@)[j] == start[j],
            forall|j: int| 0 <= j < i ==> lines(r@)[start.len() + j] == delay_line(delay, j),
        decreases DELAY_PRESET_COUNT - i,
    {
        let ms = delay_preset(i);
        let mut text: Vec<char> = Vec::new();
        push_digits(&mut text, ms, 10);
        append_str(&mut text, " ms");
        let e = MenuEntry::Item { text: string_of(&text), id: CMD_DELAY_BASE + i as u32, checked: ms == delay, grayed: false };
        assert(e@ == delay_line(delay, i as int));
        push_line(&mut r, e);
        i = i + 1;
    }
    push_line(&mut r, MenuEntry::End { text: t(cat, "menu.delay"), grayed: false });
    assert(lines(r@) =~= delay_lines(cat@, delay));
    r
}

fn sound_part(cat: &Catalog, cfg: &Config, sound_name: Option<String>) -> (r: Vec<MenuEntry>)
    ensures
        lines(r@) == sound_lines(cat@, cfg@, match sound_name { Some(n) => Some(n@), None => None }),
{
    let shown = match sound_name {
        Some(n) => n,
        None => t(cat, "msg.sound_unset"),
    };
    let r = vec![
        MenuEntry::Separator,
        command_entry(cat, "menu.sound", CMD_TOGGLE_SOUND, cfg.sound_enabled),
        current_entry(cat, "menu.sound.current", shown.as_str()),
        command_entry(cat, "menu.sound.choose", CMD_CHOOSE_WAV, false),
        command_entry(cat, "menu.sound.test", CMD_TEST_SOUND, false),
        MenuEntry::Separator,
        command_entry(cat, "menu.move_animation", CMD_TOGGLE_MOVE_ANIM, cfg.move_animation),
    ];
    assert(lines(r@) =~= sound_lines(cat@, cfg@, match sound_name { Some(n) => Some(n@), None => None }));
    r
}

fn speed_key_of(i: usize) -> (k: &'static str)
    requires
        i < SPEED_PRESET_COUNT,
    ensures
        k@ == speed_key(i as int),
{
    if i == 0 {
        "menu.speed.fast"
    } else if i == 1 {
        "menu.speed.normal"
    } else {
        "menu.speed.slow"
    }
}

fn speed_part(cat: &Catalog, cfg: &Config) -> (r: Vec<MenuEntry>)
    ensures
        lines(r@) == speed_lines(cat@, cfg@),
{
    let duration = cfg.move_duration_ms;
    let d = decimal_string(duration);
    let mut r = vec![MenuEntry::Begin, current_entry(cat, "menu.delay.current", d.as_str()), MenuEntry::Separator];
    let ghost start = lines(r@);
    assert(start =~= seq![Line::Begin, current(cat@, "menu.delay.current"@, decimal(duration as nat)), Line::Separator]);
    let mut i: usize = 0;
    while i < SPEED_PRESET_COUNT
        invariant
            i <= SPEED_PRESET_COUNT,
            lines(r@).len() == start.len() + i,
            forall|j: int| 0 <= j < start.len() ==> lines(r@)[j] == start[j],
            forall|j: int| 0 <= j < i ==> lines(r@)[start.len() + j] == speed_line(cat@, duration, j),
        decreases SPEED_PRESET_COUNT - i,
    {
        let ms = speed_preset(i);
        let name = t(cat, speed_key_of(i));
        let num = decimal_string(ms);
        let args: Vec<&str> = vec![name.as_str(), num.as_str()];
        assert(args@.map_values(|a: &str| a@) =~= seq![translate(cat@, speed_key(i as int)), decimal(ms as nat)]);
        let e = MenuEntry::Item {
            text: tf(cat, "menu.speed.item", args.as_slice()),
            id: CMD_SPEED_BASE + i as u32,
            checked: ms == duration,
            grayed: false,
        };
        assert(e@ == speed_line(cat@, duration, i as int));
        push_line(&mut r, e);
        i = i + 1;
    }
    push_line(&mut r, MenuEntry::End { text: t(cat, "menu.move_speed"), grayed: !cfg.move_animation });
    assert(lines(r@) =~= speed_lines(cat@, cfg@));
    r
}

fn theme_part(cat: &Catalog, theme: &String, themes: &[String]) -> (r: Vec<MenuEntry>)
    ensures
        lines(r@) == theme_lines(cat@, theme@, string_views(themes@)),
{
    let ghost names = string_views(themes@);
    let mut r = vec![MenuEntry::Begin, command_entry(cat, "menu.theme.default", CMD_THEME_BASE, theme.as_str().is_empty())];
    let ghost start = lines(r@);
    assert(start =~= seq![Line::Begin, command(cat@, "menu.theme.default"@, CMD_THEME_BASE, theme@.len() == 0)]);
    let n = if themes.len() < MAX_THEMES - 1 { themes.len() } else { MAX_THEMES - 1 };
    let current_theme = chars_of(theme.as_str());
    let mut i: usize = 0;
    while i < n
        invariant
            i <= n,
            n == themes_shown(themes@.len() as nat),
            names == string_views(themes@),
            current_theme@ == theme@,
            lines(r@).len() == start.len() + i,
            forall|j: int| 0 <= j < start.len() ==> lines(r@)[j] == start[j],
            forall|j: int| 0 <= j < i ==> lines(r@)[start.len() + j] == theme_line(theme@, names, j),
        decreases n - i,
    {
        let name = themes[i].clone();
        let same = chars_eq(&chars_of(name.as_str()), &current_theme);
        let e = MenuEntry::Item { text: name, id: CMD_THEME_BASE + i as u32 + 1, checked: same, grayed: false };
        assert(e@ == theme_line(theme@, names, i as int));
        push_line(&mut r, e);
        i = i + 1;
    }
    push_line(&mut r, MenuEntry::End { text: t(cat, "menu.theme"), grayed: false });
    assert(lines(r@) =~= theme_lines(cat@, theme@, names));
    r
}

fn effect_part(cat: &Catalog, cfg: &Config, registered: bool) -> (r: Vec<MenuEntry>)
    ensures
        lines(r@) == effect_lines(cat@, cfg@, registered),
{
    let r = vec![
        command_entry(cat, "menu.ripple", CMD_TOGGLE_RIPPLE, cfg.ripple_enabled),
        command_entry(cat, "menu.cursor_animation", CMD_TOGGLE_CURSOR_ANIM, cfg.cursor_animation),
        MenuEntry::Separator,
        command_entry(cat, "menu.autostart", CMD_TOGGLE_AUTOSTART, registered),
        MenuEntry::Separator,
    ];
    assert(lines(r@) =~= effect_lines(cat@, cfg@, registered));
    r
}

fn diagnostics_part(cat: &Catalog, level: u32) -> (r: Vec<MenuEntry>)
    ensures
        lines(r@) == diagnostics_lines(cat@, level),
{
    let r = vec![
        MenuEntry::Begin,
        command_entry(cat, "menu.test_dialog", CMD_TEST_DIALOG, false),
        MenuEntry::Separator,
        command_entry(cat, "menu.log.off", CMD_LOG_BASE, level == 0),
        command_entry(cat, "menu.log.normal", CMD_LOG_BASE + 1, level == 1),
        command_entry(cat, "menu.log.verbose", CMD_LOG_BASE + 2, level == 2),
        MenuEntry::Separator,
        command_entry(cat, "menu.open_log", CMD_OPEN_LOG, false),
        MenuEntry::End { text: t(cat, "menu.diagnostics"), grayed: false },
    ];
    assert(lines(r@) =~= diagnostics_lines(cat@, level));
    r
}

fn language_part(cat: &Catalog, language: &String, languages: &[(String, String)]) -> (r: Vec<MenuEntry>)
    ensures
        lines(r@) == language_lines(cat@, language@, entry_values(languages@)),
{
    let ghost langs = entry_values(languages@);
    if languages.len() <= 1 {
        let r: Vec<MenuEntry> = Vec::new();
        assert(lines(r@) =~= language_lines(cat@, language@, langs));
        return r;
    }
    let mut r = vec![MenuEntry::Begin];
    let ghost start = lines(r@);
    assert(start =~= seq![Line::Begin]);
    let n = if languages.len() < MAX_LANGUAGES { languages.len() } else { MAX_LANGUAGES };
    let current_language = chars_of(language.as_str());
    let mut i: usize = 0;
    while i < n
        invariant
            i <= n,
            n == languages_shown(languages@.len() as nat),
            langs == entry_values(languages@),
            current_language@ == language@,
            lines(r@).len() == start.len() + i,
            forall|j: int| 0 <= j < start.len() ==> lines(r@)[j] == start[j],
            forall|j: int| 0 <= j < i ==> lines(r@)[start.len() + j] == language_line(language@, langs, j),
        decreases n - i,
    {
        let code = chars_of(languages[i].0.as_str());
        let checked = chars_eq_ignore_case(&code, &current_language);
        let e = MenuEntry::Item { text: languages[i].1.clone(), id: CMD_LANG_BASE + i as u32, checked, grayed: false };
        assert(e@ == language_line(language@, langs, i as int));
        push_line(&mut r, e);
        i = i + 1;
    }
    push_line(&mut r, MenuEntry::End { text: t(cat, "menu.language"), grayed: false });
    assert(lines(r@) =~= language_lines(cat@, language@, langs));
    r
}

fn tail_part(cat: &Catalog) -> (r: Vec<MenuEntry>)
    ensures
        lines(r@) == tail_lines(cat@),
{
    let r = vec![
        command_entry(cat, "menu.open_config", CMD_OPEN_CONFIG, false),
        command_entry(cat, "menu.reload_config", CMD_RELOAD_CONFIG, false),
        command_entry(cat, "menu.about", CMD_ABOUT, false),
        MenuEntry::Separator,
        command_entry(cat, "menu.exit", CMD_EXIT, false),
    ];
    assert(lines(r@) =~= tail_lines(cat@));
    r
}

/// The lines of the tray menu for `cfg`, the themes and languages found
/// (code, name), whether starting with Windows is registered, and the file
/// name of the sound in use (`None` when there is none).
pub fn menu_layout(
    cat: &Catalog,
    cfg: &Config,
    themes: &[String],
    languages: &[(String, String)],
    registered: bool,
    sound_name: Option<String>,
) -> (r: Vec<MenuEntry>)
    ensures
        lines(r@) == menu_lines(
            cat@,
            cfg@,
            string_views(themes@),
            entry_values(languages@),
            registered,
            match sound_name { Some(n) => Some(n@), None => None },
        ),
{
    let mut out = head_part(cat, cfg);
    join(&mut out, delay_part(cat, cfg.delay_ms));
    join(&mut out, sound_part(cat, cfg, sound_name));
    join(&mut out, speed_part(cat, cfg));
    join(&mut out, theme_part(cat, &cfg.theme, themes));
    join(&mut out, effect_part(cat, cfg, registered));
    join(&mut out, diagnostics_part(cat, cfg.log_level));
    join(&mut out, language_part(cat, &cfg.language, languages));
    join(&mut out, tail_part(cat));
    out
}

/// The word for a switch being on or off.
pub open spec fn switch_word(cat: Option<Entries>, on: bool) -> Seq<char> {
    translate(cat, if on { "tip.on"@ } else { "tip.off"@ })
}

/// The tooltip of the tray icon: whether watching is on, the delay, and
/// whether the sound is on.
pub open spec fn tip_text(cat: Option<Entries>, s: Settings) -> Seq<char> {
    substitute(
        translate(cat, "tip.status"@),
        seq![switch_word(cat, s.enabled), decimal(s.delay_ms as nat), switch_word(cat, s.sound_enabled)],
        0,
    )
}

fn switch_string(cat: &Catalog, on: bool) -> (s: String)
    ensures
        s@ == switch_word(cat@, on),
{
    if on {
        t(cat, "tip.on")
    } else {
        t(cat, "tip.off")
    }
}

/// The tooltip of the tray icon for `cfg` (see [`tip_text`]).
pub fn tray_tip(cat: &Catalog, cfg: &Config) -> (s: String)
    ensures
        s@ == tip_text(cat@, cfg@),
{
    let on = switch_string(cat, cfg.enabled);
    let delay = decimal_string(cfg.delay_ms);
    let sound = switch_string(cat, cfg.sound_enabled);
    let args: Vec<&str> = vec![on.as_str(), delay.as_str(), sound.as_str()];
    assert(args@.map_values(|a: &str| a@) =~= seq![
        switch_word(cat@, cfg@.enabled),
        decimal(cfg@.delay_ms as nat),
        switch_word(cat@, cfg@.sound_enabled),
    ]);
    tf(cat, "tip.status", args.as_slice())
}

} // verus!
