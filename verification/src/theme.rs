//! Themes: a folder `theme\<name>\` next to the executable that may replace
//! the tray icon, the running cursors and the arrival sound.
//!
//! The theme name comes from the settings file and becomes part of a path, so
//! it is validated before use. Looking the files up on disk is left to the
//! caller; this module decides which names are acceptable and which files a
//! theme may hold.
use vstd::prelude::*;
use crate::text::{append_str, chars_of, is_alnum, is_ascii_alnum, string_of};

verus! {

/// Name of the directory that holds the themes.
pub const THEMES_DIR: &'static str = "theme";

/// A character allowed in theme names and language codes.
pub open spec fn is_name_char(c: char) -> bool {
    is_ascii_alnum(c) || c == '-' || c == '_'
}

/// A non-empty run of at most `max` characters, each an ASCII letter, digit,
/// `-` or `_`.
pub open spec fn is_safe_name(s: Seq<char>, max: nat) -> bool {
    0 < s.len() <= max && forall|i: int| 0 <= i < s.len() ==> is_name_char(#[trigger] s[i])
}

/// Whether `s` is made of allowed characters and is between 1 and `max` long.
pub fn safe_name(s: &[char], max: usize) -> (b: bool)
    ensures
        b == is_safe_name(s@, max as nat),
{
    if s.len() == 0 || s.len() > max {
        return false;
    }
    let mut i: usize = 0;
    while i < s.len()
        invariant
            i <= s@.len(),
            forall|j: int| 0 <= j < i ==> is_name_char(#[trigger] s@[j]),
        decreases s@.len() - i,
    {
        let c = s[i];
        if !(is_alnum(c) || c == '-' || c == '_') {
            return false;
        }
        i = i + 1;
    }
    true
}

/// A safe name holds nothing that a path gives meaning to: no separator, no
/// drive colon and no dot, so neither `..` nor an absolute path.
pub proof fn lemma_safe_name_not_a_path(s: Seq<char>, max: nat)
    requires
        is_safe_name(s, max),
    ensures
        forall|i: int| 0 <= i < s.len() ==> s[i] != '\\' && s[i] != '/' && s[i] != ':' && s[i] != '.',
        s.len() > 0,
{
    assert forall|i: int| 0 <= i < s.len() implies s[i] != '\\' && s[i] != '/' && s[i] != ':' && s[i] != '.' by {
        assert(is_name_char(s[i]));
    }
}

/// A theme name is safe to join to a path: 1 to 64 ASCII letters, digits,
/// `-` or `_` (so no separators, drive letters or `..`).
pub open spec fn valid_theme_name(s: Seq<char>) -> bool {
    is_safe_name(s, 64)
}

/// Whether `name` is a safe theme name.
pub fn is_valid_name(name: &str) -> (b: bool)
    ensures
        b == valid_theme_name(name@),
{
    let cs = chars_of(name);
    safe_name(&cs, 64)
}

/// `Path::join` for a relative path of one or more plain components: `b` is
/// appended to `a` after a `\\` unless `a` is empty or already ends with a
/// separator.
pub open spec fn path_join(a: Seq<char>, b: Seq<char>) -> Seq<char> {
    if a.len() == 0 {
        b
    } else if a.last() == '\\' || a.last() == '/' {
        a + b
    } else {
        a + seq!['\\'] + b
    }
}

/// Joins `b` to the path `a`.
pub fn join_path(a: &str, b: &str) -> (r: String)
    ensures
        r@ == path_join(a@, b@),
{
    let mut out = chars_of(a);
    let n = out.len();
    if n > 0 && out[n - 1] != '\\' && out[n - 1] != '/' {
        out.push('\\');
    }
    append_str(&mut out, b);
    string_of(&out)
}

/// The directory of the theme `name` below the executable's directory
/// `exe_dir`, if the name is acceptable. Whether the directory exists is for
/// the caller to find out.
pub open spec fn theme_dir(exe_dir: Seq<char>, name: Seq<char>) -> Option<Seq<char>> {
    if valid_theme_name(name) {
        Some(path_join(path_join(exe_dir, THEMES_DIR@), name))
    } else {
        None
    }
}

/// Where the theme `name` lives: `<exe_dir>\\theme\\<name>`, or `None` when the
/// name is empty or unsafe.
pub fn dir_of(exe_dir: &str, name: &str) -> (r: Option<String>)
    ensures
        r matches Some(d) ==> theme_dir(exe_dir@, name@) == Some(d@),
        r is None <==> theme_dir(exe_dir@, name@) is None,
{
    if !is_valid_name(name) {
        return None;
    }
    let base = join_path(exe_dir, THEMES_DIR);
    Some(join_path(&base, name))
}

/// The file `file` of the theme `name`, if the name is acceptable.
pub open spec fn theme_file(exe_dir: Seq<char>, name: Seq<char>, file: Seq<char>) -> Option<Seq<char>> {
    match theme_dir(exe_dir, name) {
        Some(d) => Some(path_join(d, file)),
        None => None,
    }
}

fn file_in(exe_dir: &str, name: &str, file: &str) -> (r: Option<String>)
    ensures
        r matches Some(p) ==> theme_file(exe_dir@, name@, file@) == Some(p@),
        r is None <==> theme_file(exe_dir@, name@, file@) is None,
{
    match dir_of(exe_dir, name) {
        Some(d) => Some(join_path(&d, file)),
        None => None,
    }
}

/// Where the icon of the theme `name` would be.
pub fn icon(exe_dir: &str, name: &str) -> (r: Option<String>)
    ensures
        r matches Some(p) ==> theme_file(exe_dir@, name@, "icon.ico"@) == Some(p@),
        r is None <==> theme_file(exe_dir@, name@, "icon.ico"@) is None,
{
    file_in(exe_dir, name, "icon.ico")
}

/// Where the sound of the theme `name` would be.
pub fn sound(exe_dir: &str, name: &str) -> (r: Option<String>)
    ensures
        r matches Some(p) ==> theme_file(exe_dir@, name@, "sound.wav"@) == Some(p@),
        r is None <==> theme_file(exe_dir@, name@, "sound.wav"@) is None,
{
    file_in(exe_dir, name, "sound.wav")
}

/// The name of the running cursor for one side, with or without a speed suffix.
pub open spec fn cursor_file(dir_right: bool, suffix: Seq<char>) -> Seq<char> {
    "cursor_"@ + (if dir_right { "right"@ } else { "left"@ }) + suffix + ".ani"@
}

fn cursor_name(dir_right: bool, suffix: &str) -> (r: String)
    ensures
        r@ == cursor_file(dir_right, suffix@),
{
    let mut out = chars_of("cursor_");
    if dir_right {
        append_str(&mut out, "right");
    } else {
        append_str(&mut out, "left");
    }
    append_str(&mut out, suffix);
    append_str(&mut out, ".ani");
    string_of(&out)
}

/// The running cursor of the theme `name`, in the order in which it is looked
/// for: the one for the given speed first, then the one without a speed suffix.
pub fn cursor(exe_dir: &str, name: &str, dir_right: bool, speed_suffix: &str) -> (r: Option<(String, String)>)
    ensures
        r matches Some(p) ==> theme_file(exe_dir@, name@, cursor_file(dir_right, speed_suffix@))
            == Some(p.0@) && theme_file(exe_dir@, name@, cursor_file(dir_right, ""@)) == Some(p.1@),
        r is None <==> !valid_theme_name(name@),
{
    let first = cursor_name(dir_right, speed_suffix);
    let plain = cursor_name(dir_right, "");
    match (file_in(exe_dir, name, first.as_str()), file_in(exe_dir, name, plain.as_str())) {
        (Some(a), Some(b)) => Some((a, b)),
        _ => None,
    }
}

/// The running cursor used, from the two files that [`cursor`] names: the one
/// for the speed when that file can be used, else the one without a speed
/// suffix when that can, else none (the Windows cursor stays).
pub fn pick_cursor(candidates: (String, String), speed_file_usable: bool, plain_file_usable: bool) -> (r: Option<String>)
    ensures
        r == (if speed_file_usable {
            Some(candidates.0)
        } else if plain_file_usable {
            Some(candidates.1)
        } else {
            None
        }),
{
    let (speed_file, plain_file) = candidates;
    if speed_file_usable {
        Some(speed_file)
    } else if plain_file_usable {
        Some(plain_file)
    } else {
        None
    }
}

/// At most this many themes are listed.
pub const MAX_LISTED: usize = 32;

/// Whether enough themes have been collected; no more directories are looked at then.
pub fn list_full(collected: usize) -> (b: bool)
    ensures
        b == (collected >= MAX_LISTED),
{
    collected >= MAX_LISTED
}

/// The themes offered, from the names of those collected, in order
/// (at most [`MAX_LISTED`], the first ones collected).
pub fn available(collected: &[String]) -> (r: Vec<String>)
    ensures
        forall|i: int, j: int| 0 <= i < j < r@.len() ==> crate::order::lex_le(#[trigger] r@[i]@, #[trigger] r@[j]@),
        crate::order::name_values(r@).to_multiset() == crate::order::name_values(
            collected@.take(if collected@.len() < MAX_LISTED { collected@.len() as int } else { MAX_LISTED as int }),
        ).to_multiset(),
{
    let n = if collected.len() < MAX_LISTED { collected.len() } else { MAX_LISTED };
    let mut first: Vec<String> = Vec::new();
    let mut i: usize = 0;
    while i < n
        invariant
            i <= n <= collected@.len(),
            first@.len() == i,
            forall|q: int| 0 <= q < i ==> (#[trigger] first@[q])@ == collected@[q]@,
        decreases n - i,
    {
        first.push(collected[i].clone());
        i = i + 1;
    }
    assert(crate::order::name_values(first@) =~= crate::order::name_values(collected@.take(n as int)));
    crate::order::sort_names(&first)
}

/// Upper bound of the size of one file of a theme.
pub const MAX_ASSET_BYTES: u64 = 8 * 1024 * 1024;

/// Whether a file found in a theme directory is used: a regular file (not a
/// link) of at most [`MAX_ASSET_BYTES`].
pub fn asset_acceptable(regular_file: bool, len: u64) -> (b: bool)
    ensures
        b == (regular_file && len <= MAX_ASSET_BYTES),
{
    regular_file && len <= MAX_ASSET_BYTES
}

} // verus!
