//! Translated user interface strings.
//!
//! A language file `lang\<code>.ini` maps keys to strings. Keys that a file
//! lacks fall back to built-in English, so a missing or partial translation
//! still works. Reading the file is left to the caller; [`Catalog::from_text`]
//! turns its text into a catalog.
use vstd::prelude::*;
use crate::fallback::{fallback_entries, fallback_table};
use crate::text::{
    append_chars, append_range, chars_eq, chars_of, copy_range, find_char, find_from,
    is_control, is_control_char, line_at, lines, lines_from, replace_all, replace_chars,
    skip_leading, string_of, strip_leading, trim, trim_bounds,
};
use crate::theme::{is_safe_name, safe_name};

verus! {

/// The default language code.
pub const DEFAULT_LANG: &'static str = "en";

/// A language code is safe to join to a path: 1 to 32 ASCII letters, digits,
/// `-` or `_`.
pub open spec fn valid_code(s: Seq<char>) -> bool {
    is_safe_name(s, 32)
}

/// Whether `code` is a safe language code.
pub fn is_valid_code(code: &str) -> (b: bool)
    ensures
        b == valid_code(code@),
{
    let cs = chars_of(code);
    safe_name(&cs, 32)
}

/// The code whose file is read for `lang`: `lang` itself when it is safe,
/// the default language otherwise.
pub open spec fn file_code(lang: Seq<char>) -> Seq<char> {
    if valid_code(lang) {
        lang
    } else {
        DEFAULT_LANG@
    }
}

/// Whatever code the settings name, the language file read for it has a safe
/// name, so it lies in the language directory.
pub proof fn lemma_file_code_safe(lang: Seq<char>)
    ensures
        valid_code(file_code(lang)),
{
    reveal_strlit("en");
}

/// The name of the language file to read for `lang` (`<code>.ini`); an unsafe
/// code is never used in a path.
pub fn lang_file_name(lang: &str) -> (name: String)
    ensures
        name@ == file_code(lang@) + ".ini"@,
{
    let mut out: Vec<char> = Vec::new();
    if is_valid_code(lang) {
        let cs = chars_of(lang);
        append_chars(&mut out, &cs);
    } else {
        let cs = chars_of(DEFAULT_LANG);
        append_chars(&mut out, &cs);
    }
    let ext = chars_of(".ini");
    append_chars(&mut out, &ext);
    string_of(&out)
}

// ---------------------------------------------------------------------------
// Built-in strings
// ---------------------------------------------------------------------------

/// The value of the first entry with the given key.
pub open spec fn lookup(es: Seq<(Seq<char>, Seq<char>)>, key: Seq<char>) -> Option<Seq<char>>
    decreases es.len(),
{
    if es.len() == 0 {
        None
    } else if es[0].0 == key {
        Some(es[0].1)
    } else {
        lookup(es.drop_first(), key)
    }
}

/// The built-in English string for `key` (empty for an unknown key).
pub open spec fn fallback_text(key: Seq<char>) -> Seq<char> {
    match lookup(fallback_entries(), key) {
        Some(v) => v,
        None => Seq::empty(),
    }
}

/// The built-in English string for `key`; empty for an unknown key.
pub fn fallback_of(key: &str) -> (s: &'static str)
    ensures
        s@ == fallback_text(key@),
{
    let k = chars_of(key);
    let table = fallback_table();
    let ghost es = fallback_entries();
    let mut i: usize = 0;
    assert(es.subrange(0, es.len() as int) == es);
    while i < table.len()
        invariant
            i <= table@.len(),
            table@.len() == es.len(),
            es == fallback_entries(),
            k@ == key@,
            forall|j: int|
                0 <= j < table@.len() ==> (#[trigger] table@[j]).0@ == es[j].0 && table@[j].1@
                    == es[j].1,
            lookup(es.subrange(i as int, es.len() as int), k@) == lookup(es, k@),
        decreases table@.len() - i,
    {
        let (name, text) = table[i];
        let n = chars_of(name);
        let ghost rest = es.subrange(i as int, es.len() as int);
        assert(rest[0] == es[i as int]);
        assert(rest.drop_first() =~= es.subrange(i + 1, es.len() as int));
        if chars_eq(&k, &n) {
            return text;
        }
        i = i + 1;
    }
    proof {
        reveal_strlit("");
        assert(es.subrange(i as int, es.len() as int) =~= Seq::<(Seq<char>, Seq<char>)>::empty());
    }
    ""
}

// ---------------------------------------------------------------------------
// Loaded translations
// ---------------------------------------------------------------------------

/// One translation per key, in the order the keys first appeared.
pub type Entries = Seq<(Seq<char>, Seq<char>)>;

/// The translations in use: none loaded yet, or the entries of a language file.
pub struct Catalog {
    entries: Option<Vec<(Vec<char>, String)>>,
}

pub open spec fn entry_views(v: Seq<(Vec<char>, String)>) -> Entries {
    v.map_values(|p: (Vec<char>, String)| (p.0@, p.1@))
}

impl View for Catalog {
    type V = Option<Entries>;

    closed spec fn view(&self) -> Option<Entries> {
        match self.entries {
            Some(v) => Some(entry_views(v@)),
            None => None,
        }
    }
}

/// The text shown for `key`: the loaded translation when it is not empty,
/// the built-in English otherwise.
pub open spec fn translate(cat: Option<Entries>, key: Seq<char>) -> Seq<char> {
    match cat {
        Some(es) => match lookup(es, key) {
            Some(v) => if v.len() > 0 {
                v
            } else {
                fallback_text(key)
            },
            None => fallback_text(key),
        },
        None => fallback_text(key),
    }
}

impl Catalog {
    /// A catalog with no language file loaded yet.
    pub fn new() -> (c: Catalog)
        ensures
            c@ is None,
    {
        Catalog { entries: None }
    }

    /// A loaded catalog without entries: the language file was missing or
    /// refused, so every key shows the built-in English.
    pub fn loaded_empty() -> (c: Catalog)
        ensures
            c@ == Some(Seq::<(Seq<char>, Seq<char>)>::empty()),
    {
        let v: Vec<(Vec<char>, String)> = Vec::new();
        let c = Catalog { entries: Some(v) };
        assert(entry_views(v@) =~= Seq::<(Seq<char>, Seq<char>)>::empty());
        c
    }

    /// Whether a language file has been loaded.
    pub fn is_loaded(&self) -> (b: bool)
        ensures
            b == self@ is Some,
    {
        self.entries.is_some()
    }

    /// Reads the text of a language file.
    pub fn from_text(text: &str) -> (c: Catalog)
        ensures
            c@ == Some(parse_lang_spec(text@)),
    {
        let es = parse_lang(text);
        Catalog { entries: Some(es) }
    }
}

/// The text shown for `key`: the loaded translation when there is a non-empty
/// one, the built-in English otherwise.
pub fn t(cat: &Catalog, key: &str) -> (s: String)
    ensures
        s@ == translate(cat@, key@),
{
    match &cat.entries {
        Some(es) => {
            let k = chars_of(key);
            let ghost ev = entry_views(es@);
            let mut i: usize = 0;
            assert(ev.subrange(0, ev.len() as int) == ev);
            while i < es.len()
                invariant
                    i <= es@.len(),
                    ev == entry_views(es@),
                    cat@ == Some(ev),
                    k@ == key@,
                    lookup(ev.subrange(i as int, ev.len() as int), k@) == lookup(ev, k@),
                decreases es@.len() - i,
            {
                let ghost rest = ev.subrange(i as int, ev.len() as int);
                assert(rest[0] == ev[i as int]);
                assert(rest.drop_first() =~= ev.subrange(i + 1, ev.len() as int));
                if chars_eq(&es[i].0, &k) {
                    let v = &es[i].1;
                    if v.as_str().is_empty() {
                        return String::from_str(fallback_of(key));
                    }
                    return v.clone();
                }
                i = i + 1;
            }
            assert(ev.subrange(i as int, ev.len() as int) =~= Seq::<(Seq<char>, Seq<char>)>::empty());
            String::from_str(fallback_of(key))
        },
        None => String::from_str(fallback_of(key)),
    }
}

/// The placeholder `{i}`.
pub open spec fn placeholder(i: nat) -> Seq<char> {
    "{"@ + crate::num::decimal(i) + "}"@
}

/// `s` with `{0}`, `{1}`, ... replaced by the arguments, one after another.
pub open spec fn substitute(s: Seq<char>, args: Seq<Seq<char>>, from: nat) -> Seq<char>
    decreases args.len() - from,
{
    if from >= args.len() {
        s
    } else {
        substitute(replace_all(s, placeholder(from), args[from as int]), args, from + 1)
    }
}

/// The text for `key` with `{0}`, `{1}`, ... replaced by `args` in order.
pub fn tf(cat: &Catalog, key: &str, args: &[&str]) -> (s: String)
    requires
        args@.len() <= u32::MAX,
    ensures
        s@ == substitute(translate(cat@, key@), args@.map_values(|a: &str| a@), 0),
{
    let base = t(cat, key);
    let mut cur = chars_of(base.as_str());
    let ghost av = args@.map_values(|a: &str| a@);
    let mut i: usize = 0;
    while i < args.len()
        invariant
            i <= args@.len(),
            args@.len() <= u32::MAX,
            av == args@.map_values(|a: &str| a@),
            substitute(cur@, av, i as nat) == substitute(translate(cat@, key@), av, 0),
        decreases args@.len() - i,
    {
        let mut pat: Vec<char> = Vec::new();
        pat.push('{');
        crate::num::push_digits(&mut pat, i as u32, 10);
        pat.push('}');
        proof {
            reveal_strlit("{");
            reveal_strlit("}");
        }
        assert(pat@ =~= placeholder(i as nat));
        let rep = chars_of(args[i]);
        cur = replace_chars(&cur, &pat, &rep);
        i = i + 1;
    }
    string_of(&cur)
}

// ---------------------------------------------------------------------------
// Sanitising values
// ---------------------------------------------------------------------------

/// Upper bound of characters kept from one value.
pub const MAX_VALUE_CHARS: usize = 2000;

/// Upper bound of the bytes of one key.
pub const MAX_KEY_LEN: usize = 128;

/// Upper bound of the keys read from one file.
pub const MAX_KEYS: usize = 2000;

/// The characters of `s` kept for display: line breaks stay, other control
/// characters go, and at most `room` characters are kept.
pub open spec fn sanitized(s: Seq<char>, room: nat) -> Seq<char>
    decreases s.len(),
{
    if s.len() == 0 || room == 0 {
        Seq::empty()
    } else if s[0] == '\n' {
        seq!['\n'] + sanitized(s.drop_first(), (room - 1) as nat)
    } else if is_control(s[0]) {
        sanitized(s.drop_first(), room)
    } else {
        seq![s[0]] + sanitized(s.drop_first(), (room - 1) as nat)
    }
}

/// A language file value made safe for display: NUL and other control
/// characters removed except line breaks, at most [`MAX_VALUE_CHARS`] kept.
pub fn sanitize_value(raw: &str) -> (s: String)
    ensures
        s@ == sanitized(raw@, MAX_VALUE_CHARS as nat),
{
    let cs = chars_of(raw);
    let out = sanitize_chars(&cs);
    string_of(&out)
}

fn sanitize_chars(s: &[char]) -> (out: Vec<char>)
    ensures
        out@ == sanitized(s@, MAX_VALUE_CHARS as nat),
{
    let mut out: Vec<char> = Vec::new();
    let mut i: usize = 0;
    assert(s@.subrange(0, s@.len() as int) == s@);
    assert(out@ + sanitized(s@, MAX_VALUE_CHARS as nat) =~= sanitized(s@, MAX_VALUE_CHARS as nat));
    while i < s.len() && out.len() < MAX_VALUE_CHARS
        invariant
            i <= s@.len(),
            out@.len() <= MAX_VALUE_CHARS,
            out@ + sanitized(
                s@.subrange(i as int, s@.len() as int),
                (MAX_VALUE_CHARS - out@.len()) as nat,
            ) == sanitized(s@, MAX_VALUE_CHARS as nat),
        decreases s@.len() - i,
    {
        let ghost rest = s@.subrange(i as int, s@.len() as int);
        let ghost before = out@;
        assert(rest.drop_first() =~= s@.subrange(i + 1, s@.len() as int));
        let c = s[i];
        if c == '\n' {
            out.push('\n');
        } else if is_control_char(c) {
        } else {
            out.push(c);
        }
        assert(out@ + sanitized(
            s@.subrange(i + 1, s@.len() as int),
            (MAX_VALUE_CHARS - out@.len()) as nat,
        ) =~= before + sanitized(rest, (MAX_VALUE_CHARS - before.len()) as nat));
        i = i + 1;
    }
    assert(out@ + sanitized(
        s@.subrange(i as int, s@.len() as int),
        (MAX_VALUE_CHARS - out@.len()) as nat,
    ) =~= out@);
    out
}

/// The characters of `s` that are not control characters, at most `room` of them.
pub open spec fn visible(s: Seq<char>, room: nat) -> Seq<char>
    decreases s.len(),
{
    if s.len() == 0 || room == 0 {
        Seq::empty()
    } else if is_control(s[0]) {
        visible(s.drop_first(), room)
    } else {
        seq![s[0]] + visible(s.drop_first(), (room - 1) as nat)
    }
}

/// Text for a menu item: control characters (line breaks too) removed, at most
/// 64 characters kept, then trimmed.
pub fn sanitize_menu_text(s: &str) -> (r: String)
    ensures
        r@ == trim(visible(s@, 64)),
{
    let cs = chars_of(s);
    let mut out: Vec<char> = Vec::new();
    let mut i: usize = 0;
    assert(cs@.subrange(0, cs@.len() as int) == cs@);
    assert(out@ + visible(cs@, 64) =~= visible(cs@, 64));
    while i < cs.len() && out.len() < 64
        invariant
            i <= cs@.len(),
            out@.len() <= 64,
            out@ + visible(cs@.subrange(i as int, cs@.len() as int), (64 - out@.len()) as nat)
                == visible(cs@, 64),
        decreases cs@.len() - i,
    {
        let ghost rest = cs@.subrange(i as int, cs@.len() as int);
        let ghost before = out@;
        assert(rest.drop_first() =~= cs@.subrange(i + 1, cs@.len() as int));
        let c = cs[i];
        if !is_control_char(c) {
            out.push(c);
        }
        assert(out@ + visible(cs@.subrange(i + 1, cs@.len() as int), (64 - out@.len()) as nat)
            =~= before + visible(rest, (64 - before.len()) as nat));
        i = i + 1;
    }
    assert(out@ + visible(cs@.subrange(i as int, cs@.len() as int), (64 - out@.len()) as nat)
        =~= out@);
    let (a, b) = trim_bounds(&out, 0, out.len());
    assert(out@.subrange(0, out@.len() as int) == out@);
    let t = copy_range(&out, a, b);
    string_of(&t)
}

// ---------------------------------------------------------------------------
// Reading a language file
// ---------------------------------------------------------------------------

/// Bytes that a character takes in UTF-8.
pub open spec fn utf8_width(c: char) -> nat {
    let u = c as u32;
    if u < 0x80 {
        1
    } else if u < 0x800 {
        2
    } else if u < 0x10000 {
        3
    } else {
        4
    }
}

/// Bytes that a string takes in UTF-8 (`str::len`).
pub open spec fn utf8_len(s: Seq<char>) -> nat
    decreases s.len(),
{
    if s.len() == 0 {
        0
    } else {
        utf8_len(s.drop_last()) + utf8_width(s.last())
    }
}

proof fn lemma_utf8_len_prefix(s: Seq<char>, i: int)
    requires
        0 <= i <= s.len(),
    ensures
        utf8_len(s.take(i)) <= utf8_len(s),
    decreases s.len() - i,
{
    if i < s.len() {
        lemma_utf8_len_prefix(s, i + 1);
        assert(s.take(i + 1).drop_last() =~= s.take(i));
    } else {
        assert(s.take(i) =~= s);
    }
}

/// Whether `s` takes more than `limit` bytes in UTF-8.
fn utf8_longer_than(s: &[char], limit: usize) -> (b: bool)
    requires
        limit <= 1_000_000,
    ensures
        b == (utf8_len(s@) > limit),
{
    let mut n: usize = 0;
    let mut i: usize = 0;
    while i < s.len()
        invariant
            i <= s@.len(),
            limit <= 1_000_000,
            n == utf8_len(s@.take(i as int)),
            n <= limit,
        decreases s@.len() - i,
    {
        let u = s[i] as u32;
        let w: usize = if u < 0x80 {
            1
        } else if u < 0x800 {
            2
        } else if u < 0x10000 {
            3
        } else {
            4
        };
        assert(s@.take(i + 1).drop_last() =~= s@.take(i as int));
        n = n + w;
        i = i + 1;
        if n > limit {
            proof {
                lemma_utf8_len_prefix(s@, i as int);
            }
            return true;
        }
    }
    assert(s@.take(i as int) =~= s@);
    false
}

/// Position of the entry with key `k`, searching from `i`; `es.len()` when absent.
pub open spec fn key_pos(es: Entries, k: Seq<char>, i: int) -> int
    decreases es.len() - i,
{
    if i >= es.len() {
        es.len() as int
    } else if es[i].0 == k {
        i
    } else {
        key_pos(es, k, i + 1)
    }
}

/// The entries after setting `k` to `v`: an existing entry is replaced in
/// place, a new key is added at the end.
pub open spec fn upsert(es: Entries, k: Seq<char>, v: Seq<char>) -> Entries {
    let p = key_pos(es, k, 0);
    if 0 <= p < es.len() {
        es.update(p, (k, v))
    } else {
        es.push((k, v))
    }
}

/// `\n` written in a value stands for a line break.
pub open spec fn unescape_newlines(s: Seq<char>) -> Seq<char> {
    replace_all(s, "\\n"@, "\n"@)
}

/// The entries after reading one line of a language file.
///
/// Blank lines, comments (`;` or `#`), lines without `=`, and lines whose
/// key is empty or longer than [`MAX_KEY_LEN`] bytes are skipped.
pub open spec fn lang_apply_line(es: Entries, line: Seq<char>) -> Entries {
    let l = trim(line);
    if l.len() == 0 || l[0] == ';' || l[0] == '#' {
        es
    } else {
        let i = find_from(l, 0, '=');
        if i >= l.len() {
            es
        } else {
            let key = trim(l.subrange(0, i));
            if key.len() == 0 || utf8_len(key) > MAX_KEY_LEN {
                es
            } else {
                let value = sanitized(
                    unescape_newlines(trim(l.subrange(i + 1, l.len() as int))),
                    MAX_VALUE_CHARS as nat,
                );
                upsert(es, key, value)
            }
        }
    }
}

/// The entries after reading the lines in order; reading stops once
/// [`MAX_KEYS`] keys are held.
pub open spec fn lang_apply_lines(es: Entries, ls: Seq<Seq<char>>) -> Entries
    decreases ls.len(),
{
    if ls.len() == 0 || es.len() >= MAX_KEYS {
        es
    } else {
        lang_apply_lines(lang_apply_line(es, ls[0]), ls.drop_first())
    }
}

/// The entries that the text of a language file holds (after any leading
/// byte order marks).
pub open spec fn parse_lang_spec(text: Seq<char>) -> Entries {
    lang_apply_lines(Seq::empty(), lines(strip_leading(text, '\u{feff}')))
}

fn upsert_exec(es: &mut Vec<(Vec<char>, String)>, k: Vec<char>, v: String)
    ensures
        entry_views(final(es)@) == upsert(entry_views(old(es)@), k@, v@),
{
    let ghost ev = entry_views(es@);
    let mut i: usize = 0;
    while i < es.len()
        invariant
            i <= es@.len(),
            ev == entry_views(es@),
            es@ == old(es)@,
            key_pos(ev, k@, i as int) == key_pos(ev, k@, 0),
        decreases es@.len() - i,
    {
        if chars_eq(&es[i].0, &k) {
            es.set(i, (k, v));
            assert(entry_views(es@) =~= ev.update(i as int, (k@, v@)));
            return;
        }
        i = i + 1;
    }
    es.push((k, v));
    assert(entry_views(es@) =~= ev.push((k@, v@)));
}

fn lang_read_line(es: &mut Vec<(Vec<char>, String)>, s: &[char], lo: usize, hi: usize)
    requires
        lo <= hi <= s@.len(),
    ensures
        entry_views(final(es)@) == lang_apply_line(
            entry_views(old(es)@),
            s@.subrange(lo as int, hi as int),
        ),
{
    let (a, b) = trim_bounds(s, lo, hi);
    if a == b || s[a] == ';' || s[a] == '#' {
        return;
    }
    let l = copy_range(s, a, b);
    let i = find_char(&l, 0, '=');
    if i >= l.len() {
        return;
    }
    let (ka, kb) = trim_bounds(&l, 0, i);
    let key = copy_range(&l, ka, kb);
    if key.len() == 0 || utf8_longer_than(&key, MAX_KEY_LEN) {
        return;
    }
    let (va, vb) = trim_bounds(&l, i + 1, l.len());
    let raw = copy_range(&l, va, vb);
    let pat = chars_of("\\n");
    proof {
        reveal_strlit("\\n");
    }
    let nl = chars_of("\n");
    let unescaped = replace_chars(&raw, &pat, &nl);
    let value = sanitize_chars(&unescaped);
    upsert_exec(es, key, string_of(&value));
}

/// Reads the entries of a language file.
fn parse_lang(text: &str) -> (es: Vec<(Vec<char>, String)>)
    ensures
        entry_views(es@) == parse_lang_spec(text@),
{
    let t = chars_of(text);
    let start = skip_leading(&t, 0, t.len(), '\u{feff}');
    assert(t@.subrange(0, t@.len() as int) == t@);
    let body = copy_range(&t, start, t.len());
    let mut es: Vec<(Vec<char>, String)> = Vec::new();
    assert(entry_views(es@) =~= Seq::<(Seq<char>, Seq<char>)>::empty());
    let mut pos: usize = 0;
    while pos < body.len()
        invariant
            pos <= body@.len(),
            body@ == strip_leading(text@, '\u{feff}'),
            lang_apply_lines(entry_views(es@), lines_from(body@, pos as int)) == parse_lang_spec(
                text@,
            ),
        decreases body@.len() - pos,
    {
        let (lo, hi, next) = line_at(&body, pos);
        let ghost line = body@.subrange(lo as int, hi as int);
        let ghost rest = lines_from(body@, next as int);
        assert((seq![line] + rest)[0] == line);
        assert((seq![line] + rest).drop_first() =~= rest);
        if es.len() >= MAX_KEYS {
            return es;
        }
        lang_read_line(&mut es, &body, lo, hi);
        pos = next;
    }
    assert(lines_from(body@, pos as int) =~= Seq::<Seq<char>>::empty());
    es
}

// ---------------------------------------------------------------------------
// Loading on demand, and the list of languages
// ---------------------------------------------------------------------------

/// Upper bound of the bytes of a language file that is read.
pub const MAX_FILE_BYTES: u64 = 512 * 1024;
/// Bytes read from the start of a file to find its display name.
pub const HEAD_BYTES: u64 = 8 * 1024;

/// Whether a language file is read: a regular file of at most
/// [`MAX_FILE_BYTES`].
pub fn file_acceptable(regular_file: bool, len: u64) -> (b: bool)
    ensures
        b == (regular_file && len <= MAX_FILE_BYTES),
{
    regular_file && len <= MAX_FILE_BYTES
}

impl Catalog {
    /// Loads a language unless one is loaded already: `read` gives the text of
    /// its file, or `None` when there is none to use (then only the built-in
    /// strings are used).
    pub fn ensure_loaded<F: FnOnce() -> Option<String>>(&mut self, read: F)
        requires
            call_requires(read, ()),
        ensures
            old(self)@ is Some ==> final(self)@ == old(self)@,
            old(self)@ is None ==> exists|t: Option<String>| call_ensures(read, (), t) && final(self)@ == Some(
                match t {
                    Some(text) => parse_lang_spec(text@),
                    None => Seq::<(Seq<char>, Seq<char>)>::empty(),
                },
            ),
    {
        if self.is_loaded() {
            return;
        }
        let t = read();
        let c = match &t {
            Some(text) => Catalog::from_text(text.as_str()),
            None => Catalog::loaded_empty(),
        };
        *self = c;
    }
}

/// The display name a language file gives itself: the value of the first line
/// whose key, trimmed, is exactly `lang.name`, trimmed.
pub open spec fn name_in_lines(ls: Seq<Seq<char>>) -> Option<Seq<char>>
    decreases ls.len(),
{
    if ls.len() == 0 {
        None
    } else {
        let l = ls[0];
        let i = find_from(l, 0, '=');
        if i < l.len() && trim(l.subrange(0, i)) == "lang.name"@ {
            Some(trim(l.subrange(i + 1, l.len() as int)))
        } else {
            name_in_lines(ls.drop_first())
        }
    }
}

/// The display name in the text at the start of a language file (after any
/// byte order marks); `None` when there is none.
pub open spec fn lang_name_of(text: Seq<char>) -> Option<Seq<char>> {
    name_in_lines(lines(strip_leading(text, '\u{feff}')))
}

/// What `String::from_utf8_lossy` makes of some bytes.
pub uninterp spec fn utf8_lossy(bytes: Seq<u8>) -> Seq<char>;

/// Decodes UTF-8 (`String::from_utf8_lossy`); invalid or cut sequences
/// become U+FFFD. The contract names the result, and states of it only that
/// bytes which are all ASCII decode one character per byte; the decoding of
/// longer sequences and the replacement of invalid ones are left unsaid.
#[verifier::external_body]
fn decode_utf8_lossy(bytes: &[u8]) -> (s: String)
    ensures
        s@ == utf8_lossy(bytes@),
        (forall|i: int| 0 <= i < bytes@.len() ==> bytes@[i] < 0x80) ==> s@.len() == bytes@.len()
            && forall|i: int| 0 <= i < bytes@.len() ==> s@[i] == bytes@[i] as char,
{
    String::from_utf8_lossy(bytes).into_owned()
}

/// The display name in the first bytes `head` of a language file (see
/// [`lang_name_of`]); the bytes are decoded leniently since the cut may split
/// a character.
pub fn read_lang_name(head: &[u8]) -> (r: Option<String>)
    ensures
        r matches Some(n) ==> lang_name_of(utf8_lossy(head@)) == Some(n@),
        r is None <==> lang_name_of(utf8_lossy(head@)) is None,
{
    let text = decode_utf8_lossy(head);
    let t = chars_of(text.as_str());
    let start = skip_leading(&t, 0, t.len(), '\u{feff}');
    assert(t@.subrange(0, t@.len() as int) == t@);
    let body = copy_range(&t, start, t.len());
    let ghost want = lang_name_of(text@);
    let key = chars_of("lang.name");
    let mut pos: usize = 0;
    while pos < body.len()
        invariant
            pos <= body@.len(),
            body@ == strip_leading(text@, '\u{feff}'),
            key@ == "lang.name"@,
            name_in_lines(lines_from(body@, pos as int)) == want,
            want == lang_name_of(text@),
            text@ == utf8_lossy(head@),
        decreases body@.len() - pos,
    {
        let (lo, hi, next) = line_at(&body, pos);
        let ghost line = body@.subrange(lo as int, hi as int);
        let ghost rest = lines_from(body@, next as int);
        assert((seq![line] + rest)[0] == line);
        assert((seq![line] + rest).drop_first() =~= rest);
        let l = copy_range(&body, lo, hi);
        assert(l@ == line);
        let i = find_char(&l, 0, '=');
        if i < l.len() {
            let (ka, kb) = trim_bounds(&l, 0, i);
            let k = copy_range(&l, ka, kb);
            if chars_eq(&k, &key) {
                let (va, vb) = trim_bounds(&l, i + 1, l.len());
                let v = copy_range(&l, va, vb);
                assert(name_in_lines(seq![line] + rest) == Some(v@));
                return Some(string_of(&v));
            }
        }
        pos = next;
    }
    assert(lines_from(body@, pos as int) =~= Seq::<Seq<char>>::empty());
    None
}

/// The language a file name stands for: `<code>.ini` with a safe code gives
/// the code; any other name gives nothing.
pub open spec fn code_of_file(name: Seq<char>) -> Option<Seq<char>> {
    if name.len() > 4 && name.subrange(name.len() - 4, name.len() as int) == ".ini"@
        && valid_code(name.subrange(0, name.len() - 4)) {
        Some(name.subrange(0, name.len() - 4))
    } else {
        None
    }
}

/// The language code of the file `name` in the language directory, if the
/// file is a language file with a safe code (see [`code_of_file`]).
pub fn language_of_file(name: &str) -> (r: Option<String>)
    ensures
        r matches Some(c) ==> code_of_file(name@) == Some(c@),
        r is None <==> code_of_file(name@) is None,
{
    let cs = chars_of(name);
    let n = cs.len();
    if n <= 4 {
        return None;
    }
    let ext = chars_of(".ini");
    if !crate::text::range_eq(&cs, n - 4, n, &ext) {
        return None;
    }
    let code = copy_range(&cs, 0, n - 4);
    if !safe_name(&code, 32) {
        return None;
    }
    Some(string_of(&code))
}

/// The entry of the language menu for a language: its code, and the display
/// name from the file's `lang.name` (made fit for a menu) unless that is
/// missing or empty, when the code is shown.
pub fn language_entry(code: &str, name: Option<String>) -> (r: (String, String))
    ensures
        r.0@ == code@,
        r.1@ == (match name {
            Some(n) => if trim(visible(n@, 64)).len() > 0 { trim(visible(n@, 64)) } else { code@ },
            None => code@,
        }),
{
    let c = string_of(&chars_of(code));
    let shown = match name {
        Some(n) => {
            let m = sanitize_menu_text(n.as_str());
            if m.as_str().is_empty() {
                string_of(&chars_of(code))
            } else {
                m
            }
        },
        None => string_of(&chars_of(code)),
    };
    (c, shown)
}

/// At most this many languages are listed.
pub const MAX_LISTED: usize = 32;

/// Whether enough languages have been collected; no more files are read then.
pub fn list_full(collected: usize) -> (b: bool)
    ensures
        b == (collected >= MAX_LISTED),
{
    collected >= MAX_LISTED
}

/// The language menu's entries from those collected, in order of their codes
/// (at most [`MAX_LISTED`], the first ones collected).
pub fn available(collected: &[(String, String)]) -> (r: Vec<(String, String)>)
    ensures
        crate::order::sorted_by_key(r@),
        crate::order::entry_values(r@).to_multiset() == crate::order::entry_values(
            collected@.take(if collected@.len() < MAX_LISTED { collected@.len() as int } else { MAX_LISTED as int }),
        ).to_multiset(),
{
    let n = if collected.len() < MAX_LISTED { collected.len() } else { MAX_LISTED };
    let mut first: Vec<(String, String)> = Vec::new();
    let mut i: usize = 0;
    while i < n
        invariant
            i <= n <= collected@.len(),
            first@.len() == i,
            forall|q: int| 0 <= q < i ==> (#[trigger] first@[q]).0@ == collected@[q].0@ && first@[q].1@ == collected@[q].1@,
        decreases n - i,
    {
        first.push((collected[i].0.clone(), collected[i].1.clone()));
        i = i + 1;
    }
    assert(crate::order::entry_values(first@) =~= crate::order::entry_values(collected@.take(n as int)));
    crate::order::sort_by_key(&first)
}

} // verus!
