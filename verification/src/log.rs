//! The diagnostic log: its level, how a message becomes one line of the file,
//! and when the file is cut short.
//!
//! Opening, writing and reading the file is left to the caller, which keeps a
//! [`Logger`] to know what to do next.
use vstd::prelude::*;
use crate::lang::utf8_len;
use crate::num::{dec_padded, push_dec_padded};
use crate::text::{append_str, chars_of, is_control, is_control_char, string_of};

verus! {

/// Nothing is written.
pub const OFF: u32 = 0;
/// The normal level.
pub const NORMAL: u32 = 1;
/// Everything is written.
pub const VERBOSE: u32 = 2;
/// Above this size the older half of the file is dropped.
pub const MAX_BYTES: u64 = 1_000_000;
/// A message longer than this (in UTF-8 bytes) is cut.
pub const MAX_LINE_BYTES: usize = 4000;
/// Every this many writes the file is checked to still exist.
pub const EXISTENCE_CHECK_INTERVAL: u32 = 50;

/// The state of the log between writes.
pub struct Logger {
    /// The level: [`OFF`], [`NORMAL`] or [`VERBOSE`].
    pub level: u32,
    /// The file is open.
    pub open: bool,
    /// The size of the file as far as known.
    pub size: u64,
    /// Writes since the file was opened.
    pub writes: u32,
}

impl Logger {
    /// A log that writes nothing and has no file open.
    pub fn new() -> (l: Logger)
        ensures
            l.level == OFF && !l.open && l.size == 0 && l.writes == 0,
    {
        Logger { level: OFF, open: false, size: 0, writes: 0 }
    }
}

/// Sets the level, at most [`VERBOSE`]. When the level changes the file is
/// let go, so that a file deleted while logging was off is noticed. Returns
/// whether it was let go.
pub fn set_level(log: &mut Logger, level: u32) -> (closed: bool)
    ensures
        final(log).level == (if level < VERBOSE { level } else { VERBOSE }),
        closed == (old(log).level != final(log).level),
        closed ==> !final(log).open && final(log).size == 0 && final(log).writes == 0,
        !closed ==> final(log).open == old(log).open && final(log).size == old(log).size && final(log).writes == old(log).writes,
{
    let new = if level < VERBOSE { level } else { VERBOSE };
    let old = log.level;
    log.level = new;
    if old != new {
        close(log);
        true
    } else {
        false
    }
}

/// The current level.
pub fn level(log: &Logger) -> (l: u32)
    ensures
        l == log.level,
{
    log.level
}

/// Lets the file go; the counts start over.
pub fn close(log: &mut Logger)
    ensures
        !final(log).open && final(log).size == 0 && final(log).writes == 0,
        final(log).level == old(log).level,
{
    log.open = false;
    log.size = 0;
    log.writes = 0;
}

/// Whether a message of level `required` is written.
pub open spec fn writes_at(log: Logger, required: u32) -> bool {
    required != OFF && log.level >= required
}

/// Whether a message of level `required` is written at the current level.
pub fn enabled(log: &Logger, required: u32) -> (b: bool)
    ensures
        b == writes_at(*log, required),
{
    required != OFF && log.level >= required
}

/// The line written for `msg` at level `required`, stamped `stamp`; `None`
/// when the level does not write it.
pub fn write(log: &Logger, required: u32, stamp: &str, msg: &str) -> (line: Option<String>)
    ensures
        line is None <==> !writes_at(*log, required),
        line matches Some(l) ==> l@ == log_line(stamp@, msg@),
{
    if !enabled(log, required) {
        return None;
    }
    Some(format_line(stamp, msg))
}

/// The line written for a message of normal level.
pub fn info(log: &Logger, stamp: &str, msg: &str) -> (line: Option<String>)
    ensures
        line is None <==> !writes_at(*log, NORMAL),
        line matches Some(l) ==> l@ == log_line(stamp@, msg@),
{
    write(log, NORMAL, stamp, msg)
}

/// The line written for a message of verbose level.
pub fn debug(log: &Logger, stamp: &str, msg: &str) -> (line: Option<String>)
    ensures
        line is None <==> !writes_at(*log, VERBOSE),
        line matches Some(l) ==> l@ == log_line(stamp@, msg@),
{
    write(log, VERBOSE, stamp, msg)
}

impl Logger {
    /// The file was opened; it holds `size` bytes.
    pub fn opened(&mut self, size: u64)
        ensures
            final(self).open && final(self).size == size && final(self).writes == old(self).writes,
            final(self).level == old(self).level,
    {
        self.open = true;
        self.size = size;
    }

    /// `n` more bytes were written.
    pub fn wrote(&mut self, n: u64)
        ensures
            final(self).size == (if old(self).size + n > u64::MAX { u64::MAX as int } else { old(self).size + n }),
            final(self).open == old(self).open && final(self).level == old(self).level && final(self).writes == old(self).writes,
    {
        self.size = self.size.saturating_add(n);
    }

    /// Writing failed: the file is let go and opened again next time.
    pub fn failed(&mut self)
        ensures
            !final(self).open,
            final(self).level == old(self).level && final(self).size == old(self).size && final(self).writes == old(self).writes,
    {
        self.open = false;
    }

    /// Whether the open file has outgrown [`MAX_BYTES`] and is to be cut.
    pub fn needs_truncation(&self) -> (b: bool)
        ensures
            b == (self.open && self.size > MAX_BYTES),
    {
        self.open && self.size > MAX_BYTES
    }

    /// The file was cut (or removed) and is closed; `remaining` bytes are left.
    pub fn truncated(&mut self, remaining: u64)
        ensures
            !final(self).open && final(self).size == remaining,
            final(self).level == old(self).level && final(self).writes == old(self).writes,
    {
        self.open = false;
        self.size = remaining;
    }

    /// Counts a write to the open file and tells whether the file is due to be
    /// checked for still existing (every [`EXISTENCE_CHECK_INTERVAL`] writes).
    pub fn existence_check_due(&mut self) -> (b: bool)
        requires
            old(self).open,
        ensures
            final(self).writes == (if old(self).writes == u32::MAX { u32::MAX as int } else { old(self).writes + 1 }),
            b == (final(self).writes % EXISTENCE_CHECK_INTERVAL == 0),
            final(self).open && final(self).size == old(self).size && final(self).level == old(self).level,
    {
        self.writes = self.writes.saturating_add(1);
        self.writes % EXISTENCE_CHECK_INTERVAL == 0
    }

    /// The file was found gone: it is opened again next time.
    pub fn vanished(&mut self)
        ensures
            !final(self).open && final(self).size == 0,
            final(self).level == old(self).level && final(self).writes == old(self).writes,
    {
        self.open = false;
        self.size = 0;
    }
}

/// A character as it appears in a log line: carriage returns vanish, line
/// feeds become `↵` and other control characters `\u{FFFD}`.
pub open spec fn shown(c: char) -> Seq<char> {
    if c == '\r' {
        Seq::empty()
    } else if c == '\n' {
        seq!['\u{21B5}']
    } else if is_control(c) {
        seq!['\u{FFFD}']
    } else {
        seq![c]
    }
}

/// The rest of the message `s` appended to `out`: characters are shown one
/// by one until the text passes [`MAX_LINE_BYTES`] bytes, where ` ...` ends it.
pub open spec fn clean_from(s: Seq<char>, out: Seq<char>) -> Seq<char>
    decreases s.len(),
{
    if s.len() == 0 {
        out
    } else {
        let next = out + shown(s[0]);
        if utf8_len(next) > MAX_LINE_BYTES {
            next + " ..."@
        } else {
            clean_from(s.drop_first(), next)
        }
    }
}

/// A message made to fit on one line of the log (see [`clean_from`]).
pub open spec fn cleaned(msg: Seq<char>) -> Seq<char> {
    clean_from(msg, Seq::empty())
}

/// No line break in `s`.
pub open spec fn one_line(s: Seq<char>) -> bool {
    forall|i: int| 0 <= i < s.len() ==> s[i] != '\n' && s[i] != '\r'
}

proof fn lemma_clean_from_one_line(s: Seq<char>, out: Seq<char>)
    requires
        one_line(out),
    ensures
        one_line(clean_from(s, out)),
    decreases s.len(),
{
    if s.len() > 0 {
        let next = out + shown(s[0]);
        assert(one_line(shown(s[0])));
        assert(one_line(next)) by {
            assert forall|i: int| 0 <= i < next.len() implies next[i] != '\n' && next[i] != '\r' by {
                if i >= out.len() {
                    assert(next[i] == shown(s[0])[i - out.len()]);
                }
            }
        }
        if utf8_len(next) > MAX_LINE_BYTES {
            reveal_strlit(" ...");
            let t = next + " ..."@;
            assert forall|i: int| 0 <= i < t.len() implies t[i] != '\n' && t[i] != '\r' by {
                if i >= next.len() {
                    assert(t[i] == " ..."@[i - next.len()]);
                }
            }
        } else {
            lemma_clean_from_one_line(s.drop_first(), next);
        }
    }
}

/// Whatever the message, a log line breaks only at its end: a message cannot
/// forge further lines of the log.
pub proof fn lemma_log_line_is_one_line(stamp: Seq<char>, msg: Seq<char>)
    requires
        one_line(stamp),
    ensures
        log_line(stamp, msg).len() >= 2,
        log_line(stamp, msg)[log_line(stamp, msg).len() - 1] == '\n',
        one_line(log_line(stamp, msg).subrange(0, log_line(stamp, msg).len() - 2)),
{
    reveal_strlit("[");
    reveal_strlit("] ");
    reveal_strlit("\r\n");
    assert(one_line(Seq::<char>::empty()));
    lemma_clean_from_one_line(msg, Seq::empty());
    let body = "["@ + stamp + "] "@ + cleaned(msg);
    let line = log_line(stamp, msg);
    assert(line == body + "\r\n"@);
    assert(line.subrange(0, line.len() - 2) =~= body);
    assert forall|i: int| 0 <= i < body.len() implies body[i] != '\n' && body[i] != '\r' by {
        let a = "["@ + stamp;
        let b = a + "] "@;
        if i < a.len() {
            if i >= 1 {
                assert(a[i] == stamp[i - 1]);
            }
        } else if i < b.len() {
            assert(b[i] == "] "@[i - a.len()]);
        } else {
            assert(body[i] == cleaned(msg)[i - b.len()]);
        }
    }
}

proof fn lemma_utf8_len_append(a: Seq<char>, b: Seq<char>)
    ensures
        utf8_len(a + b) == utf8_len(a) + utf8_len(b),
    decreases b.len(),
{
    if b.len() > 0 {
        lemma_utf8_len_append(a, b.drop_last());
        assert((a + b).drop_last() =~= a + b.drop_last());
    } else {
        assert(a + b =~= a);
    }
}

proof fn lemma_utf8_len_one(c: char)
    ensures
        utf8_len(seq![c]) == crate::lang::utf8_width(c),
{
    let s = seq![c];
    assert(s.drop_last() =~= Seq::<char>::empty());
    assert(utf8_len(Seq::<char>::empty()) == 0);
    assert(s.last() == c);
}

fn width(c: char) -> (w: usize)
    ensures
        w == crate::lang::utf8_width(c),
{
    let u = c as u32;
    if u < 0x80 {
        1
    } else if u < 0x800 {
        2
    } else if u < 0x10000 {
        3
    } else {
        4
    }
}

/// A message made to fit on one line of the log (see [`cleaned`]).
pub fn sanitize(msg: &str) -> (r: String)
    ensures
        r@ == cleaned(msg@),
{
    let cs = chars_of(msg);
    let mut out: Vec<char> = Vec::new();
    let mut n: usize = 0;
    let mut i: usize = 0;
    assert(cs@.subrange(0, cs@.len() as int) =~= cs@);
    while i < cs.len()
        invariant
            i <= cs@.len(),
            cs@ == msg@,
            n == utf8_len(out@),
            n <= MAX_LINE_BYTES,
            clean_from(cs@.subrange(i as int, cs@.len() as int), out@) == cleaned(msg@),
        decreases cs@.len() - i,
    {
        let c = cs[i];
        let ghost rest = cs@.subrange(i as int, cs@.len() as int);
        let ghost before = out@;
        assert(rest.drop_first() =~= cs@.subrange(i + 1, cs@.len() as int));
        assert(rest[0] == c);
        if c == '\r' {
            assert(before + shown(c) =~= before);
        } else if c == '\n' {
            out.push('\u{21B5}');
            proof { lemma_utf8_len_append(before, seq!['\u{21B5}']); }
            assert(before + shown(c) =~= out@);
            proof { lemma_utf8_len_one('\u{21B5}'); }
            n = n + 3;
        } else if is_control_char(c) {
            out.push('\u{FFFD}');
            proof { lemma_utf8_len_append(before, seq!['\u{FFFD}']); }
            assert(before + shown(c) =~= out@);
            proof { lemma_utf8_len_one('\u{FFFD}'); }
            n = n + 3;
        } else {
            out.push(c);
            proof { lemma_utf8_len_append(before, seq![c]); }
            assert(before + shown(c) =~= out@);
            proof { lemma_utf8_len_one(c); }
            n = n + width(c);
        }
        i = i + 1;
        if n > MAX_LINE_BYTES {
            append_str(&mut out, " ...");
            return string_of(&out);
        }
    }
    assert(cs@.subrange(i as int, cs@.len() as int) =~= Seq::<char>::empty());
    string_of(&out)
}

/// One line of the log: `[stamp] message\r\n`, the message made to fit.
pub open spec fn log_line(stamp: Seq<char>, msg: Seq<char>) -> Seq<char> {
    "["@ + stamp + "] "@ + cleaned(msg) + "\r\n"@
}

/// The line written for `msg` stamped `stamp`.
pub fn format_line(stamp: &str, msg: &str) -> (r: String)
    ensures
        r@ == log_line(stamp@, msg@),
{
    let mut out = chars_of("[");
    append_str(&mut out, stamp);
    append_str(&mut out, "] ");
    let m = sanitize(msg);
    append_str(&mut out, m.as_str());
    append_str(&mut out, "\r\n");
    string_of(&out)
}

/// `YYYY-MM-DD hh:mm:ss.mmm`, each part zero-padded.
pub open spec fn stamp_text(year: u16, month: u16, day: u16, hour: u16, minute: u16, second: u16, ms: u16) -> Seq<char> {
    dec_padded(year as nat, 4) + "-"@ + dec_padded(month as nat, 2) + "-"@ + dec_padded(day as nat, 2) + " "@
        + dec_padded(hour as nat, 2) + ":"@ + dec_padded(minute as nat, 2) + ":"@ + dec_padded(second as nat, 2)
        + "."@ + dec_padded(ms as nat, 3)
}

/// The time stamp of a log line from the local time's parts.
pub fn timestamp(year: u16, month: u16, day: u16, hour: u16, minute: u16, second: u16, ms: u16) -> (r: String)
    ensures
        r@ == stamp_text(year, month, day, hour, minute, second, ms),
{
    let mut out: Vec<char> = Vec::new();
    push_dec_padded(&mut out, year as u32, 4);
    append_str(&mut out, "-");
    push_dec_padded(&mut out, month as u32, 2);
    append_str(&mut out, "-");
    push_dec_padded(&mut out, day as u32, 2);
    append_str(&mut out, " ");
    push_dec_padded(&mut out, hour as u32, 2);
    append_str(&mut out, ":");
    push_dec_padded(&mut out, minute as u32, 2);
    append_str(&mut out, ":");
    push_dec_padded(&mut out, second as u32, 2);
    append_str(&mut out, ".");
    push_dec_padded(&mut out, ms as u32, 3);
    string_of(&out)
}

/// Where the kept part of an overgrown log begins: just after the first line
/// break at or after the middle, or at the end when there is none, so that no
/// line and no UTF-8 character is cut.
pub fn truncation_start(data: &[u8]) -> (start: usize)
    ensures
        (exists|i: int| data@.len() / 2 <= i < data@.len() && data@[i] == 10) ==> {
            &&& data@.len() / 2 < start <= data@.len()
            &&& data@[start - 1] == 10
            &&& forall|j: int| data@.len() / 2 <= j < start - 1 ==> data@[j] != 10
        },
        (forall|i: int| data@.len() / 2 <= i < data@.len() ==> data@[i] != 10) ==> start == data@.len(),
{
    let mid = data.len() / 2;
    let mut i = mid;
    while i < data.len()
        invariant
            mid == data@.len() / 2,
            mid <= i <= data@.len(),
            forall|j: int| mid <= j < i ==> data@[j] != 10,
        decreases data@.len() - i,
    {
        if data[i] == 10 {
            return i + 1;
        }
        i = i + 1;
    }
    data.len()
}

} // verus!
