//! Character-level text handling shared by the parsers: whitespace and
//! control classes, trimming, ASCII case folding and line splitting.
//!
//! Strings are handled as sequences of `char`; `&str` and `String` are
//! converted at the edges with [`chars_of`] and [`string_of`].
use vstd::prelude::*;

verus! {

// ---------------------------------------------------------------------------
// Character classes
// ---------------------------------------------------------------------------

/// Unicode `White_Space`, the class that `char::is_whitespace` and `str::trim` use.
pub open spec fn is_ws(c: char) -> bool {
    let u = c as u32;
    (0x9 <= u && u <= 0xd) || u == 0x20 || u == 0x85 || u == 0xa0 || u == 0x1680 || (0x2000 <= u
        && u <= 0x200a) || u == 0x2028 || u == 0x2029 || u == 0x202f || u == 0x205f || u == 0x3000
}

/// General category `Cc`, the class that `char::is_control` reports.
pub open spec fn is_control(c: char) -> bool {
    let u = c as u32;
    u <= 0x1f || (0x7f <= u && u <= 0x9f)
}

pub open spec fn is_ascii_upper(c: char) -> bool {
    'A' <= c && c <= 'Z'
}

pub open spec fn is_ascii_alnum(c: char) -> bool {
    ('0' <= c && c <= '9') || ('a' <= c && c <= 'z') || ('A' <= c && c <= 'Z')
}

/// ASCII lower-casing of one character; everything else is left alone.
pub open spec fn lower_char(c: char) -> char {
    if is_ascii_upper(c) {
        ((c as u32) + 32) as char
    } else {
        c
    }
}

/// ASCII lower-casing of a whole sequence (`str::to_ascii_lowercase`).
pub open spec fn lower(s: Seq<char>) -> Seq<char> {
    Seq::new(s.len(), |i: int| lower_char(s[i]))
}

/// `str::eq_ignore_ascii_case`.
pub open spec fn eq_ignore_case(a: Seq<char>, b: Seq<char>) -> bool {
    lower(a) == lower(b)
}

pub fn is_whitespace(c: char) -> (b: bool)
    ensures
        b == is_ws(c),
{
    let u = c as u32;
    (0x9 <= u && u <= 0xd) || u == 0x20 || u == 0x85 || u == 0xa0 || u == 0x1680 || (0x2000 <= u
        && u <= 0x200a) || u == 0x2028 || u == 0x2029 || u == 0x202f || u == 0x205f || u == 0x3000
}

pub fn is_control_char(c: char) -> (b: bool)
    ensures
        b == is_control(c),
{
    let u = c as u32;
    u <= 0x1f || (0x7f <= u && u <= 0x9f)
}

pub fn is_alnum(c: char) -> (b: bool)
    ensures
        b == is_ascii_alnum(c),
{
    ('0' <= c && c <= '9') || ('a' <= c && c <= 'z') || ('A' <= c && c <= 'Z')
}

pub fn to_lower_char(c: char) -> (r: char)
    ensures
        r == lower_char(c),
{
    if 'A' <= c && c <= 'Z' {
        let u = (c as u32) + 32;
        assert(0x61 <= u && u <= 0x7a);
        char_of(u)
    } else {
        c
    }
}

/// `char::from_u32` restricted to ASCII code points.
fn char_of(u: u32) -> (c: char)
    requires
        u < 0x80,
    ensures
        c == u as char,
        c as u32 == u,
{
    let b = u as u8;
    b as char
}

// ---------------------------------------------------------------------------
// Conversions between `str`/`String` and character vectors
// ---------------------------------------------------------------------------

/// The characters of a string, in order.
pub fn chars_of(s: &str) -> (out: Vec<char>)
    ensures
        out@ == s@,
{
    let mut out: Vec<char> = Vec::new();
    for c in it: s.chars()
        invariant
            out@ == it.seq().take(it.index() as int),
            it.seq() == s@,
    {
        out.push(c);
    }
    out
}

/// `String::push` from std: appends one character at the end.
#[verifier::external_body]
pub(crate) fn push_char(s: &mut String, c: char)
    ensures
        final(s)@ == old(s)@.push(c),
{
    s.push(c);
}

/// The string made of the given characters.
pub fn string_of(v: &[char]) -> (s: String)
    ensures
        s@ == v@,
{
    let mut s = String::new();
    let mut i: usize = 0;
    while i < v.len()
        invariant
            i <= v@.len(),
            s@ == v@.take(i as int),
        decreases v@.len() - i,
    {
        push_char(&mut s, v[i]);
        assert(v@.take(i + 1) == v@.take(i as int).push(v@[i as int]));
        i = i + 1;
    }
    assert(v@.take(v@.len() as int) == v@);
    s
}

/// Appends the characters of `src` to `dst`.
pub fn append_str(dst: &mut Vec<char>, src: &str)
    ensures
        final(dst)@ == old(dst)@ + src@,
{
    let cs = chars_of(src);
    append_chars(dst, &cs);
}

/// Appends `src[lo..hi]` to `dst`.
pub fn append_range(dst: &mut Vec<char>, src: &[char], lo: usize, hi: usize)
    requires
        lo <= hi <= src@.len(),
    ensures
        final(dst)@ == old(dst)@ + src@.subrange(lo as int, hi as int),
{
    let mut i = lo;
    while i < hi
        invariant
            lo <= i <= hi,
            hi <= src@.len(),
            dst@ == old(dst)@ + src@.subrange(lo as int, i as int),
        decreases hi - i,
    {
        dst.push(src[i]);
        assert(src@.subrange(lo as int, i + 1) == src@.subrange(lo as int, i as int).push(
            src@[i as int],
        ));
        i = i + 1;
    }
}

/// Appends all of `src` to `dst`.
pub fn append_chars(dst: &mut Vec<char>, src: &[char])
    ensures
        final(dst)@ == old(dst)@ + src@,
{
    append_range(dst, src, 0, src.len());
    assert(src@.subrange(0, src@.len() as int) == src@);
}

/// Whether `s[lo..hi]` equals the string `lit`.
pub fn range_eq(s: &[char], lo: usize, hi: usize, lit: &[char]) -> (b: bool)
    requires
        lo <= hi <= s@.len(),
    ensures
        b == (s@.subrange(lo as int, hi as int) == lit@),
{
    if hi - lo != lit.len() {
        return false;
    }
    let mut i: usize = 0;
    while i < lit.len()
        invariant
            i <= lit@.len(),
            hi - lo == lit@.len(),
            lo <= hi <= s@.len(),
            forall|j: int| 0 <= j < i ==> s@[lo + j] == lit@[j],
        decreases lit@.len() - i,
    {
        if s[lo + i] != lit[i] {
            assert(s@.subrange(lo as int, hi as int)[i as int] != lit@[i as int]);
            return false;
        }
        i = i + 1;
    }
    assert(s@.subrange(lo as int, hi as int) =~= lit@);
    true
}

/// Whether two character sequences are equal.
pub fn chars_eq(a: &[char], b: &[char]) -> (r: bool)
    ensures
        r == (a@ == b@),
{
    let r = range_eq(a, 0, a.len(), b);
    assert(a@.subrange(0, a@.len() as int) == a@);
    r
}

/// `str::eq_ignore_ascii_case` on character sequences.
pub fn chars_eq_ignore_case(a: &[char], b: &[char]) -> (r: bool)
    ensures
        r == eq_ignore_case(a@, b@),
{
    if a.len() != b.len() {
        assert(lower(a@).len() != lower(b@).len());
        return false;
    }
    let mut i: usize = 0;
    while i < a.len()
        invariant
            i <= a@.len(),
            a@.len() == b@.len(),
            forall|j: int| 0 <= j < i ==> lower_char(a@[j]) == lower_char(b@[j]),
        decreases a@.len() - i,
    {
        if to_lower_char(a[i]) != to_lower_char(b[i]) {
            assert(lower(a@)[i as int] != lower(b@)[i as int]);
            return false;
        }
        i = i + 1;
    }
    assert(lower(a@) =~= lower(b@));
    true
}

/// `n` occurs in `h` starting at position `i`.
pub open spec fn occurs_at(h: Seq<char>, n: Seq<char>, i: int) -> bool {
    0 <= i && i + n.len() <= h.len() && h.subrange(i, i + n.len()) == n
}

/// `str::contains` with a string pattern: `n` occurs somewhere in `h`.
pub open spec fn contains_seq(h: Seq<char>, n: Seq<char>) -> bool {
    exists|i: int| occurs_at(h, n, i)
}

/// Whether `n` occurs in `h`.
pub fn contains_chars(h: &[char], n: &[char]) -> (b: bool)
    ensures
        b == contains_seq(h@, n@),
{
    if n.len() > h.len() {
        assert forall|i: int| !occurs_at(h@, n@, i) by {}
        return false;
    }
    if n.len() == 0 {
        assert(h@.subrange(0, 0) =~= n@);
        assert(occurs_at(h@, n@, 0));
        return true;
    }
    let last = h.len() - n.len();
    let mut i: usize = 0;
    while i <= last
        invariant
            last == h@.len() - n@.len(),
            0 < n@.len() <= h@.len(),
            h@.len() <= usize::MAX,
            i <= last + 1,
            forall|j: int| 0 <= j < i ==> !occurs_at(h@, n@, j),
        decreases last + 1 - i,
    {
        if range_eq(h, i, i + n.len(), n) {
            assert(occurs_at(h@, n@, i as int));
            return true;
        }
        i = i + 1;
    }
    assert forall|j: int| !occurs_at(h@, n@, j) by {
        if 0 <= j && j < i {
        }
    }
    false
}

/// ASCII lower-cased copy (`str::to_ascii_lowercase`).
pub fn to_lower(s: &[char]) -> (r: Vec<char>)
    ensures
        r@ == lower(s@),
{
    let mut r: Vec<char> = Vec::new();
    let mut i: usize = 0;
    while i < s.len()
        invariant
            i <= s@.len(),
            r@ =~= lower(s@.take(i as int)),
        decreases s@.len() - i,
    {
        r.push(to_lower_char(s[i]));
        i = i + 1;
    }
    assert(s@.take(s@.len() as int) == s@);
    r
}


// ---------------------------------------------------------------------------
// Trimming
// ---------------------------------------------------------------------------

/// `str::trim_start`: drops leading whitespace.
pub open spec fn trim_start(s: Seq<char>) -> Seq<char>
    decreases s.len(),
{
    if s.len() > 0 && is_ws(s[0]) {
        trim_start(s.drop_first())
    } else {
        s
    }
}

/// `str::trim_end`: drops trailing whitespace.
pub open spec fn trim_end(s: Seq<char>) -> Seq<char>
    decreases s.len(),
{
    if s.len() > 0 && is_ws(s.last()) {
        trim_end(s.drop_last())
    } else {
        s
    }
}

/// `str::trim`: drops whitespace at both ends.
pub open spec fn trim(s: Seq<char>) -> Seq<char> {
    trim_end(trim_start(s))
}

/// A sequence that `trim` leaves as it is: it neither starts nor ends with whitespace.
pub open spec fn is_trimmed(s: Seq<char>) -> bool {
    s.len() > 0 ==> !is_ws(s[0]) && !is_ws(s.last())
}

pub proof fn lemma_trim_start_skip(s: Seq<char>, k: int)
    requires
        0 <= k <= s.len(),
        forall|j: int| 0 <= j < k ==> is_ws(#[trigger] s[j]),
    ensures
        trim_start(s) == trim_start(s.subrange(k, s.len() as int)),
    decreases k,
{
    if k > 0 {
        assert(s.drop_first() =~= s.subrange(1, s.len() as int));
        let t = s.drop_first();
        assert forall|j: int| 0 <= j < k - 1 implies is_ws(#[trigger] t[j]) by {
            assert(t[j] == s[j + 1]);
        }
        lemma_trim_start_skip(t, k - 1);
        assert(t.subrange(k - 1, t.len() as int) =~= s.subrange(k, s.len() as int));
    } else {
        assert(s.subrange(0, s.len() as int) =~= s);
    }
}

pub proof fn lemma_trim_end_cut(s: Seq<char>, k: int)
    requires
        0 <= k <= s.len(),
        forall|j: int| k <= j < s.len() ==> is_ws(#[trigger] s[j]),
    ensures
        trim_end(s) == trim_end(s.subrange(0, k)),
    decreases s.len() - k,
{
    if k < s.len() {
        let t = s.drop_last();
        assert forall|j: int| k <= j < t.len() implies is_ws(#[trigger] t[j]) by {
            assert(t[j] == s[j]);
        }
        assert(is_ws(s.last()));
        lemma_trim_end_cut(t, k);
        assert(t.subrange(0, k) =~= s.subrange(0, k));
    } else {
        assert(s.subrange(0, k) =~= s);
    }
}

/// A trimmed sequence is its own trim.
pub proof fn lemma_trim_trimmed(s: Seq<char>)
    requires
        is_trimmed(s),
    ensures
        trim(s) == s,
        trim_start(s) == s,
        trim_end(s) == s,
{
}

/// Trimming keeps a first character that is not whitespace.
pub proof fn lemma_trim_keeps_first(s: Seq<char>)
    requires
        s.len() > 0,
        !is_ws(s[0]),
    ensures
        trim(s).len() > 0,
        trim(s)[0] == s[0],
        trim(s) == trim_end(s),
    decreases s.len(),
{
    if s.len() > 1 && is_ws(s.last()) {
        let t = s.drop_last();
        lemma_trim_keeps_first(t);
        assert(trim_end(t) == trim(t));
    }
}

/// The bounds of `trim(s[lo..hi])` inside `s`.
pub fn trim_bounds(s: &[char], lo: usize, hi: usize) -> (r: (usize, usize))
    requires
        lo <= hi <= s@.len(),
    ensures
        lo <= r.0 <= r.1 <= hi,
        s@.subrange(r.0 as int, r.1 as int) == trim(s@.subrange(lo as int, hi as int)),
{
    let ghost whole = s@.subrange(lo as int, hi as int);
    let mut a = lo;
    while a < hi && is_whitespace(s[a])
        invariant
            lo <= a <= hi <= s@.len(),
            whole == s@.subrange(lo as int, hi as int),
            forall|j: int| lo <= j < a ==> is_ws(#[trigger] s@[j]),
        decreases hi - a,
    {
        a = a + 1;
    }
    proof {
        assert forall|j: int| 0 <= j < a - lo implies is_ws(#[trigger] whole[j]) by {
            assert(whole[j] == s@[lo + j]);
        }
        lemma_trim_start_skip(whole, a - lo);
        assert(whole.subrange(a - lo, whole.len() as int) =~= s@.subrange(a as int, hi as int));
    }
    let ghost mid = s@.subrange(a as int, hi as int);
    assert(trim_start(whole) == mid) by {
        if a < hi {
            assert(mid[0] == s@[a as int]);
        }
    }
    let mut b = hi;
    while b > a && is_whitespace(s[b - 1])
        invariant
            lo <= a <= b <= hi <= s@.len(),
            mid == s@.subrange(a as int, hi as int),
            forall|j: int| b <= j < hi ==> is_ws(#[trigger] s@[j]),
        decreases b - a,
    {
        b = b - 1;
    }
    proof {
        assert forall|j: int| b - a <= j < mid.len() implies is_ws(#[trigger] mid[j]) by {
            assert(mid[j] == s@[a + j]);
        }
        lemma_trim_end_cut(mid, b - a);
        assert(mid.subrange(0, b - a) =~= s@.subrange(a as int, b as int));
        let t = s@.subrange(a as int, b as int);
        if b > a {
            assert(t.last() == s@[b - 1]);
        }
    }
    (a, b)
}


// ---------------------------------------------------------------------------
// Lines (`str::lines`)
// ---------------------------------------------------------------------------

/// Index of the first `'\n'` at or after `from`; `s.len()` when there is none.
pub open spec fn next_nl(s: Seq<char>, from: int) -> int
    decreases s.len() - from,
{
    if from >= s.len() {
        s.len() as int
    } else if s[from] == '\n' {
        from
    } else {
        next_nl(s, from + 1)
    }
}

/// Removes one `'\r'` at the end, as `str::lines` does before a `'\n'`.
pub open spec fn strip_cr(line: Seq<char>) -> Seq<char> {
    if line.len() > 0 && line.last() == '\r' {
        line.drop_last()
    } else {
        line
    }
}

pub proof fn lemma_next_nl_bounds(s: Seq<char>, from: int)
    requires
        0 <= from,
    ensures
        from <= s.len() ==> from <= next_nl(s, from) <= s.len(),
        from > s.len() ==> next_nl(s, from) == s.len(),
        next_nl(s, from) < s.len() ==> s[next_nl(s, from)] == '\n',
        forall|j: int| from <= j < next_nl(s, from) ==> s[j] != '\n',
    decreases s.len() - from,
{
    if from < s.len() && s[from] != '\n' {
        lemma_next_nl_bounds(s, from + 1);
    }
}

/// The lines of `s` from index `pos` on, split as `str::lines` splits them:
/// at each `'\n'`, dropping one `'\r'` before it; the last line needs no `'\n'`,
/// and an empty rest yields no line.
pub open spec fn lines_from(s: Seq<char>, pos: int) -> Seq<Seq<char>>
    decreases s.len() - pos,
{
    if pos < 0 || pos >= s.len() {
        Seq::empty()
    } else {
        let i = next_nl(s, pos);
        if i < s.len() {
            proof {
                lemma_next_nl_bounds(s, pos);
            }
            seq![strip_cr(s.subrange(pos, i))] + lines_from(s, i + 1)
        } else {
            seq![s.subrange(pos, s.len() as int)]
        }
    }
}

/// `str::lines`.
pub open spec fn lines(s: Seq<char>) -> Seq<Seq<char>> {
    lines_from(s, 0)
}

/// Index of the first `'\n'` in `s` at or after `from`, or `s.len()`.
pub fn next_newline(s: &[char], from: usize) -> (i: usize)
    requires
        from <= s@.len(),
    ensures
        i as int == next_nl(s@, from as int),
        from <= i <= s@.len(),
{
    let mut i = from;
    proof {
        lemma_next_nl_bounds(s@, from as int);
    }
    while i < s.len() && s[i] != '\n'
        invariant
            from <= i <= s@.len(),
            next_nl(s@, i as int) == next_nl(s@, from as int),
        decreases s@.len() - i,
    {
        i = i + 1;
    }
    i
}

/// The bounds of the line that starts at `pos`, and where the next one starts.
///
/// Returns `(lo, hi, next)`: the line is `s[lo..hi]` and the rest of the lines
/// start at `next`.
pub fn line_at(s: &[char], pos: usize) -> (r: (usize, usize, usize))
    requires
        pos < s@.len(),
    ensures
        r.0 == pos,
        pos <= r.1 <= r.2 <= s@.len(),
        r.2 > pos,
        lines_from(s@, pos as int) == seq![s@.subrange(r.0 as int, r.1 as int)] + lines_from(
            s@,
            r.2 as int,
        ),
{
    let i = next_newline(s, pos);
    proof {
        lemma_next_nl_bounds(s@, pos as int);
    }
    if i < s.len() {
        let mut hi = i;
        if hi > pos && s[hi - 1] == '\r' {
            hi = hi - 1;
            assert(s@.subrange(pos as int, hi as int) =~= s@.subrange(pos as int, i as int).drop_last());
        }
        (pos, hi, i + 1)
    } else {
        proof {
            assert(lines_from(s@, s@.len() as int) == Seq::<Seq<char>>::empty());
            assert(seq![s@.subrange(pos as int, s@.len() as int)] + Seq::<Seq<char>>::empty()
                =~= seq![s@.subrange(pos as int, s@.len() as int)]);
        }
        (pos, s.len(), s.len())
    }
}


// ---------------------------------------------------------------------------
// Searching and stripping
// ---------------------------------------------------------------------------

/// Index of the first `ch` at or after `from`; `s.len()` when there is none.
pub open spec fn find_from(s: Seq<char>, from: int, ch: char) -> int
    decreases s.len() - from,
{
    if from >= s.len() {
        s.len() as int
    } else if s[from] == ch {
        from
    } else {
        find_from(s, from + 1, ch)
    }
}

pub proof fn lemma_find_from_bounds(s: Seq<char>, from: int, ch: char)
    requires
        0 <= from <= s.len(),
    ensures
        from <= find_from(s, from, ch) <= s.len(),
        find_from(s, from, ch) < s.len() ==> s[find_from(s, from, ch)] == ch,
        forall|j: int| from <= j < find_from(s, from, ch) ==> s[j] != ch,
    decreases s.len() - from,
{
    if from < s.len() && s[from] != ch {
        lemma_find_from_bounds(s, from + 1, ch);
    }
}

/// `find_from` is fixed by its defining properties.
pub proof fn lemma_find_from_unique(s: Seq<char>, from: int, ch: char, i: int)
    requires
        0 <= from <= i <= s.len(),
        i < s.len() ==> s[i] == ch,
        forall|j: int| from <= j < i ==> s[j] != ch,
    ensures
        find_from(s, from, ch) == i,
    decreases i - from,
{
    if from < i {
        lemma_find_from_unique(s, from + 1, ch, i);
    }
}

/// Index of the first `ch` in `s` at or after `from`, or `s.len()`.
pub fn find_char(s: &[char], from: usize, ch: char) -> (i: usize)
    requires
        from <= s@.len(),
    ensures
        i as int == find_from(s@, from as int, ch),
        from <= i <= s@.len(),
        i < s@.len() ==> s@[i as int] == ch,
        forall|j: int| from <= j < i ==> s@[j] != ch,
{
    proof {
        lemma_find_from_bounds(s@, from as int, ch);
    }
    let mut i = from;
    while i < s.len() && s[i] != ch
        invariant
            from <= i <= s@.len(),
            find_from(s@, i as int, ch) == find_from(s@, from as int, ch),
        decreases s@.len() - i,
    {
        i = i + 1;
    }
    i
}

/// `str::trim_start_matches(ch)`: drops every leading `ch`.
pub open spec fn strip_leading(s: Seq<char>, ch: char) -> Seq<char>
    decreases s.len(),
{
    if s.len() > 0 && s[0] == ch {
        strip_leading(s.drop_first(), ch)
    } else {
        s
    }
}

/// `str::trim_end_matches(ch)`: drops every trailing `ch`.
pub open spec fn strip_trailing(s: Seq<char>, ch: char) -> Seq<char>
    decreases s.len(),
{
    if s.len() > 0 && s.last() == ch {
        strip_trailing(s.drop_last(), ch)
    } else {
        s
    }
}

/// `str::trim_matches(ch)`: drops every `ch` at both ends.
pub open spec fn strip_both(s: Seq<char>, ch: char) -> Seq<char> {
    strip_trailing(strip_leading(s, ch), ch)
}

/// Start of `strip_leading(s[lo..hi], ch)` inside `s`.
pub fn skip_leading(s: &[char], lo: usize, hi: usize, ch: char) -> (a: usize)
    requires
        lo <= hi <= s@.len(),
    ensures
        lo <= a <= hi,
        s@.subrange(a as int, hi as int) == strip_leading(s@.subrange(lo as int, hi as int), ch),
{
    let mut a = lo;
    while a < hi && s[a] == ch
        invariant
            lo <= a <= hi <= s@.len(),
            strip_leading(s@.subrange(a as int, hi as int), ch) == strip_leading(
                s@.subrange(lo as int, hi as int),
                ch,
            ),
        decreases hi - a,
    {
        assert(s@.subrange(a as int, hi as int).drop_first() =~= s@.subrange(a + 1, hi as int));
        a = a + 1;
    }
    a
}

/// End of `strip_trailing(s[lo..hi], ch)` inside `s`.
pub fn cut_trailing(s: &[char], lo: usize, hi: usize, ch: char) -> (b: usize)
    requires
        lo <= hi <= s@.len(),
    ensures
        lo <= b <= hi,
        s@.subrange(lo as int, b as int) == strip_trailing(s@.subrange(lo as int, hi as int), ch),
{
    let mut b = hi;
    while b > lo && s[b - 1] == ch
        invariant
            lo <= b <= hi <= s@.len(),
            strip_trailing(s@.subrange(lo as int, b as int), ch) == strip_trailing(
                s@.subrange(lo as int, hi as int),
                ch,
            ),
        decreases b - lo,
    {
        assert(s@.subrange(lo as int, b as int).drop_last() =~= s@.subrange(lo as int, b - 1));
        b = b - 1;
    }
    b
}

/// Copy of `s[lo..hi]`.
pub fn copy_range(s: &[char], lo: usize, hi: usize) -> (r: Vec<char>)
    requires
        lo <= hi <= s@.len(),
    ensures
        r@ == s@.subrange(lo as int, hi as int),
{
    let mut r: Vec<char> = Vec::new();
    append_range(&mut r, s, lo, hi);
    r
}


// ---------------------------------------------------------------------------
// Replacing (`str::replace`)
// ---------------------------------------------------------------------------

/// `str::replace(pat, rep)` for a non-empty pattern: every occurrence of `pat`,
/// found from the left without overlap, is replaced by `rep`.
pub open spec fn replace_all(s: Seq<char>, pat: Seq<char>, rep: Seq<char>) -> Seq<char>
    decreases s.len(),
{
    if s.len() == 0 {
        Seq::empty()
    } else if pat.len() > 0 && s.len() >= pat.len() && s.take(pat.len() as int) == pat {
        rep + replace_all(s.skip(pat.len() as int), pat, rep)
    } else {
        seq![s[0]] + replace_all(s.drop_first(), pat, rep)
    }
}

/// `str::replace(pat, rep)` for a non-empty pattern.
pub fn replace_chars(s: &[char], pat: &[char], rep: &[char]) -> (r: Vec<char>)
    requires
        pat@.len() > 0,
    ensures
        r@ == replace_all(s@, pat@, rep@),
{
    let mut out: Vec<char> = Vec::new();
    let mut i: usize = 0;
    assert(s@.subrange(0, s@.len() as int) == s@);
    assert(out@ + replace_all(s@, pat@, rep@) =~= replace_all(s@, pat@, rep@));
    while i < s.len()
        invariant
            i <= s@.len(),
            pat@.len() > 0,
            out@ + replace_all(s@.subrange(i as int, s@.len() as int), pat@, rep@) == replace_all(
                s@,
                pat@,
                rep@,
            ),
        decreases s@.len() - i,
    {
        let ghost rest = s@.subrange(i as int, s@.len() as int);
        if s.len() - i >= pat.len() && range_eq(s, i, i + pat.len(), pat) {
            assert(rest.take(pat@.len() as int) =~= s@.subrange(i as int, i + pat@.len()));
            assert(rest.skip(pat@.len() as int) =~= s@.subrange(i + pat@.len(), s@.len() as int));
            let ghost before = out@;
            append_chars(&mut out, rep);
            assert(out@ + replace_all(s@.subrange(i + pat@.len(), s@.len() as int), pat@, rep@)
                =~= before + (rep@ + replace_all(rest.skip(pat@.len() as int), pat@, rep@)));
            i = i + pat.len();
        } else {
            if s.len() - i >= pat.len() {
                assert(rest.take(pat@.len() as int) =~= s@.subrange(i as int, i + pat@.len()));
            }
            assert(rest.drop_first() =~= s@.subrange(i + 1, s@.len() as int));
            let ghost before = out@;
            out.push(s[i]);
            assert(out@ + replace_all(s@.subrange(i + 1, s@.len() as int), pat@, rep@) =~= before
                + (seq![s@[i as int]] + replace_all(rest.drop_first(), pat@, rep@)));
            i = i + 1;
        }
    }
    assert(out@ + replace_all(s@.subrange(i as int, s@.len() as int), pat@, rep@) =~= out@);
    out
}

} // verus!
