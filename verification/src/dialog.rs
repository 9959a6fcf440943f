//! Dialog recognition: button labels, the geometry of button rows, and the
//! decisions made from the facts that the window system reports about a
//! window and its children.
//!
//! Querying the window system is left to the caller, which hands in plain
//! values: class names as UTF-16 units, styles, rectangles and texts.
use vstd::prelude::*;
use crate::text::{chars_eq_ignore_case, chars_of, copy_range, eq_ignore_case, is_alnum, lower, is_ascii_alnum, string_of, trim, trim_bounds};

verus! {

// ---------------------------------------------------------------------------
// Button labels
// ---------------------------------------------------------------------------

/// `s` without any `ch` (`str::replace(ch, "")`).
pub open spec fn without(s: Seq<char>, ch: char) -> Seq<char>
    decreases s.len(),
{
    if s.len() == 0 {
        s
    } else if s.last() == ch {
        without(s.drop_last(), ch)
    } else {
        without(s.drop_last(), ch).push(s.last())
    }
}

fn remove_char(s: &[char], ch: char) -> (r: Vec<char>)
    ensures
        r@ == without(s@, ch),
{
    let mut r: Vec<char> = Vec::new();
    let mut i: usize = 0;
    while i < s.len()
        invariant
            i <= s@.len(),
            r@ == without(s@.take(i as int), ch),
        decreases s@.len() - i,
    {
        assert(s@.take(i + 1).drop_last() =~= s@.take(i as int));
        if s[i] != ch {
            r.push(s[i]);
        }
        i = i + 1;
    }
    assert(s@.take(s@.len() as int) =~= s@);
    r
}

fn trimmed(s: &[char]) -> (r: Vec<char>)
    ensures
        r@ == trim(s@),
{
    let (a, b) = trim_bounds(s, 0, s.len());
    assert(s@.subrange(0, s@.len() as int) =~= s@);
    copy_range(s, a, b)
}

/// A trailing access key in brackets, such as `(&Y)` after the `&` is gone:
/// `(X)` or `（X）` around a single ASCII letter or digit. The label without it.
pub open spec fn strip_access_key(s: Seq<char>) -> Seq<char> {
    let n = s.len();
    if n >= 3 && s[n - 1] == ')' && s[n - 3] == '(' && is_ascii_alnum(s[n - 2]) {
        s.take(n - 3)
    } else if n >= 3 && s[n - 1] == '）' && s[n - 3] == '（' && is_ascii_alnum(s[n - 2]) {
        s.take(n - 3)
    } else {
        s
    }
}

/// The label as compared: `&` removed, trimmed, a trailing bracketed access key
/// removed, trimmed again.
pub open spec fn normalized(s: Seq<char>) -> Seq<char> {
    trim(strip_access_key(trim(without(s, '&'))))
}

fn normalize_chars(s: &[char]) -> (r: Vec<char>)
    ensures
        r@ == normalized(s@),
{
    let t = remove_char(s, '&');
    let t = trimmed(&t);
    let n = t.len();
    let mut cut = n;
    if n >= 3 && is_alnum(t[n - 2]) {
        if (t[n - 1] == ')' && t[n - 3] == '(') || (t[n - 1] == '）' && t[n - 3] == '（') {
            cut = n - 3;
        }
    }
    let u = copy_range(&t, 0, cut);
    assert(t@.subrange(0, n as int) =~= t@);
    trimmed(&u)
}

/// Normalises a button label for comparison: `"&はい(&Y)"` becomes `"はい"`.
pub fn normalize_label(s: &str) -> (r: String)
    ensures
        r@ == normalized(s@),
{
    let cs = chars_of(s);
    let n = normalize_chars(&cs);
    string_of(&n)
}

/// Labels that mean "cancel". A dialog's button row nearly always holds one.
pub open spec fn cancel_labels() -> Seq<Seq<char>> {
    seq!["キャンセル"@, "Cancel"@, "いいえ"@, "No"@, "中止"@, "Abort"@, "後で"@, "Not now"@, "Later"@]
}

/// Labels that mean "OK" without further configuration.
pub open spec fn default_labels() -> Seq<Seq<char>> {
    seq!["OK"@, "はい"@, "Yes"@, "了解"@, "続行"@, "Continue"@]
}

/// Some entry of `list` equals `label` ignoring ASCII case.
pub open spec fn listed(list: Seq<Seq<char>>, label: Seq<char>) -> bool {
    exists|i: int| 0 <= i < list.len() && eq_ignore_case(#[trigger] list[i], label)
}

fn cancel_list() -> (v: Vec<&'static str>)
    ensures
        v@.len() == cancel_labels().len(),
        forall|i: int| 0 <= i < v@.len() ==> (#[trigger] v@[i])@ == cancel_labels()[i],
{
    vec!["キャンセル", "Cancel", "いいえ", "No", "中止", "Abort", "後で", "Not now", "Later"]
}

fn default_list() -> (v: Vec<&'static str>)
    ensures
        v@.len() == default_labels().len(),
        forall|i: int| 0 <= i < v@.len() ==> (#[trigger] v@[i])@ == default_labels()[i],
{
    vec!["OK", "はい", "Yes", "了解", "続行", "Continue"]
}

/// Whether `label` is in the list of literals `v`, ignoring ASCII case.
fn in_list(v: &Vec<&'static str>, list: Ghost<Seq<Seq<char>>>, label: &[char]) -> (b: bool)
    requires
        v@.len() == list@.len(),
        forall|i: int| 0 <= i < v@.len() ==> (#[trigger] v@[i])@ == list@[i],
    ensures
        b == listed(list@, label@),
{
    let mut i: usize = 0;
    while i < v.len()
        invariant
            i <= v@.len(),
            v@.len() == list@.len(),
            forall|j: int| 0 <= j < v@.len() ==> (#[trigger] v@[j])@ == list@[j],
            forall|j: int| 0 <= j < i ==> !eq_ignore_case(#[trigger] list@[j], label@),
        decreases v@.len() - i,
    {
        let c = chars_of(v[i]);
        if chars_eq_ignore_case(&c, label) {
            assert(eq_ignore_case(list@[i as int], label@));
            return true;
        }
        i = i + 1;
    }
    false
}

/// A label that means "cancel".
pub open spec fn cancel_label(raw: Seq<char>) -> bool {
    let l = normalized(raw);
    l.len() > 0 && listed(cancel_labels(), l)
}

/// Whether the label means "cancel" (ignoring access keys and ASCII case).
pub fn is_cancel_label(raw: &str) -> (b: bool)
    ensures
        b == cancel_label(raw@),
{
    let cs = chars_of(raw);
    let l = normalize_chars(&cs);
    if l.len() == 0 {
        return false;
    }
    let list = cancel_list();
    in_list(&list, Ghost(cancel_labels()), &l)
}

/// Some extra label, normalised, equals `label` ignoring ASCII case.
pub open spec fn extra_listed(extra: Seq<Seq<char>>, label: Seq<char>) -> bool {
    exists|i: int| 0 <= i < extra.len() && eq_ignore_case(normalized(#[trigger] extra[i]), label)
}

/// How strongly a label says "OK": 50 for a built-in label, 40 for one of the
/// configured `extra` labels, 0 otherwise.
pub open spec fn score_of(raw: Seq<char>, extra: Seq<Seq<char>>) -> i32 {
    let l = normalized(raw);
    if l.len() == 0 {
        0
    } else if listed(default_labels(), l) {
        50
    } else if extra_listed(extra, l) {
        40
    } else {
        0
    }
}

/// The label means OK with nothing configured: it equals OK, はい, Yes, 了解,
/// 続行 or Continue, ignoring ASCII case.
pub open spec fn built_in_ok(l: Seq<char>) -> bool {
    ||| eq_ignore_case(l, "OK"@)
    ||| eq_ignore_case(l, "はい"@)
    ||| eq_ignore_case(l, "Yes"@)
    ||| eq_ignore_case(l, "了解"@)
    ||| eq_ignore_case(l, "続行"@)
    ||| eq_ignore_case(l, "Continue"@)
}

/// The labels that mean OK without configuration are exactly OK, はい, Yes,
/// 了解, 続行 and Continue (ignoring ASCII case, `&`, a bracketed access key and
/// surrounding whitespace): such a label scores 50 whatever labels are
/// configured, and any other label scores 0 when none are.
pub proof fn lemma_built_in_ok_labels(raw: Seq<char>, extra: Seq<Seq<char>>)
    ensures
        built_in_ok(normalized(raw)) ==> score_of(raw, extra) == 50,
        !built_in_ok(normalized(raw)) && extra.len() == 0 ==> score_of(raw, extra) == 0,
{
    reveal_strlit("OK");
    reveal_strlit("はい");
    reveal_strlit("Yes");
    reveal_strlit("了解");
    reveal_strlit("続行");
    reveal_strlit("Continue");
    let l = normalized(raw);
    let d = default_labels();
    assert(d[0] == "OK"@ && d[1] == "はい"@ && d[2] == "Yes"@ && d[3] == "了解"@ && d[4] == "続行"@
        && d[5] == "Continue"@);
    assert(d.len() == 6);
    if built_in_ok(l) {
        assert(l.len() == lower(l).len());
        assert(l.len() > 0) by {
            if l.len() == 0 {
                assert(lower(l).len() == 0);
            }
        }
        if eq_ignore_case(l, "OK"@) {
            assert(eq_ignore_case(d[0], l));
        } else if eq_ignore_case(l, "はい"@) {
            assert(eq_ignore_case(d[1], l));
        } else if eq_ignore_case(l, "Yes"@) {
            assert(eq_ignore_case(d[2], l));
        } else if eq_ignore_case(l, "了解"@) {
            assert(eq_ignore_case(d[3], l));
        } else if eq_ignore_case(l, "続行"@) {
            assert(eq_ignore_case(d[4], l));
        } else {
            assert(eq_ignore_case(d[5], l));
        }
        assert(listed(d, l));
    } else {
        assert forall|i: int| 0 <= i < d.len() implies !eq_ignore_case(#[trigger] d[i], l) by {
            if i == 0 {} else if i == 1 {} else if i == 2 {} else if i == 3 {} else if i == 4 {} else {}
        }
        assert(!listed(d, l));
        if extra.len() == 0 {
            assert(!extra_listed(extra, l));
        }
    }
}

/// The contents of a list of strings.
pub open spec fn views(v: Seq<String>) -> Seq<Seq<char>> {
    Seq::new(v.len(), |i: int| v[i]@)
}

/// The score of a button label (see [`score_of`]).
pub fn label_score(raw: &str, extra: &[String]) -> (s: i32)
    ensures
        s == score_of(raw@, views(extra@)),
{
    let cs = chars_of(raw);
    let l = normalize_chars(&cs);
    if l.len() == 0 {
        return 0;
    }
    let list = default_list();
    if in_list(&list, Ghost(default_labels()), &l) {
        return 50;
    }
    let ghost ev = views(extra@);
    let mut i: usize = 0;
    while i < extra.len()
        invariant
            i <= extra@.len(),
            ev == views(extra@),
            l@ == normalized(raw@),
            l@.len() > 0,
            !listed(default_labels(), l@),
            forall|j: int| 0 <= j < i ==> !eq_ignore_case(normalized(#[trigger] ev[j]), l@),
        decreases extra@.len() - i,
    {
        let e = chars_of(extra[i].as_str());
        let n = normalize_chars(&e);
        assert(ev[i as int] == extra@[i as int]@);
        if chars_eq_ignore_case(&n, &l) {
            assert(eq_ignore_case(normalized(ev[i as int]), l@));
            assert(extra_listed(ev, l@));
            return 40;
        }
        i = i + 1;
    }
    0
}

// ---------------------------------------------------------------------------
// Geometry
// ---------------------------------------------------------------------------

/// A rectangle in screen pixels; `right` and `bottom` lie just outside it.
#[derive(Clone, Copy, PartialEq, Eq, Structural, Debug)]
pub struct Rect {
    pub left: i32,
    pub top: i32,
    pub right: i32,
    pub bottom: i32,
}

/// A point in screen pixels.
#[derive(Clone, Copy, PartialEq, Eq, Structural, Debug)]
pub struct Point {
    pub x: i32,
    pub y: i32,
}

/// Rust's `/` on integers: the quotient rounded toward zero.
pub open spec fn div_trunc(a: int, b: int) -> int
    recommends
        b > 0,
{
    if a >= 0 {
        a / b
    } else {
        -((-a) / b)
    }
}

/// The centre of a rectangle, each coordinate rounded toward the top left as
/// `left + (right - left) / 2` does.
pub open spec fn centre(r: Rect) -> (int, int) {
    (r.left + div_trunc(r.right - r.left, 2), r.top + div_trunc(r.bottom - r.top, 2))
}

/// The width and height of `r` fit in an `i32` (else the original arithmetic
/// overflows).
pub open spec fn extent_fits(r: Rect) -> bool {
    i32::MIN <= r.right - r.left <= i32::MAX && i32::MIN <= r.bottom - r.top <= i32::MAX
}

fn half(v: i64) -> (h: i64)
    requires
        i32::MIN <= v <= i32::MAX,
    ensures
        h == div_trunc(v as int, 2),
        v >= 0 ==> 0 <= h <= v,
        v < 0 ==> v <= h <= 0,
{
    if v >= 0 {
        v / 2
    } else {
        -((-v) / 2)
    }
}

/// The point in the middle of `r`.
pub fn center_of(r: &Rect) -> (p: Point)
    requires
        extent_fits(*r),
    ensures
        p.x == centre(*r).0,
        p.y == centre(*r).1,
{
    let x = r.left as i64 + half(r.right as i64 - r.left as i64);
    let y = r.top as i64 + half(r.bottom as i64 - r.top as i64);
    Point { x: x as i32, y: y as i32 }
}

/// Whether `p` lies inside `r` (the right and bottom edges excluded).
pub fn point_in_rect(p: &Point, r: &Rect) -> (b: bool)
    ensures
        b == (r.left <= p.x < r.right && r.top <= p.y < r.bottom),
{
    p.x >= r.left && p.x < r.right && p.y >= r.top && p.y < r.bottom
}

/// The centre of a rectangle that is not empty lies inside it, so a cursor
/// moved to the centre of a button lands on the button.
pub proof fn lemma_centre_inside(r: Rect)
    requires
        r.left < r.right,
        r.top < r.bottom,
    ensures
        r.left <= centre(r).0 < r.right,
        r.top <= centre(r).1 < r.bottom,
{
}

/// The gap between two intervals on one axis, 0 when they touch or overlap.
pub open spec fn gap(a_lo: int, a_hi: int, b_lo: int, b_hi: int) -> int {
    if b_lo >= a_hi {
        b_lo - a_hi
    } else if a_lo >= b_hi {
        a_lo - b_hi
    } else {
        0
    }
}

/// Two buttons belong to one group: side by side (overlapping vertically and at
/// most `600 * scale / 100` pixels apart) or stacked (overlapping horizontally
/// and at most `120 * scale / 100` apart). `scale` is the display scale in
/// percent; values below 1 count as 1.
pub open spec fn same_row(a: Rect, b: Rect, scale: int) -> bool {
    let s = if scale < 1 { 1 } else { scale };
    let overlaps_vertically = a.top < b.bottom && b.top < a.bottom;
    let overlaps_horizontally = a.left < b.right && b.left < a.right;
    (overlaps_vertically && gap(a.left as int, a.right as int, b.left as int, b.right as int) <= 600 * s / 100)
        || (overlaps_horizontally && gap(a.top as int, a.bottom as int, b.top as int, b.bottom as int) <= 120 * s / 100)
}

/// The gaps between `a` and `b` fit in an `i32`, and so do the thresholds for
/// `scale` (else the original arithmetic overflows).
pub open spec fn row_inputs_fit(a: Rect, b: Rect, scale: i32) -> bool {
    &&& b.left - a.right <= i32::MAX
    &&& a.left - b.right <= i32::MAX
    &&& b.top - a.bottom <= i32::MAX
    &&& a.top - b.bottom <= i32::MAX
    &&& 600 * scale <= i32::MAX
}

fn gap_of(a_lo: i32, a_hi: i32, b_lo: i32, b_hi: i32) -> (g: i32)
    requires
        b_lo - a_hi <= i32::MAX,
        a_lo - b_hi <= i32::MAX,
    ensures
        g == gap(a_lo as int, a_hi as int, b_lo as int, b_hi as int),
{
    if b_lo >= a_hi {
        b_lo - a_hi
    } else if a_lo >= b_hi {
        a_lo - b_hi
    } else {
        0
    }
}

/// Whether two buttons sit in one row or one stack (see [`same_row`]).
pub fn same_button_row(a: &Rect, b: &Rect, scale: i32) -> (r: bool)
    requires
        row_inputs_fit(*a, *b, scale),
    ensures
        r == same_row(*a, *b, scale as int),
{
    let overlaps_vertically = a.top < b.bottom && b.top < a.bottom;
    let overlaps_horizontally = a.left < b.right && b.left < a.right;
    let horizontal_gap = gap_of(a.left, a.right, b.left, b.right);
    let vertical_gap = gap_of(a.top, a.bottom, b.top, b.bottom);
    let s = if scale < 1 { 1 } else { scale };
    assert(0 < 600 * s <= i32::MAX) by (nonlinear_arith)
        requires 1 <= s, s <= scale || s == 1, 600 * scale <= i32::MAX;
    let horizontal_limit = 600 * s / 100;
    let vertical_limit = 120 * s / 100;
    (overlaps_vertically && horizontal_gap <= horizontal_limit) || (overlaps_horizontally
        && vertical_gap <= vertical_limit)
}

/// A rectangle whose edges are in order.
pub open spec fn well_formed(r: Rect) -> bool {
    r.left <= r.right && r.top <= r.bottom
}

/// Whether two buttons form a group does not depend on which is named first.
pub proof fn lemma_same_row_symmetric(a: Rect, b: Rect, scale: int)
    requires
        well_formed(a),
        well_formed(b),
    ensures
        same_row(a, b, scale) == same_row(b, a, scale),
{
}

/// A larger display scale only widens the thresholds: buttons that form a
/// group at one scale still do at any larger one.
pub proof fn lemma_same_row_scale_monotone(a: Rect, b: Rect, s1: int, s2: int)
    requires
        s1 <= s2,
        same_row(a, b, s1),
    ensures
        same_row(a, b, s2),
{
    let t1 = if s1 < 1 { 1 } else { s1 };
    let t2 = if s2 < 1 { 1 } else { s2 };
    assert(600 * t1 / 100 <= 600 * t2 / 100) by (nonlinear_arith)
        requires 1 <= t1 <= t2;
    assert(120 * t1 / 100 <= 120 * t2 / 100) by (nonlinear_arith)
        requires 1 <= t1 <= t2;
}

/// The display scale in percent for a window of `dpi` dots per inch: 100 at 96
/// dpi, never below 100 nor above 400, and 100 when the dpi is unknown (0).
pub open spec fn scale_percent(dpi: int) -> int {
    if dpi == 0 {
        100
    } else {
        let p = dpi * 100 / 96;
        if p < 100 { 100 } else if p > 400 { 400 } else { p }
    }
}

/// The display scale of a window from its dpi (see [`scale_percent`]).
pub fn dpi_scale_percent(dpi: u32) -> (p: i32)
    requires
        dpi * 100 <= i32::MAX,
    ensures
        p == scale_percent(dpi as int),
        100 <= p <= 400,
{
    if dpi == 0 {
        return 100;
    }
    let d = dpi as i32;
    let p = d * 100 / 96;
    if p < 100 {
        100
    } else if p > 400 {
        400
    } else {
        p
    }
}

// ---------------------------------------------------------------------------
// Window classes
// ---------------------------------------------------------------------------

/// ASCII lower-casing of one UTF-16 unit.
pub open spec fn lower_unit(c: u16) -> u16 {
    if 65 <= c <= 90 {
        (c + 32) as u16
    } else {
        c
    }
}

/// ASCII lower-casing of one UTF-16 unit.
pub fn to_ascii_lower(c: u16) -> (r: u16)
    ensures
        r == lower_unit(c),
{
    if 65 <= c && c <= 90 {
        c + 32
    } else {
        c
    }
}

/// A string of ASCII characters only; its UTF-16 units are its character codes.
pub open spec fn is_ascii(s: Seq<char>) -> bool {
    forall|i: int| 0 <= i < s.len() ==> (#[trigger] s[i] as u32) < 128
}

/// A UTF-16 unit and an ASCII character are equal ignoring ASCII case.
pub open spec fn unit_matches(u: u16, c: char) -> bool {
    lower_unit(u) as u32 == crate::text::lower_char(c) as u32
}

/// `name[start..]` begins with `want`, ignoring ASCII case.
pub open spec fn units_match_at(name: Seq<u16>, want: Seq<char>, start: int) -> bool {
    0 <= start && start + want.len() <= name.len() && forall|j: int|
        0 <= j < want.len() ==> unit_matches(#[trigger] name[start + j], want[j])
}

/// The class name `name` (as UTF-16 units, empty when it could not be read)
/// is `want`, ignoring ASCII case.
pub open spec fn class_equals(name: Seq<u16>, want: Seq<char>) -> bool {
    name.len() > 0 && name.len() == want.len() && units_match_at(name, want, 0)
}

/// The class name `name` contains `want`, ignoring ASCII case.
pub open spec fn class_has(name: Seq<u16>, want: Seq<char>) -> bool {
    name.len() > 0 && want.len() > 0 && exists|i: int| units_match_at(name, want, i)
}

fn matches_at(name: &[u16], want: &[char], start: usize) -> (b: bool)
    requires
        start + want@.len() <= name@.len(),
        is_ascii(want@),
    ensures
        b == units_match_at(name@, want@, start as int),
{
    let _n = name.len();
    let mut j: usize = 0;
    while j < want.len()
        invariant
            j <= want@.len(),
            start + want@.len() <= name@.len(),
            name@.len() <= usize::MAX,
            is_ascii(want@),
            forall|k: int| 0 <= k < j ==> unit_matches(#[trigger] name@[start + k], want@[k]),
        decreases want@.len() - j,
    {
        let a = to_ascii_lower(name[start + j]) as u32;
        let b = crate::text::to_lower_char(want[j]) as u32;
        if a != b {
            assert(!unit_matches(name@[start + j], want@[j as int]));
            return false;
        }
        j = j + 1;
    }
    true
}

/// Whether the class name `name` is `want` (an ASCII name), ignoring ASCII case.
pub fn class_is(name: &[u16], want: &str) -> (b: bool)
    requires
        is_ascii(want@),
    ensures
        b == class_equals(name@, want@),
{
    let w = chars_of(want);
    if name.len() == 0 || name.len() != w.len() {
        return false;
    }
    matches_at(name, &w, 0)
}

/// Whether the class name `name` contains `want` (an ASCII name), ignoring ASCII case.
pub fn class_contains(name: &[u16], want: &str) -> (b: bool)
    requires
        is_ascii(want@),
    ensures
        b == class_has(name@, want@),
{
    let w = chars_of(want);
    if name.len() == 0 || w.len() == 0 {
        return false;
    }
    if w.len() > name.len() {
        assert forall|i: int| !units_match_at(name@, w@, i) by {}
        return false;
    }
    let last = name.len() - w.len();
    let mut i: usize = 0;
    while i <= last
        invariant
            last == name@.len() - w@.len(),
            0 < w@.len() <= name@.len(),
            name@.len() <= usize::MAX,
            w@ == want@,
            is_ascii(want@),
            i <= last + 1,
            forall|j: int| 0 <= j < i ==> !units_match_at(name@, w@, j),
        decreases last + 1 - i,
    {
        if matches_at(name, &w, i) {
            return true;
        }
        i = i + 1;
    }
    assert forall|j: int| !units_match_at(name@, w@, j) by {
        if 0 <= j && j < i {
        }
    }
    false
}

// ---------------------------------------------------------------------------
// What the window system reports about a window
// ---------------------------------------------------------------------------

/// `WS_CHILD`: a child window.
pub const WS_CHILD: u32 = 0x4000_0000;
/// `WS_POPUP`: a pop-up window.
pub const WS_POPUP: u32 = 0x8000_0000;
/// `WS_THICKFRAME`: a sizing border.
pub const WS_THICKFRAME: u32 = 0x0004_0000;
/// `WS_CAPTION`: a title bar.
pub const WS_CAPTION: u32 = 0x00C0_0000;
/// The bits of a button style that give its type.
pub const BS_TYPEMASK: u32 = 0x0000_000F;
/// A push button.
pub const BS_PUSHBUTTON: u32 = 0x0000_0000;
/// The default push button of a dialog.
pub const BS_DEFPUSHBUTTON: u32 = 0x0000_0001;
/// An owner-drawn button, a push button that draws itself.
pub const BS_OWNERDRAW: u32 = 0x0000_000B;
/// The control id of a dialog's OK button.
pub const IDOK: i32 = 1;

/// The facts about one window that the decisions below use.
pub struct WindowFacts {
    /// The handle still names a window.
    pub exists: bool,
    pub visible: bool,
    pub enabled: bool,
    /// The class name as UTF-16 units; empty when it could not be read.
    pub class: Vec<u16>,
    /// The window style (`GWL_STYLE`).
    pub style: u32,
    /// The control id (`GWL_ID`).
    pub id: i32,
    /// The window text; empty when there is none.
    pub text: String,
    /// The window rectangle, when it could be read and is not empty.
    pub rect: Option<Rect>,
}

/// A window that is not a child window.
pub open spec fn top_level(w: WindowFacts) -> bool {
    w.exists && w.style & WS_CHILD == 0
}

/// Classes that have a title but are plainly no dialog: drag images, shadows,
/// tooltips, containers of pop-ups.
pub open spec fn never_dialog_classes() -> Seq<Seq<char>> {
    seq!["SysDragImage"@, "SysShadow"@, "tooltips_class32"@, "DragVisualWindow"@,
        "PopupWindowSiteBridge"@, "TopLevelWindowForOverflowXamlIsland"@]
}

/// The class name contains one of `names`.
pub open spec fn has_any(class: Seq<u16>, names: Seq<Seq<char>>) -> bool {
    exists|i: int| 0 <= i < names.len() && class_has(class, #[trigger] names[i])
}

/// The class name is one of `names`.
pub open spec fn is_any(class: Seq<u16>, names: Seq<Seq<char>>) -> bool {
    exists|i: int| 0 <= i < names.len() && class_equals(class, #[trigger] names[i])
}

/// Sizes and monitor dimensions small enough for the original arithmetic.
pub open spec fn sizes_fit(r: Rect, monitor: Option<(i32, i32)>) -> bool {
    &&& 0 <= r.right - r.left
    &&& 0 <= r.bottom - r.top
    &&& (r.right - r.left) * 10 <= i32::MAX
    &&& (r.bottom - r.top) * 10 <= i32::MAX
    &&& monitor matches Some(m) ==> 0 <= m.0 && 0 <= m.1 && m.0 * 8 <= i32::MAX && m.1 * 8 <= i32::MAX
}

/// A window shaped like a dialog: a visible top-level window of a class that
/// can be a dialog, with a rectangle; when the size of its monitor is known,
/// not covering more than 80% of it in either direction, with a title bar or a
/// title, and owned by another window, or of fixed size, or at most half the
/// monitor in both directions.
pub open spec fn dialog_like(w: WindowFacts, has_owner: bool, monitor: Option<(i32, i32)>) -> bool {
    if !top_level(w) || !w.visible || has_any(w.class@, never_dialog_classes()) {
        false
    } else {
        match w.rect {
            None => false,
            Some(r) => match monitor {
                None => true,
                Some(m) => {
                    let width = r.right - r.left;
                    let height = r.bottom - r.top;
                    if width * 10 > m.0 * 8 || height * 10 > m.1 * 8 {
                        false
                    } else if w.style & WS_CAPTION != WS_CAPTION && trim(w.text@).len() == 0 {
                        false
                    } else {
                        has_owner || w.style & WS_THICKFRAME == 0 || (width * 2 <= m.0 && height * 2 <= m.1)
                    }
                },
            },
        }
    }
}

/// What a window shaped like a dialog always is: visible, top-level, of a
/// class that can be a dialog, with a rectangle; and, when the monitor is
/// known, at most 80% of it in each direction and with a title bar or a
/// non-blank title. So a pop-up with neither a caption nor a title (an autofill
/// list, a tooltip) is never one.
pub proof fn lemma_dialog_like_needs(w: WindowFacts, has_owner: bool, monitor: Option<(i32, i32)>)
    ensures
        dialog_like(w, has_owner, monitor) ==> {
            &&& w.visible
            &&& top_level(w)
            &&& !has_any(w.class@, never_dialog_classes())
            &&& w.rect is Some
            &&& monitor matches Some(m) ==> {
                let r = w.rect.unwrap();
                &&& (r.right - r.left) * 10 <= m.0 * 8
                &&& (r.bottom - r.top) * 10 <= m.1 * 8
                &&& (w.style & WS_CAPTION == WS_CAPTION || trim(w.text@).len() > 0)
            }
        },
        monitor is Some && w.style & WS_CAPTION != WS_CAPTION && trim(w.text@).len() == 0
            ==> !dialog_like(w, has_owner, monitor),
{
}

fn never_dialog_list() -> (v: Vec<&'static str>)
    ensures
        v@.len() == never_dialog_classes().len(),
        forall|i: int| 0 <= i < v@.len() ==> (#[trigger] v@[i])@ == never_dialog_classes()[i],
        forall|i: int| 0 <= i < v@.len() ==> is_ascii((#[trigger] v@[i])@),
{
    proof {
        reveal_strlit("SysDragImage");
        reveal_strlit("SysShadow");
        reveal_strlit("tooltips_class32");
        reveal_strlit("DragVisualWindow");
        reveal_strlit("PopupWindowSiteBridge");
        reveal_strlit("TopLevelWindowForOverflowXamlIsland");
    }
    vec!["SysDragImage", "SysShadow", "tooltips_class32", "DragVisualWindow", "PopupWindowSiteBridge",
        "TopLevelWindowForOverflowXamlIsland"]
}

/// Whether the class name contains one of the names in `v`.
fn contains_any(class: &[u16], v: &Vec<&'static str>, names: Ghost<Seq<Seq<char>>>) -> (b: bool)
    requires
        v@.len() == names@.len(),
        forall|i: int| 0 <= i < v@.len() ==> (#[trigger] v@[i])@ == names@[i],
        forall|i: int| 0 <= i < v@.len() ==> is_ascii((#[trigger] v@[i])@),
    ensures
        b == has_any(class@, names@),
{
    let mut i: usize = 0;
    while i < v.len()
        invariant
            i <= v@.len(),
            v@.len() == names@.len(),
            forall|j: int| 0 <= j < v@.len() ==> (#[trigger] v@[j])@ == names@[j],
            forall|j: int| 0 <= j < v@.len() ==> is_ascii((#[trigger] v@[j])@),
            forall|j: int| 0 <= j < i ==> !class_has(class@, #[trigger] names@[j]),
        decreases v@.len() - i,
    {
        assert(is_ascii(v@[i as int]@));
        if class_contains(class, v[i]) {
            assert(class_has(class@, names@[i as int]));
            return true;
        }
        i = i + 1;
    }
    false
}

/// Whether the class name is one of the names in `v`.
fn equals_any(class: &[u16], v: &Vec<&'static str>, names: Ghost<Seq<Seq<char>>>) -> (b: bool)
    requires
        v@.len() == names@.len(),
        forall|i: int| 0 <= i < v@.len() ==> (#[trigger] v@[i])@ == names@[i],
        forall|i: int| 0 <= i < v@.len() ==> is_ascii((#[trigger] v@[i])@),
    ensures
        b == is_any(class@, names@),
{
    let mut i: usize = 0;
    while i < v.len()
        invariant
            i <= v@.len(),
            v@.len() == names@.len(),
            forall|j: int| 0 <= j < v@.len() ==> (#[trigger] v@[j])@ == names@[j],
            forall|j: int| 0 <= j < v@.len() ==> is_ascii((#[trigger] v@[j])@),
            forall|j: int| 0 <= j < i ==> !class_equals(class@, #[trigger] names@[j]),
        decreases v@.len() - i,
    {
        assert(is_ascii(v@[i as int]@));
        if class_is(class, v[i]) {
            assert(class_equals(class@, names@[i as int]));
            return true;
        }
        i = i + 1;
    }
    false
}

fn is_blank(s: &str) -> (b: bool)
    ensures
        b == (trim(s@).len() == 0),
{
    let cs = chars_of(s);
    let t = trimmed(&cs);
    t.len() == 0
}

/// Whether a window looks like a dialog rather than an application's main
/// window (see [`dialog_like`]). `has_owner` tells whether it has an owner
/// window, `monitor` the size of the monitor it is on, when known.
pub fn is_dialog_like(w: &WindowFacts, has_owner: bool, monitor: Option<(i32, i32)>) -> (b: bool)
    requires
        w.rect matches Some(r) ==> sizes_fit(r, monitor),
    ensures
        b == dialog_like(*w, has_owner, monitor),
{
    if !(w.exists && w.style & WS_CHILD == 0) || !w.visible {
        return false;
    }
    let never = never_dialog_list();
    if contains_any(&w.class, &never, Ghost(never_dialog_classes())) {
        return false;
    }
    let r = match w.rect {
        None => return false,
        Some(r) => r,
    };
    let (sw, sh) = match monitor {
        None => return true,
        Some(m) => m,
    };
    let width = r.right - r.left;
    let height = r.bottom - r.top;
    if width * 10 > sw * 8 || height * 10 > sh * 8 {
        return false;
    }
    if w.style & WS_CAPTION != WS_CAPTION && is_blank(w.text.as_str()) {
        return false;
    }
    has_owner || w.style & WS_THICKFRAME == 0 || (width * 2 <= sw && height * 2 <= sh)
}

/// A window treated as a dialog: a visible top-level window of the standard
/// dialog class `#32770`, or, unless `standard_only`, any pop-up with a title.
pub open spec fn candidate_dialog(w: WindowFacts, standard_only: bool) -> bool {
    if !w.exists || !w.visible || w.style & WS_CHILD != 0 {
        false
    } else if class_equals(w.class@, "#32770"@) {
        true
    } else if standard_only {
        false
    } else {
        w.style & WS_POPUP != 0 && w.text@.len() > 0
    }
}

/// Whether the window is treated as a dialog (see [`candidate_dialog`]).
pub fn is_candidate_dialog(w: &WindowFacts, standard_only: bool) -> (b: bool)
    ensures
        b == candidate_dialog(*w, standard_only),
{
    if !w.exists || !w.visible || w.style & WS_CHILD != 0 {
        return false;
    }
    proof {
        reveal_strlit("#32770");
    }
    if class_is(&w.class, "#32770") {
        return true;
    }
    if standard_only {
        return false;
    }
    w.style & WS_POPUP != 0 && !w.text.as_str().is_empty()
}

/// A button that can be clicked: a visible, enabled window whose class
/// contains `button` and whose style is a push button, the default push button
/// or an owner-drawn button.
pub open spec fn usable_button(w: WindowFacts) -> bool {
    let bs = w.style & BS_TYPEMASK;
    w.exists && w.visible && w.enabled && class_has(w.class@, "button"@) && (bs == BS_PUSHBUTTON
        || bs == BS_DEFPUSHBUTTON || bs == BS_OWNERDRAW)
}

/// Whether the window is a clickable push button (see [`usable_button`]).
pub fn is_usable_button(w: &WindowFacts) -> (b: bool)
    ensures
        b == usable_button(*w),
{
    if !w.exists || !w.visible || !w.enabled {
        return false;
    }
    proof {
        reveal_strlit("button");
    }
    if !class_contains(&w.class, "button") {
        return false;
    }
    let bs = w.style & BS_TYPEMASK;
    bs == BS_PUSHBUTTON || bs == BS_DEFPUSHBUTTON || bs == BS_OWNERDRAW
}

// ---------------------------------------------------------------------------
// Choosing the button
// ---------------------------------------------------------------------------

/// How strongly a child window is the OK button: 0 unless it is a usable push
/// button whose label says OK; otherwise the label's score, plus 100 for the
/// control id `IDOK` and 10 for the default push button style.
pub open spec fn ok_score(w: WindowFacts, extra: Seq<Seq<char>>) -> int {
    if !usable_button(w) {
        0
    } else {
        let base = score_of(w.text@, extra);
        if base == 0 {
            0
        } else {
            base + (if w.id == IDOK { 100int } else { 0 }) + (if w.style & BS_TYPEMASK == BS_DEFPUSHBUTTON { 10int } else { 0 })
        }
    }
}

fn ok_score_of(w: &WindowFacts, extra: &[String]) -> (s: i32)
    ensures
        s == ok_score(*w, views(extra@)),
        0 <= s <= 160,
{
    if !is_usable_button(w) {
        return 0;
    }
    let base = label_score(w.text.as_str(), extra);
    if base == 0 {
        return 0;
    }
    let mut score = base;
    if w.id == IDOK {
        score = score + 100;
    }
    if w.style & BS_TYPEMASK == BS_DEFPUSHBUTTON {
        score = score + 10;
    }
    score
}

/// The OK button among the children of a dialog: the child with the highest
/// [`ok_score`], the first of them on a tie; `None` when no child scores.
pub fn find_ok_button(children: &[WindowFacts], extra: &[String]) -> (r: Option<usize>)
    ensures
        r is None <==> forall|j: int| 0 <= j < children@.len() ==> ok_score(#[trigger] children@[j], views(extra@)) == 0,
        r matches Some(i) ==> {
            &&& i < children@.len()
            &&& ok_score(children@[i as int], views(extra@)) > 0
            &&& forall|j: int| 0 <= j < children@.len() ==> ok_score(#[trigger] children@[j], views(extra@))
                <= ok_score(children@[i as int], views(extra@))
            &&& forall|j: int| 0 <= j < i ==> ok_score(#[trigger] children@[j], views(extra@))
                < ok_score(children@[i as int], views(extra@))
        },
{
    let ghost ex = views(extra@);
    let mut best: Option<(i32, usize)> = None;
    let mut k: usize = 0;
    while k < children.len()
        invariant
            k <= children@.len(),
            ex == views(extra@),
            best is None ==> forall|j: int| 0 <= j < k ==> ok_score(#[trigger] children@[j], ex) == 0,
            best matches Some(b) ==> {
                &&& b.1 < k
                &&& b.0 == ok_score(children@[b.1 as int], ex)
                &&& b.0 > 0
                &&& forall|j: int| 0 <= j < k ==> ok_score(#[trigger] children@[j], ex) <= b.0
                &&& forall|j: int| 0 <= j < b.1 ==> ok_score(#[trigger] children@[j], ex) < b.0
            },
        decreases children@.len() - k,
    {
        let score = ok_score_of(&children[k], extra);
        if score > 0 {
            match best {
                None => {
                    best = Some((score, k));
                },
                Some((s, _)) => {
                    if score > s {
                        best = Some((score, k));
                    }
                },
            }
        }
        k = k + 1;
    }
    match best {
        None => None,
        Some((_, i)) => Some(i),
    }
}

/// Coordinates well inside the range of `i32`, as window-system coordinates are.
pub open spec fn small_rect(r: Rect) -> bool {
    -0x3FFF_FFFF <= r.left <= 0x3FFF_FFFF && -0x3FFF_FFFF <= r.top <= 0x3FFF_FFFF
        && -0x3FFF_FFFF <= r.right <= 0x3FFF_FFFF && -0x3FFF_FFFF <= r.bottom <= 0x3FFF_FFFF
}

/// A labelled push button with a rectangle.
pub open spec fn labelled_button(w: WindowFacts) -> bool {
    usable_button(w) && trim(w.text@).len() > 0 && w.rect is Some
}

/// A labelled push button that is the default button and does not say cancel.
pub open spec fn default_candidate(w: WindowFacts) -> bool {
    labelled_button(w) && !cancel_label(w.text@) && w.style & BS_TYPEMASK == BS_DEFPUSHBUTTON
}

/// The default button followed is never one that says cancel: a default
/// candidate is a usable default push button whose label is not Cancel-like.
pub proof fn lemma_default_never_cancel(w: WindowFacts)
    ensures
        default_candidate(w) ==> !cancel_label(w.text@) && usable_button(w)
            && w.style & BS_TYPEMASK == BS_DEFPUSHBUTTON,
        cancel_label(w.text@) ==> !default_candidate(w),
{
}

/// A labelled push button that says cancel.
pub open spec fn cancel_candidate(w: WindowFacts) -> bool {
    labelled_button(w) && cancel_label(w.text@)
}

/// The dialog's default button is followed even when its label is not known:
/// the first default push button that does not say cancel, provided a cancel
/// button sits in the same row or stack, or its centre lies in the bottom
/// quarter of the dialog.
pub open spec fn default_button_ok(dlg: Rect, children: Seq<WindowFacts>, d: int, scale: int) -> bool {
    let r = children[d].rect.unwrap();
    let footer_top = dlg.bottom - div_trunc(dlg.bottom - dlg.top, 4);
    (exists|j: int| 0 <= j < children.len() && cancel_candidate(#[trigger] children[j])
        && same_row(children[j].rect.unwrap(), r, scale))
        || div_trunc(r.top + r.bottom, 2) >= footer_top
}

fn quarter(v: i64) -> (q: i64)
    requires
        -0x1_0000_0000 <= v <= 0x1_0000_0000,
    ensures
        q == div_trunc(v as int, 4),
{
    if v >= 0 {
        v / 4
    } else {
        -((-v) / 4)
    }
}

fn labelled(w: &WindowFacts) -> (b: bool)
    ensures
        b == labelled_button(*w),
{
    is_usable_button(w) && !is_blank(w.text.as_str()) && w.rect.is_some()
}

/// The default button of a dialog whose rectangle is `dialog_rect`, when no
/// button is labelled OK (see [`default_button_ok`]). `scale` is the display
/// scale in percent.
pub fn find_default_button(dialog_rect: Option<Rect>, children: &[WindowFacts], scale: i32) -> (r: Option<usize>)
    requires
        dialog_rect matches Some(d) ==> small_rect(d),
        forall|j: int| 0 <= j < children@.len() ==> ((#[trigger] children@[j]).rect matches Some(c) ==> small_rect(c)),
        1 <= scale <= 400,
    ensures
        r matches Some(d) ==> {
            &&& dialog_rect is Some
            &&& d < children@.len()
            &&& !cancel_label(children@[d as int].text@)
            &&& usable_button(children@[d as int])
            &&& children@[d as int].style & BS_TYPEMASK == BS_DEFPUSHBUTTON
            &&& default_candidate(children@[d as int])
            &&& forall|j: int| 0 <= j < d ==> !default_candidate(#[trigger] children@[j])
            &&& default_button_ok(dialog_rect.unwrap(), children@, d as int, scale as int)
        },
        r is None ==> dialog_rect is None || (forall|j: int| 0 <= j < children@.len() ==> !default_candidate(#[trigger] children@[j]))
            || (exists|d: int| 0 <= d < children@.len() && default_candidate(children@[d])
                && (forall|j: int| 0 <= j < d ==> !default_candidate(#[trigger] children@[j]))
                && !default_button_ok(dialog_rect.unwrap(), children@, d, scale as int)),
{
    let dlg = match dialog_rect {
        None => return None,
        Some(d) => d,
    };
    let mut k: usize = 0;
    let mut found: Option<usize> = None;
    while k < children.len() && found.is_none()
        invariant
            k <= children@.len(),
            found is None ==> forall|j: int| 0 <= j < k ==> !default_candidate(#[trigger] children@[j]),
            found matches Some(d) ==> d < children@.len() && default_candidate(children@[d as int])
                && forall|j: int| 0 <= j < d ==> !default_candidate(#[trigger] children@[j]),
        decreases children@.len() - k,
    {
        let w = &children[k];
        if labelled(w) && !is_cancel_label(w.text.as_str()) && w.style & BS_TYPEMASK == BS_DEFPUSHBUTTON {
            found = Some(k);
        }
        k = k + 1;
    }
    let d = match found {
        None => return None,
        Some(d) => d,
    };
    let rect = match children[d].rect {
        Some(r) => r,
        None => return None,
    };
    let mut beside = false;
    let mut j: usize = 0;
    while j < children.len()
        invariant
            j <= children@.len(),
            d < children@.len(),
            children@[d as int].rect == Some(rect),
            small_rect(rect),
            1 <= scale <= 400,
            forall|i: int| 0 <= i < children@.len() ==> ((#[trigger] children@[i]).rect matches Some(c) ==> small_rect(c)),
            beside == exists|i: int| 0 <= i < j && cancel_candidate(#[trigger] children@[i])
                && same_row(children@[i].rect.unwrap(), rect, scale as int),
        decreases children@.len() - j,
    {
        let w = &children[j];
        if labelled(w) && is_cancel_label(w.text.as_str()) {
            if let Some(c) = w.rect {
                assert(small_rect(c));
                if same_button_row(&c, &rect, scale) {
                    beside = true;
                }
            }
        }
        j = j + 1;
    }
    let footer_top = dlg.bottom as i64 - quarter(dlg.bottom as i64 - dlg.top as i64);
    let middle = half(rect.top as i64 + rect.bottom as i64);
    assert(middle == div_trunc(rect.top + rect.bottom, 2));
    assert(footer_top == dlg.bottom - div_trunc(dlg.bottom - dlg.top, 4));
    if beside || middle >= footer_top {
        Some(d)
    } else {
        assert(!default_button_ok(dlg, children@, d as int, scale as int));
        None
    }
}

/// Shell views that only file and folder pickers hold.
pub open spec fn file_view_class() -> Seq<char> {
    "SHELLDLL_DefView"@
}

/// A file or folder picker: some visible child is a shell file view, and no
/// child is a tab control (property sheets hold both).
pub open spec fn file_dialog(children: Seq<WindowFacts>) -> bool {
    (exists|j: int| 0 <= j < children.len() && (#[trigger] children[j]).visible && class_equals(children[j].class@, file_view_class()))
        && !(exists|j: int| 0 <= j < children.len() && class_equals((#[trigger] children[j]).class@, "SysTabControl32"@))
}

/// Whether the dialog with these children is a file or folder picker.
pub fn is_file_dialog(children: &[WindowFacts]) -> (b: bool)
    ensures
        b == file_dialog(children@),
{
    proof {
        reveal_strlit("SHELLDLL_DefView");
        reveal_strlit("SysTabControl32");
    }
    let mut view = false;
    let mut tab = false;
    let mut k: usize = 0;
    while k < children.len()
        invariant
            k <= children@.len(),
            is_ascii("SHELLDLL_DefView"@),
            is_ascii("SysTabControl32"@),
            view == exists|j: int| 0 <= j < k && (#[trigger] children@[j]).visible && class_equals(children@[j].class@, file_view_class()),
            tab == exists|j: int| 0 <= j < k && class_equals((#[trigger] children@[j]).class@, "SysTabControl32"@),
        decreases children@.len() - k,
    {
        let w = &children[k];
        if w.visible && class_is(&w.class, "SHELLDLL_DefView") {
            view = true;
        }
        if class_is(&w.class, "SysTabControl32") {
            tab = true;
        }
        k = k + 1;
    }
    view && !tab
}

/// Some visible child is a progress bar.
pub open spec fn progress_dialog(children: Seq<WindowFacts>) -> bool {
    exists|j: int| 0 <= j < children.len() && (#[trigger] children[j]).visible && class_equals(children[j].class@, "msctls_progress32"@)
}

/// Whether a window with these children shows a progress bar.
pub fn has_progress_bar(children: &[WindowFacts]) -> (b: bool)
    ensures
        b == progress_dialog(children@),
{
    proof {
        reveal_strlit("msctls_progress32");
    }
    let mut k: usize = 0;
    while k < children.len()
        invariant
            k <= children@.len(),
            is_ascii("msctls_progress32"@),
            forall|j: int| 0 <= j < k ==> !((#[trigger] children@[j]).visible && class_equals(children@[j].class@, "msctls_progress32"@)),
        decreases children@.len() - k,
    {
        let w = &children[k];
        if w.visible && class_is(&w.class, "msctls_progress32") {
            return true;
        }
        k = k + 1;
    }
    false
}

/// Window classes of web browsers, where a default-looking button may be any
/// part of a web page.
pub open spec fn browser_classes() -> Seq<Seq<char>> {
    seq!["Chrome_WidgetWin_1"@, "MozillaWindowClass"@, "IEFrame"@]
}

/// Whether a window of class `class` is a web browser.
pub fn is_browser_window(class: &[u16]) -> (b: bool)
    ensures
        b == is_any(class@, browser_classes()),
{
    proof {
        reveal_strlit("Chrome_WidgetWin_1");
        reveal_strlit("MozillaWindowClass");
        reveal_strlit("IEFrame");
    }
    let v: Vec<&'static str> = vec!["Chrome_WidgetWin_1", "MozillaWindowClass", "IEFrame"];
    equals_any(class, &v, Ghost(browser_classes()))
}

// ---------------------------------------------------------------------------
// Process names
// ---------------------------------------------------------------------------

/// The position of the last `\` or `/` in `s`, or -1.
pub open spec fn last_separator(s: Seq<char>) -> int
    decreases s.len(),
{
    if s.len() == 0 {
        -1
    } else if s.last() == '\\' || s.last() == '/' {
        s.len() - 1
    } else {
        last_separator(s.drop_last())
    }
}

/// The file name at the end of a path (the part after the last separator).
pub open spec fn base_name(s: Seq<char>) -> Seq<char> {
    s.subrange(last_separator(s) + 1, s.len() as int)
}

proof fn lemma_last_separator(s: Seq<char>)
    ensures
        -1 <= last_separator(s) < s.len(),
    decreases s.len(),
{
    if s.len() > 0 {
        lemma_last_separator(s.drop_last());
    }
}

/// The executable's name, lower-cased, from the full path of a process's
/// image (`C:\\Tools\\PeaZip.EXE` gives `peazip.exe`); `None` when the path
/// ends with a separator or is empty.
pub fn process_name(full_path: &str) -> (r: Option<String>)
    ensures
        r matches Some(n) ==> n@ == crate::text::lower(base_name(full_path@)) && n@.len() > 0,
        r is None <==> base_name(full_path@).len() == 0,
{
    let cs = chars_of(full_path);
    let mut i: usize = cs.len();
    assert(cs@.take(i as int) =~= cs@);
    while i > 0 && cs[i - 1] != '\\' && cs[i - 1] != '/'
        invariant
            i <= cs@.len(),
            cs@ == full_path@,
            last_separator(cs@) == last_separator(cs@.take(i as int)),
        decreases i,
    {
        assert(cs@.take(i as int).drop_last() =~= cs@.take(i - 1));
        i = i - 1;
    }
    proof {
        assert(cs@.take(cs@.len() as int) =~= cs@);
        if i > 0 {
            assert(last_separator(cs@.take(i as int)) == i - 1);
        } else {
            assert(cs@.take(0) =~= Seq::<char>::empty());
        }
        lemma_last_separator(cs@);
    }
    let name = copy_range(&cs, i, cs.len());
    if name.len() == 0 {
        return None;
    }
    let lowered = crate::text::to_lower(&name);
    Some(string_of(&lowered))
}

} // verus!
