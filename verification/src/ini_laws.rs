//! What `config.ini` promises as a whole: the text that [`Config::to_ini`]
//! writes is read back by [`Config::parse_ini`] as the same settings.
use vstd::prelude::*;
use crate::merge::{copy_field, copy_from, lemma_copy_all, lemma_copy_end, lemma_copy_step};
use crate::config::{bom, default_settings, flag_of, ini_text, is_flag, is_list, is_number, item_block, items_from, key_at, list_of, number_of, number_range, parse_ini_spec, setting_line, value_text, with_flag, with_list, with_number, KEY_COUNT, at_most, join, kept_items, list_setting, pieces_from, MAX_LIST_ITEMS, bool_text, bool_word, color_setting, number_setting, parse_bool_spec, strip_0x, apply_key, apply_line, apply_lines, comment_lines, header_block, key_name, key_of, Key, Settings};
use crate::lang::{valid_code, Entries};
use crate::theme::{valid_theme_name, is_name_char};
use crate::num::{decimal, hex_padded, is_dec_digit, is_hex_digit, lemma_decimal_round_trip, lemma_hex_round_trip};
use crate::text::{lemma_find_from_bounds, strip_leading, find_from, is_trimmed, lemma_find_from_unique, lemma_trim_trimmed, lower, lower_char, trim_end, trim_start, replace_all, lemma_next_nl_bounds, lines, lines_from, next_nl, strip_cr, trim, is_ws, lemma_trim_keeps_first};

verus! {

// ---------------------------------------------------------------------------
// Lines of concatenated text
// ---------------------------------------------------------------------------

proof fn lemma_next_nl_shift(x: Seq<char>, y: Seq<char>, q: int)
    requires
        0 <= q <= y.len(),
    ensures
        next_nl(x + y, x.len() + q) == x.len() + next_nl(y, q),
    decreases y.len() - q,
{
    if q < y.len() {
        assert((x + y)[x.len() + q] == y[q]);
        if y[q] != '\n' {
            lemma_next_nl_shift(x, y, q + 1);
        }
    }
}

proof fn lemma_lines_shift(x: Seq<char>, y: Seq<char>, q: int)
    requires
        0 <= q <= y.len(),
    ensures
        lines_from(x + y, x.len() + q) == lines_from(y, q),
    decreases y.len() - q,
{
    if q < y.len() {
        lemma_next_nl_shift(x, y, q);
        lemma_next_nl_bounds(y, q);
        let i = next_nl(y, q);
        if i < y.len() {
            assert((x + y).subrange(x.len() + q, x.len() + i) =~= y.subrange(q, i));
            lemma_lines_shift(x, y, i + 1);
        } else {
            assert((x + y).subrange(x.len() + q, (x + y).len() as int) =~= y.subrange(
                q,
                y.len() as int,
            ));
        }
    }
}

proof fn lemma_next_nl_prefix(a: Seq<char>, b: Seq<char>, p: int)
    requires
        0 <= p < a.len(),
        a.last() == '\n',
    ensures
        next_nl(a + b, p) == next_nl(a, p),
        next_nl(a, p) < a.len(),
    decreases a.len() - p,
{
    assert((a + b)[p] == a[p]);
    if a[p] != '\n' {
        lemma_next_nl_prefix(a, b, p + 1);
    }
}

proof fn lemma_lines_from_append(a: Seq<char>, b: Seq<char>, p: int)
    requires
        0 <= p <= a.len(),
        a.len() == 0 || a.last() == '\n',
    ensures
        lines_from(a + b, p) == lines_from(a, p) + lines(b),
    decreases a.len() - p,
{
    if p == a.len() {
        lemma_lines_shift(a, b, 0);
        assert(lines_from(a, p) =~= Seq::<Seq<char>>::empty());
        assert(lines_from(a, p) + lines(b) =~= lines(b));
    } else {
        lemma_next_nl_prefix(a, b, p);
        lemma_next_nl_bounds(a, p);
        let i = next_nl(a, p);
        assert((a + b).subrange(p, i) =~= a.subrange(p, i));
        lemma_lines_from_append(a, b, i + 1);
        assert(lines_from(a + b, p) =~= lines_from(a, p) + lines(b));
    }
}

/// Lines of text that ends a line, followed by more text.
pub proof fn lemma_lines_append(a: Seq<char>, b: Seq<char>)
    requires
        a.len() == 0 || a.last() == '\n',
    ensures
        lines(a + b) == lines(a) + lines(b),
{
    lemma_lines_from_append(a, b, 0);
}

/// Reading lines one after another.
pub proof fn lemma_apply_lines_append(m: Settings, l1: Seq<Seq<char>>, l2: Seq<Seq<char>>)
    ensures
        apply_lines(m, l1 + l2) == apply_lines(apply_lines(m, l1), l2),
    decreases l1.len(),
{
    if l1.len() > 0 {
        assert((l1 + l2)[0] == l1[0]);
        assert((l1 + l2).drop_first() =~= l1.drop_first() + l2);
        lemma_apply_lines_append(apply_line(m, l1[0]), l1.drop_first(), l2);
    } else {
        assert(l1 + l2 =~= l2);
    }
}

// ---------------------------------------------------------------------------
// Comments
// ---------------------------------------------------------------------------

/// Text whose every line is a comment: it starts with `;`, and so does what
/// follows each line break.
pub open spec fn commented(s: Seq<char>) -> bool {
    &&& (s.len() > 0 ==> s[0] == ';')
    &&& forall|j: int| 0 <= j < s.len() - 1 && #[trigger] s[j] == '\n' ==> s[j + 1] == ';'
}

proof fn lemma_commented_lines_from(m: Settings, s: Seq<char>, p: int)
    requires
        commented(s),
        s.len() == 0 || s.last() == '\n',
        0 <= p <= s.len(),
        p < s.len() ==> s[p] == ';',
    ensures
        apply_lines(m, lines_from(s, p)) == m,
    decreases s.len() - p,
{
    if p < s.len() {
        lemma_next_nl_bounds(s, p);
        let i = next_nl(s, p);
        assert(i < s.len()) by {
            if i >= s.len() {
                assert(s[s.len() - 1] != '\n');
            }
        }
        let line = strip_cr(s.subrange(p, i));
        assert(s.subrange(p, i)[0] == ';');
        assert(line.len() > 0 && line[0] == ';');
        lemma_trim_keeps_first(line);
        let ls = lines_from(s, p);
        assert(ls[0] == line);
        assert(ls.drop_first() =~= lines_from(s, i + 1));
        if i + 1 < s.len() {
            assert(s[i + 1] == ';');
        }
        lemma_commented_lines_from(m, s, i + 1);
    }
}

/// Comment lines change no setting.
pub proof fn lemma_commented_inert(m: Settings, s: Seq<char>)
    requires
        commented(s),
        s.len() == 0 || s.last() == '\n',
    ensures
        apply_lines(m, lines(s)) == m,
{
    lemma_commented_lines_from(m, s, 0);
}


/// Text without line breaks.
pub open spec fn no_newline(x: Seq<char>) -> bool {
    forall|j: int| 0 <= j < x.len() ==> #[trigger] x[j] != '\n'
}

proof fn lemma_lines_from_no_newline(s: Seq<char>, p: int)
    requires
        0 <= p,
    ensures
        forall|k: int|
            0 <= k < lines_from(s, p).len() ==> no_newline(#[trigger] lines_from(s, p)[k]),
    decreases s.len() - p,
{
    if p < s.len() {
        lemma_next_nl_bounds(s, p);
        let i = next_nl(s, p);
        let ls = lines_from(s, p);
        if i < s.len() {
            lemma_lines_from_no_newline(s, i + 1);
            let line = strip_cr(s.subrange(p, i));
            assert(no_newline(line)) by {
                assert forall|j: int| 0 <= j < line.len() implies #[trigger] line[j] != '\n' by {
                    assert(line[j] == s[p + j]);
                }
            }
            assert forall|k: int| 0 <= k < ls.len() implies no_newline(#[trigger] ls[k]) by {
                if k > 0 {
                    assert(ls[k] == lines_from(s, i + 1)[k - 1]);
                }
            }
        } else {
            let line = s.subrange(p, s.len() as int);
            assert(no_newline(line)) by {
                assert forall|j: int| 0 <= j < line.len() implies #[trigger] line[j] != '\n' by {
                    assert(line[j] == s[p + j]);
                }
            }
        }
    }
}

/// No line that `str::lines` yields holds a line break.
pub proof fn lemma_lines_no_newline(s: Seq<char>)
    ensures
        forall|k: int| 0 <= k < lines(s).len() ==> no_newline(#[trigger] lines(s)[k]),
{
    lemma_lines_from_no_newline(s, 0);
}

/// Comment lines made from text without line breaks are comments throughout.
pub proof fn lemma_comment_lines_commented(ls: Seq<Seq<char>>)
    requires
        forall|k: int| 0 <= k < ls.len() ==> no_newline(#[trigger] ls[k]),
    ensures
        commented(comment_lines(ls)),
        comment_lines(ls).len() == 0 || comment_lines(ls).last() == '\n',
    decreases ls.len(),
{
    if ls.len() > 0 {
        let rest = ls.drop_first();
        assert forall|k: int| 0 <= k < rest.len() implies no_newline(#[trigger] rest[k]) by {
            assert(rest[k] == ls[k + 1]);
        }
        lemma_comment_lines_commented(rest);
        reveal_strlit("; ");
        reveal_strlit("\r\n");
        let head = "; "@ + ls[0] + "\r\n"@;
        let tail = comment_lines(rest);
        let all = comment_lines(ls);
        assert(all =~= head + tail);
        assert(no_newline(ls[0]));
        assert forall|j: int| 0 <= j < all.len() - 1 && #[trigger] all[j] == '\n' implies all[j
            + 1] == ';' by {
            if j < head.len() {
                if j < 2 {
                } else if j < 2 + ls[0].len() {
                    assert(all[j] == ls[0][j - 2]);
                } else if j == 2 + ls[0].len() {
                } else {
                    assert(j == head.len() - 1);
                    assert(all[j + 1] == tail[0]);
                }
            } else {
                assert(all[j] == tail[j - head.len()]);
                assert(all[j + 1] == tail[j + 1 - head.len()]);
            }
        }
    }
}

/// After each line break of `replace_all(h, "\n", "\r\n; ")` comes `;`.
proof fn lemma_replaced_newlines(h: Seq<char>)
    ensures
        forall|j: int|
            0 <= j < replace_all(h, "\n"@, "\r\n; "@).len() && #[trigger] replace_all(
                h,
                "\n"@,
                "\r\n; "@,
            )[j] == '\n' ==> j + 1 < replace_all(h, "\n"@, "\r\n; "@).len() && replace_all(
                h,
                "\n"@,
                "\r\n; "@,
            )[j + 1] == ';',
    decreases h.len(),
{
    reveal_strlit("\n");
    reveal_strlit("\r\n; ");
    assert("\n"@ =~= seq!['\n']);
    let r = replace_all(h, "\n"@, "\r\n; "@);
    if h.len() > 0 {
        if h.take(1) == "\n"@ {
            let rest = h.skip(1);
            lemma_replaced_newlines(rest);
            let rr = replace_all(rest, "\n"@, "\r\n; "@);
            assert(r =~= "\r\n; "@ + rr);
            assert forall|j: int| 0 <= j < r.len() && #[trigger] r[j] == '\n' implies j + 1 < r.len()
                && r[j + 1] == ';' by {
                if j >= 4 {
                    assert(r[j] == rr[j - 4]);
                    assert(r[j + 1] == rr[j - 3]);
                }
            }
        } else {
            let rest = h.drop_first();
            assert(h.take(1) =~= seq![h[0]]);
            assert(h[0] != '\n');
            lemma_replaced_newlines(rest);
            let rr = replace_all(rest, "\n"@, "\r\n; "@);
            assert(r =~= seq![h[0]] + rr);
            assert forall|j: int| 0 <= j < r.len() && #[trigger] r[j] == '\n' implies j + 1 < r.len()
                && r[j + 1] == ';' by {
                if j >= 1 {
                    assert(r[j] == rr[j - 1]);
                    assert(r[j + 1] == rr[j]);
                }
            }
        }
    }
}

/// The heading comment changes no setting.
pub proof fn lemma_header_inert(m: Settings, cat: Option<Entries>)
    ensures
        apply_lines(m, lines(header_block(cat))) == m,
        header_block(cat).last() == '\n',
        header_block(cat)[0] == ';',
        header_block(cat).len() > 0,
        lines(header_block(cat)).filter(key_line_pred()) == Seq::<Seq<char>>::empty(),
{
    reveal_strlit("; ");
    reveal_strlit("\r\n");
    reveal_strlit("\r\n\r\n");
    let h = crate::lang::translate(cat, "cfg.header"@);
    let r = replace_all(h, "\n"@, "\r\n; "@);
    lemma_replaced_newlines(h);
    let h1 = "; "@ + r + "\r\n"@;
    let blank = "\r\n"@;
    assert(header_block(cat) =~= h1 + blank);
    assert(commented(h1)) by {
        assert forall|j: int| 0 <= j < h1.len() - 1 && #[trigger] h1[j] == '\n' implies h1[j + 1]
            == ';' by {
            if j < 2 {
            } else if j < 2 + r.len() {
                assert(h1[j] == r[j - 2]);
                assert(h1[j + 1] == r[j - 1]);
            } else {
                assert(j == h1.len() - 1);
            }
        }
    }
    lemma_commented_inert(m, h1);
    lemma_commented_no_key_lines_from(h1, 0);
    lemma_lines_append(h1, blank);
    lemma_apply_lines_append(m, lines(h1), lines(blank));
    lemma_next_nl_bounds(blank, 0);
    assert(next_nl(blank, 1) == 1);
    assert(next_nl(blank, 0) == 1);
    assert(blank.subrange(0, 1) =~= seq!['\r']);
    assert(strip_cr(seq!['\r']) =~= Seq::<char>::empty());
    assert(lines_from(blank, 2) =~= Seq::<Seq<char>>::empty());
    assert(lines(blank) =~= seq![Seq::<char>::empty()]);
    assert(trim(Seq::<char>::empty()) =~= Seq::<char>::empty());
    assert(apply_line(m, Seq::<char>::empty()) == m);
    assert(seq![Seq::<char>::empty()].drop_first() =~= Seq::<Seq<char>>::empty());
    assert(apply_lines(m, Seq::<Seq<char>>::empty()) == m);
    assert(apply_lines(m, lines(blank)) == m);
    Seq::filter_distributes_over_add(lines(h1), lines(blank), key_line_pred());
    assert(lines(blank).filter(key_line_pred()) =~= Seq::<Seq<char>>::empty()) by {
        reveal_with_fuel(Seq::<Seq<char>>::filter, 2);
    }
}


/// A key as written: lower-case ASCII letters and `_`.
pub open spec fn plain_key(s: Seq<char>) -> bool {
    s.len() > 0 && forall|j: int| 0 <= j < s.len() ==> ('a' <= #[trigger] s[j] && s[j] <= 'z') || s[j] == '_'
}

proof fn reveal_key_names()
    ensures
        "language"@ =~= seq!['l', 'a', 'n', 'g', 'u', 'a', 'g', 'e'],
        "theme"@ =~= seq!['t', 'h', 'e', 'm', 'e'],
        "enabled"@ =~= seq!['e', 'n', 'a', 'b', 'l', 'e', 'd'],
        "delay_ms"@ =~= seq!['d', 'e', 'l', 'a', 'y', '_', 'm', 's'],
        "sound_enabled"@ =~= seq!['s', 'o', 'u', 'n', 'd', '_', 'e', 'n', 'a', 'b', 'l', 'e', 'd'],
        "wav_path"@ =~= seq!['w', 'a', 'v', '_', 'p', 'a', 't', 'h'],
        "standard_dialog_only"@ =~= seq!['s', 't', 'a', 'n', 'd', 'a', 'r', 'd', '_', 'd', 'i', 'a', 'l', 'o', 'g', '_', 'o', 'n', 'l', 'y'],
        "require_foreground"@ =~= seq!['r', 'e', 'q', 'u', 'i', 'r', 'e', '_', 'f', 'o', 'r', 'e', 'g', 'r', 'o', 'u', 'n', 'd'],
        "skip_if_cursor_inside"@ =~= seq!['s', 'k', 'i', 'p', '_', 'i', 'f', '_', 'c', 'u', 'r', 's', 'o', 'r', '_', 'i', 'n', 's', 'i', 'd', 'e'],
        "move_once_per_dialog"@ =~= seq!['m', 'o', 'v', 'e', '_', 'o', 'n', 'c', 'e', '_', 'p', 'e', 'r', '_', 'd', 'i', 'a', 'l', 'o', 'g'],
        "ignore_own_process"@ =~= seq!['i', 'g', 'n', 'o', 'r', 'e', '_', 'o', 'w', 'n', '_', 'p', 'r', 'o', 'c', 'e', 's', 's'],
        "move_animation"@ =~= seq!['m', 'o', 'v', 'e', '_', 'a', 'n', 'i', 'm', 'a', 't', 'i', 'o', 'n'],
        "move_duration_ms"@ =~= seq!['m', 'o', 'v', 'e', '_', 'd', 'u', 'r', 'a', 't', 'i', 'o', 'n', '_', 'm', 's'],
        "move_wobble"@ =~= seq!['m', 'o', 'v', 'e', '_', 'w', 'o', 'b', 'b', 'l', 'e'],
        "cursor_animation"@ =~= seq!['c', 'u', 'r', 's', 'o', 'r', '_', 'a', 'n', 'i', 'm', 'a', 't', 'i', 'o', 'n'],
        "ripple_enabled"@ =~= seq!['r', 'i', 'p', 'p', 'l', 'e', '_', 'e', 'n', 'a', 'b', 'l', 'e', 'd'],
        "ripple_size"@ =~= seq!['r', 'i', 'p', 'p', 'l', 'e', '_', 's', 'i', 'z', 'e'],
        "ripple_duration_ms"@ =~= seq!['r', 'i', 'p', 'p', 'l', 'e', '_', 'd', 'u', 'r', 'a', 't', 'i', 'o', 'n', '_', 'm', 's'],
        "ripple_color"@ =~= seq!['r', 'i', 'p', 'p', 'l', 'e', '_', 'c', 'o', 'l', 'o', 'r'],
        "abort_on_user_move"@ =~= seq!['a', 'b', 'o', 'r', 't', '_', 'o', 'n', '_', 'u', 's', 'e', 'r', '_', 'm', 'o', 'v', 'e'],
        "user_move_threshold"@ =~= seq!['u', 's', 'e', 'r', '_', 'm', 'o', 'v', 'e', '_', 't', 'h', 'r', 'e', 's', 'h', 'o', 'l', 'd'],
        "watch_title_changes"@ =~= seq!['w', 'a', 't', 'c', 'h', '_', 't', 'i', 't', 'l', 'e', '_', 'c', 'h', 'a', 'n', 'g', 'e', 's'],
        "watch_focus_changes"@ =~= seq!['w', 'a', 't', 'c', 'h', '_', 'f', 'o', 'c', 'u', 's', '_', 'c', 'h', 'a', 'n', 'g', 'e', 's'],
        "follow_dialog_default_button"@ =~= seq!['f', 'o', 'l', 'l', 'o', 'w', '_', 'd', 'i', 'a', 'l', 'o', 'g', '_', 'd', 'e', 'f', 'a', 'u', 'l', 't', '_', 'b', 'u', 't', 't', 'o', 'n'],
        "follow_default_in_browser"@ =~= seq!['f', 'o', 'l', 'l', 'o', 'w', '_', 'd', 'e', 'f', 'a', 'u', 'l', 't', '_', 'i', 'n', '_', 'b', 'r', 'o', 'w', 's', 'e', 'r'],
        "uia_enabled"@ =~= seq!['u', 'i', 'a', '_', 'e', 'n', 'a', 'b', 'l', 'e', 'd'],
        "uia_dialog_like_only"@ =~= seq!['u', 'i', 'a', '_', 'd', 'i', 'a', 'l', 'o', 'g', '_', 'l', 'i', 'k', 'e', '_', 'o', 'n', 'l', 'y'],
        "uia_max_elements"@ =~= seq!['u', 'i', 'a', '_', 'm', 'a', 'x', '_', 'e', 'l', 'e', 'm', 'e', 'n', 't', 's'],
        "log_level"@ =~= seq!['l', 'o', 'g', '_', 'l', 'e', 'v', 'e', 'l'],
        "skip_file_dialogs"@ =~= seq!['s', 'k', 'i', 'p', '_', 'f', 'i', 'l', 'e', '_', 'd', 'i', 'a', 'l', 'o', 'g', 's'],
        "skip_progress_dialogs"@ =~= seq!['s', 'k', 'i', 'p', '_', 'p', 'r', 'o', 'g', 'r', 'e', 's', 's', '_', 'd', 'i', 'a', 'l', 'o', 'g', 's'],
        "exclude_processes"@ =~= seq!['e', 'x', 'c', 'l', 'u', 'd', 'e', '_', 'p', 'r', 'o', 'c', 'e', 's', 's', 'e', 's'],
        "exclude_titles"@ =~= seq!['e', 'x', 'c', 'l', 'u', 'd', 'e', '_', 't', 'i', 't', 'l', 'e', 's'],
        "extra_button_labels"@ =~= seq!['e', 'x', 't', 'r', 'a', '_', 'b', 'u', 't', 't', 'o', 'n', '_', 'l', 'a', 'b', 'e', 'l', 's'],
{
    reveal_strlit("language");
    reveal_strlit("theme");
    reveal_strlit("enabled");
    reveal_strlit("delay_ms");
    reveal_strlit("sound_enabled");
    reveal_strlit("wav_path");
    reveal_strlit("standard_dialog_only");
    reveal_strlit("require_foreground");
    reveal_strlit("skip_if_cursor_inside");
    reveal_strlit("move_once_per_dialog");
    reveal_strlit("ignore_own_process");
    reveal_strlit("move_animation");
    reveal_strlit("move_duration_ms");
    reveal_strlit("move_wobble");
    reveal_strlit("cursor_animation");
    reveal_strlit("ripple_enabled");
    reveal_strlit("ripple_size");
    reveal_strlit("ripple_duration_ms");
    reveal_strlit("ripple_color");
    reveal_strlit("abort_on_user_move");
    reveal_strlit("user_move_threshold");
    reveal_strlit("watch_title_changes");
    reveal_strlit("watch_focus_changes");
    reveal_strlit("follow_dialog_default_button");
    reveal_strlit("follow_default_in_browser");
    reveal_strlit("uia_enabled");
    reveal_strlit("uia_dialog_like_only");
    reveal_strlit("uia_max_elements");
    reveal_strlit("log_level");
    reveal_strlit("skip_file_dialogs");
    reveal_strlit("skip_progress_dialogs");
    reveal_strlit("exclude_processes");
    reveal_strlit("exclude_titles");
    reveal_strlit("extra_button_labels");
}

/// Each key names its setting and no other.
pub proof fn lemma_key_of_name(k: Key)
    ensures
        key_of(key_name(k)) == Some(k),
        plain_key(key_name(k)),
{
    reveal_key_names();
}


/// A value that a line can carry: no surrounding whitespace, no line break.
pub open spec fn plain_value(v: Seq<char>) -> bool {
    is_trimmed(v) && no_newline(v)
}

proof fn lemma_trim_after_space(v: Seq<char>)
    requires
        is_trimmed(v),
    ensures
        trim(seq![' '] + v) == v,
{
    let sv = seq![' '] + v;
    assert(sv.drop_first() =~= v);
    assert(trim_start(sv) == trim_start(v));
    lemma_trim_trimmed(v);
}

/// Reading `key = v` sets the value `v` of that key's setting.
pub proof fn lemma_setting_line(x: Settings, k: Key, v: Seq<char>)
    requires
        plain_value(v),
    ensures
        apply_line(x, key_name(k) + " = "@ + v) == apply_key(x, k, v),
{
    lemma_key_of_name(k);
    reveal_strlit(" = ");
    let kn = key_name(k);
    let line = kn + " = "@ + v;
    let n = kn.len() as int;
    let rest = if v.len() > 0 {
        seq![' '] + v
    } else {
        Seq::<char>::empty()
    };
    let l = kn + seq![' ', '='] + rest;
    assert(!is_ws(kn[0]));
    if v.len() > 0 {
        assert(line =~= l);
        assert(line[0] == kn[0]);
        assert(line.last() == v.last());
        lemma_trim_trimmed(line);
    } else {
        assert(line.drop_last() =~= l);
        assert(line[0] == kn[0]);
        assert(trim_start(line) == line);
        assert(l.last() == '=');
        assert(trim_end(l) == l);
        assert(trim_end(line) == trim_end(line.drop_last()));
    }
    assert(trim(line) == l);
    assert(l[0] == kn[0]);
    assert(l[n + 1] == '=');
    assert forall|j: int| 0 <= j < n + 1 implies l[j] != '=' by {
        if j < n {
            assert(l[j] == kn[j]);
        }
    }
    lemma_find_from_unique(l, 0, '=', n + 1);
    let kp = l.subrange(0, n + 1);
    assert(kp =~= kn.push(' '));
    assert(kp.drop_last() =~= kn);
    assert(trim_start(kp) == kp);
    assert(trim_end(kn) == kn);
    assert(trim(kp) == kn);
    assert(lower(kn) =~= kn) by {
        assert forall|j: int| 0 <= j < kn.len() implies lower(kn)[j] == kn[j] by {
            assert(lower_char(kn[j]) == kn[j]);
        }
    }
    let vp = l.subrange(n + 2, l.len() as int);
    assert(vp =~= rest);
    if v.len() > 0 {
        lemma_trim_after_space(v);
    } else {
        assert(trim(rest) =~= v);
    }
}


proof fn lemma_plain_word(w: Seq<char>)
    requires
        w.len() > 0,
        forall|j: int| 0 <= j < w.len() ==> ('a' <= #[trigger] w[j] && w[j] <= 'z') || ('0' <= w[j]
            && w[j] <= '9') || ('A' <= w[j] && w[j] <= 'F'),
    ensures
        plain_value(w),
        trim(w) == w,
{
    assert(!is_ws(w[0]));
    assert(!is_ws(w.last()));
    lemma_trim_trimmed(w);
}

/// What `bool::to_string` writes reads back as the same boolean.
pub proof fn lemma_bool_text(b: bool, fallback: bool)
    ensures
        parse_bool_spec(bool_text(b), fallback) == b,
        plain_value(bool_text(b)),
{
    reveal_strlit("true");
    reveal_strlit("false");
    reveal_strlit("1");
    reveal_strlit("yes");
    reveal_strlit("on");
    reveal_strlit("0");
    reveal_strlit("no");
    reveal_strlit("off");
    let w = bool_text(b);
    lemma_plain_word(w);
    assert(lower(w) =~= w) by {
        assert forall|j: int| 0 <= j < w.len() implies lower(w)[j] == w[j] by {
            assert(lower_char(w[j]) == w[j]);
        }
    }
}

/// A number in its range reads back as itself.
pub proof fn lemma_number_text(n: u32, current: u32, lo: u32, hi: u32)
    requires
        lo <= n <= hi,
    ensures
        number_setting(decimal(n as nat), current, lo, hi) == n,
        plain_value(decimal(n as nat)),
{
    lemma_decimal_round_trip(n);
    let d = decimal(n as nat);
    assert forall|j: int| 0 <= j < d.len() implies ('a' <= #[trigger] d[j] && d[j] <= 'z') || ('0'
        <= d[j] && d[j] <= '9') || ('A' <= d[j] && d[j] <= 'F') by {
        assert(is_dec_digit(d[j]));
    }
    lemma_plain_word(d);
}

/// A colour written as six hex digits reads back as itself.
pub proof fn lemma_color_text(c: u32, current: u32)
    requires
        c <= 0xFF_FFFF,
    ensures
        color_setting(hex_padded(c as nat, 6), current) == c,
        plain_value(hex_padded(c as nat, 6)),
{
    lemma_hex_round_trip(c, 6);
    let h = hex_padded(c as nat, 6);
    assert(h.len() >= 6);
    assert(is_hex_digit(h[0]));
    assert(is_hex_digit(h[1]));
    assert(strip_leading(h, '#') == h);
    assert(strip_0x(h) == h);
    assert forall|j: int| 0 <= j < h.len() implies ('a' <= #[trigger] h[j] && h[j] <= 'z') || ('0'
        <= h[j] && h[j] <= '9') || ('A' <= h[j] && h[j] <= 'F') by {
        assert(is_hex_digit(h[j]));
    }
    lemma_plain_word(h);
}


/// A colour may be written with a leading `#`, a leading `0x`, or both:
/// `#RRGGBB`, `0xRRGGBB`, `#0xRRGGBB` and `RRGGBB` all read as the colour
/// `RRGGBB`, and a leading `#` never changes what any value reads as.
pub proof fn lemma_color_prefixes(v: Seq<char>, c: u32, current: u32)
    requires
        c <= 0xFF_FFFF,
    ensures
        color_setting(seq!['#'] + v, current) == color_setting(v, current),
        color_setting("#"@ + hex_padded(c as nat, 6), current) == c,
        color_setting("0x"@ + hex_padded(c as nat, 6), current) == c,
        color_setting("#0x"@ + hex_padded(c as nat, 6), current) == c,
{
    reveal_strlit("#");
    reveal_strlit("0x");
    reveal_strlit("#0x");
    let hv = seq!['#'] + v;
    assert(hv.drop_first() =~= v);
    assert(strip_leading(hv, '#') == strip_leading(v, '#'));
    lemma_color_text(c, current);
    lemma_hex_round_trip(c, 6);
    let h = hex_padded(c as nat, 6);
    assert(h.len() >= 6);
    assert(is_hex_digit(h[0]));
    assert(is_hex_digit(h[1]));
    assert(strip_leading(h, '#') == h);
    assert(strip_0x(h) == h);
    let x = "0x"@ + h;
    assert(x[0] == '0' && x[1] == 'x');
    assert(strip_leading(x, '#') == x);
    assert(x.subrange(2, x.len() as int) =~= h);
    assert(strip_0x(x) == strip_0x(h));
    let hx = "#"@ + h;
    assert(hx =~= seq!['#'] + h);
    assert(hx.drop_first() =~= h);
    assert(strip_leading(hx, '#') == strip_leading(h, '#'));
    let hxx = "#0x"@ + h;
    assert(hxx.drop_first() =~= x);
    assert(strip_leading(hxx, '#') == strip_leading(x, '#'));
}

/// An entry that a comma separated list can carry.
pub open spec fn entry_ok(x: Seq<char>) -> bool {
    x.len() > 0 && plain_value(x) && forall|j: int| 0 <= j < x.len() ==> #[trigger] x[j] != ','
}

/// A list that reads back as written: at most [`MAX_LIST_ITEMS`] entries,
/// each non-empty, without surrounding whitespace, commas or line breaks.
pub open spec fn list_ok(xs: Seq<Seq<char>>) -> bool {
    xs.len() <= MAX_LIST_ITEMS && forall|i: int| 0 <= i < xs.len() ==> entry_ok(#[trigger] xs[i])
}

proof fn lemma_join_first(xs: Seq<Seq<char>>, sep: Seq<char>)
    requires
        xs.len() >= 2,
    ensures
        join(xs, sep) == xs[0] + sep + join(xs.drop_first(), sep),
    decreases xs.len(),
{
    let dl = xs.drop_last();
    let df = xs.drop_first();
    if xs.len() == 2 {
        assert(dl.len() == 1);
        assert(df.len() == 1);
        assert(join(dl, sep) == dl[0]);
        assert(join(df, sep) == df[0]);
    } else {
        lemma_join_first(dl, sep);
        assert(df.drop_last() =~= dl.drop_first());
        assert(df.last() == xs.last());
        assert(join(xs, sep) =~= xs[0] + sep + join(df, sep));
    }
}

proof fn lemma_find_shift(x: Seq<char>, y: Seq<char>, q: int, c: char)
    requires
        0 <= q <= y.len(),
    ensures
        find_from(x + y, x.len() + q, c) == x.len() + find_from(y, q, c),
    decreases y.len() - q,
{
    if q < y.len() {
        assert((x + y)[x.len() + q] == y[q]);
        if y[q] != c {
            lemma_find_shift(x, y, q + 1, c);
        }
    }
}

proof fn lemma_pieces_shift(x: Seq<char>, y: Seq<char>, q: int)
    requires
        0 <= q <= y.len(),
    ensures
        pieces_from(x + y, x.len() + q) == pieces_from(y, q),
    decreases y.len() - q,
{
    lemma_find_shift(x, y, q, ',');
    lemma_find_from_bounds(y, q, ',');
    let i = find_from(y, q, ',');
    if i < y.len() {
        assert((x + y).subrange(x.len() + q, x.len() + i) =~= y.subrange(q, i));
        lemma_pieces_shift(x, y, i + 1);
    } else {
        assert((x + y).subrange(x.len() + q, (x + y).len() as int) =~= y.subrange(q, y.len() as int));
    }
}

proof fn lemma_trim_prefixed(p: Seq<char>, x: Seq<char>)
    requires
        p == Seq::<char>::empty() || p == seq![' '],
        x.len() > 0,
        is_trimmed(x),
    ensures
        trim(p + x) == x,
{
    if p.len() == 0 {
        assert(p + x =~= x);
        lemma_trim_trimmed(x);
    } else {
        assert(p + x =~= seq![' '] + x);
        lemma_trim_after_space(x);
    }
}

proof fn lemma_kept_join(p: Seq<char>, xs: Seq<Seq<char>>)
    requires
        p == Seq::<char>::empty() || p == seq![' '],
        xs.len() > 0,
        forall|i: int| 0 <= i < xs.len() ==> entry_ok(#[trigger] xs[i]),
    ensures
        kept_items(pieces_from(p + join(xs, ", "@), 0)) == xs,
    decreases xs.len(),
{
    reveal_strlit(", ");
    let x0 = xs[0];
    assert(entry_ok(x0));
    lemma_trim_prefixed(p, x0);
    let head = p + x0;
    assert forall|j: int| 0 <= j < head.len() implies #[trigger] head[j] != ',' by {
        if j >= p.len() {
            assert(head[j] == x0[j - p.len()]);
        }
    }
    if xs.len() == 1 {
        assert(join(xs, ", "@) == x0);
        lemma_find_from_unique(head, 0, ',', head.len() as int);
        let ps = pieces_from(head, 0);
        assert(head.subrange(0, head.len() as int) =~= head);
        assert(ps =~= seq![head]);
        assert(ps.drop_first() =~= Seq::<Seq<char>>::empty());
        assert(kept_items(Seq::<Seq<char>>::empty()) =~= Seq::<Seq<char>>::empty());
        assert(kept_items(ps) =~= xs);
    } else {
        lemma_join_first(xs, ", "@);
        let rest = xs.drop_first();
        assert forall|i: int| 0 <= i < rest.len() implies entry_ok(#[trigger] rest[i]) by {
            assert(rest[i] == xs[i + 1]);
        }
        lemma_kept_join(seq![' '], rest);
        let tail = seq![' '] + join(rest, ", "@);
        let whole = p + join(xs, ", "@);
        let front = head + seq![','];
        assert(whole =~= front + tail);
        let n = head.len() as int;
        assert(whole[n] == ',');
        assert forall|j: int| 0 <= j < n implies whole[j] != ',' by {
            assert(whole[j] == head[j]);
        }
        lemma_find_from_unique(whole, 0, ',', n);
        lemma_pieces_shift(front, tail, 0);
        let ps = pieces_from(whole, 0);
        assert(whole.subrange(0, n) =~= head);
        assert(ps == seq![head] + pieces_from(tail, 0));
        assert(ps[0] == head);
        assert(ps.drop_first() =~= pieces_from(tail, 0));
        assert(kept_items(ps) =~= seq![x0] + rest);
        assert(seq![x0] + rest =~= xs);
    }
}

proof fn lemma_join_plain(xs: Seq<Seq<char>>)
    requires
        forall|i: int| 0 <= i < xs.len() ==> entry_ok(#[trigger] xs[i]),
    ensures
        no_newline(join(xs, ", "@)),
        xs.len() > 0 ==> join(xs, ", "@).len() > 0 && join(xs, ", "@).last() == xs.last().last(),
    decreases xs.len(),
{
    reveal_strlit(", ");
    if xs.len() == 1 {
        assert(entry_ok(xs[0]));
    } else if xs.len() > 1 {
        let dl = xs.drop_last();
        assert forall|i: int| 0 <= i < dl.len() implies entry_ok(#[trigger] dl[i]) by {
            assert(dl[i] == xs[i]);
        }
        lemma_join_plain(dl);
        let a = join(dl, ", "@);
        let l = xs.last();
        assert(entry_ok(xs[xs.len() - 1]));
        let j = a + ", "@ + l;
        assert(join(xs, ", "@) == j);
        assert forall|q: int| 0 <= q < j.len() implies #[trigger] j[q] != '\n' by {
            if q < a.len() {
                assert(j[q] == a[q]);
            } else if q < a.len() + 2 {
            } else {
                assert(j[q] == l[q - a.len() - 2]);
            }
        }
    }
}

/// A list written joined by `", "` reads back as the same entries.
pub proof fn lemma_list_text(xs: Seq<Seq<char>>)
    requires
        list_ok(xs),
    ensures
        list_setting(join(xs, ", "@)) == xs,
        plain_value(join(xs, ", "@)),
{
    lemma_join_plain(xs);
    let j = join(xs, ", "@);
    if xs.len() == 0 {
        let ps = pieces_from(j, 0);
        assert(j.len() == 0);
        assert(j.subrange(0, 0) =~= j);
        assert(ps =~= seq![j]);
        assert(ps.drop_first() =~= Seq::<Seq<char>>::empty());
        assert(trim(j) =~= j);
        assert(ps[0] == j);
        assert(kept_items(Seq::<Seq<char>>::empty()) =~= Seq::<Seq<char>>::empty());
        assert(kept_items(ps) =~= xs);
    } else {
        lemma_kept_join(Seq::<char>::empty(), xs);
        assert(Seq::<char>::empty() + j =~= j);
        if xs.len() >= 2 {
            lemma_join_first(xs, ", "@);
            assert(j[0] == xs[0][0]);
        } else {
            assert(j == xs[0]);
        }
        assert(entry_ok(xs[0]));
        assert(entry_ok(xs[xs.len() - 1]));
    }
    assert(at_most(xs, MAX_LIST_ITEMS as nat) == xs);
}


// ---------------------------------------------------------------------------
// The whole file
// ---------------------------------------------------------------------------

/// Settings that `config.ini` can carry unchanged: the language code is safe
/// and lower case, the theme is empty or safe, the sound path has no
/// surrounding whitespace, quotes or line breaks, every number lies in the
/// range it is read into, the colour fits in `0xRRGGBB`, and every list entry
/// can be told apart when joined with commas.
pub open spec fn writable(m: Settings) -> bool {
    &&& valid_code(m.language)
    &&& lower(m.language) == m.language
    &&& m.theme.len() == 0 || valid_theme_name(m.theme)
    &&& plain_value(m.wav_path)
    &&& m.wav_path.len() > 0 ==> m.wav_path[0] != '"' && m.wav_path.last() != '"'
    &&& m.delay_ms <= 60_000
    &&& m.move_duration_ms <= 5000
    &&& m.move_wobble <= 40
    &&& 16 <= m.ripple_size <= 600
    &&& m.ripple_duration_ms <= 3000
    &&& m.ripple_color <= 0xFF_FFFF
    &&& 2 <= m.user_move_threshold <= 500
    &&& 20 <= m.uia_max_elements <= 5000
    &&& m.log_level <= 2
    &&& list_ok(m.exclude_processes)
    &&& list_ok(m.exclude_titles)
    &&& list_ok(m.extra_button_labels)
}

proof fn lemma_safe_name_plain(s: Seq<char>, max: nat)
    requires
        crate::theme::is_safe_name(s, max),
    ensures
        plain_value(s),
{
    assert(is_name_char(s[0]));
    assert(is_name_char(s.last()));
    assert forall|j: int| 0 <= j < s.len() implies #[trigger] s[j] != '\n' by {
        assert(is_name_char(s[j]));
    }
}

/// Each value is written so that it reads back as itself.
pub proof fn lemma_value_round_trip(x: Settings, m: Settings, k: Key)
    requires
        writable(m),
    ensures
        plain_value(value_text(m, k)),
        apply_key(x, k, value_text(m, k)) == copy_field(x, m, k),
{
    reveal(copy_field);
    if is_flag(k) {
        lemma_bool_text(flag_of(m, k), flag_of(x, k));
    } else if is_number(k) {
        lemma_number_text(number_of(m, k), number_of(x, k), number_range(k).0, number_range(k).1);
    } else if is_list(k) {
        lemma_list_text(list_of(m, k));
    } else {
        match k {
            Key::Language => {
                lemma_safe_name_plain(m.language, 32);
            },
            Key::Theme => {
                if m.theme.len() > 0 {
                    lemma_safe_name_plain(m.theme, 64);
                }
            },
            Key::WavPath => {
                let w = m.wav_path;
                assert(crate::text::strip_leading(w, '"') == w);
                assert(crate::text::strip_trailing(w, '"') == w);
            },
            _ => {
                lemma_color_text(m.ripple_color, x.ripple_color);
            },
        }
    }
}

proof fn lemma_single_line(l: Seq<char>)
    requires
        no_newline(l),
    ensures
        lines(l + "\r\n"@) == seq![l],
{
    reveal_strlit("\r\n");
    let s = l + "\r\n"@;
    let n = l.len() as int;
    assert(s[n + 1] == '\n');
    assert forall|j: int| 0 <= j < n + 1 implies s[j] != '\n' by {
        if j < n {
            assert(s[j] == l[j]);
        }
    }
    crate::text::lemma_next_nl_bounds(s, 0);
    lemma_find_nl_unique(s, 0, n + 1);
    assert(s.subrange(0, n + 1) =~= l.push('\r'));
    assert(strip_cr(l.push('\r')) =~= l);
    assert(lines_from(s, n + 2) =~= Seq::<Seq<char>>::empty());
    assert(lines(s) =~= seq![l]);
}

proof fn lemma_find_nl_unique(s: Seq<char>, from: int, i: int)
    requires
        0 <= from <= i < s.len(),
        s[i] == '\n',
        forall|j: int| from <= j < i ==> s[j] != '\n',
    ensures
        next_nl(s, from) == i,
    decreases i - from,
{
    if from < i {
        lemma_find_nl_unique(s, from + 1, i);
    }
}

/// One setting as written is read back into that setting.
pub proof fn lemma_item_round_trip(x: Settings, m: Settings, cat: Option<Entries>, k: Key)
    requires
        writable(m),
    ensures
        apply_lines(x, lines(item_block(m, cat, k))) == copy_field(x, m, k),
        item_block(m, cat, k).last() == '\n',
{
    reveal_strlit("\r\n");
    reveal_strlit("\r\n\r\n");
    reveal_strlit(" = ");
    let t = crate::lang::translate(cat, crate::config::comment_key(k));
    lemma_lines_no_newline(t);
    lemma_comment_lines_commented(lines(t));
    let c = comment_lines(lines(t));
    lemma_commented_inert(x, c);
    lemma_value_round_trip(x, m, k);
    lemma_key_of_name(k);
    let l = setting_line(m, k);
    let kn = key_name(k);
    let v = value_text(m, k);
    assert(no_newline(l)) by {
        assert forall|j: int| 0 <= j < l.len() implies #[trigger] l[j] != '\n' by {
            if j < kn.len() {
                assert(l[j] == kn[j]);
            } else if j < kn.len() + 3 {
            } else {
                assert(l[j] == v[j - kn.len() - 3]);
            }
        }
    }
    lemma_setting_line(x, k, v);
    let crlf = "\r\n"@;
    let first = l + crlf;
    assert(item_block(m, cat, k) =~= c + (first + crlf));
    lemma_lines_append(c, first + crlf);
    lemma_lines_append(first, crlf);
    lemma_single_line(l);
    assert(Seq::<char>::empty() + crlf =~= crlf);
    lemma_single_line(Seq::<char>::empty());
    assert(lines(crlf) == seq![Seq::<char>::empty()]);
    let ls = lines(first + crlf);
    assert(ls =~= seq![l, Seq::<char>::empty()]);
    lemma_apply_lines_append(x, lines(c), ls);
    let y = apply_key(x, k, v);
    assert(trim(Seq::<char>::empty()) =~= Seq::<char>::empty());
    assert(apply_line(y, Seq::<char>::empty()) == y);
    assert(ls[0] == l);
    assert(ls.drop_first() =~= seq![Seq::<char>::empty()]);
    assert(seq![Seq::<char>::empty()].drop_first() =~= Seq::<Seq<char>>::empty());
    assert(apply_lines(y, Seq::<Seq<char>>::empty()) == y);
    assert(apply_lines(y, seq![Seq::<char>::empty()]) == y);
}

proof fn lemma_items_round_trip(x: Settings, m: Settings, cat: Option<Entries>, i: nat)
    requires
        writable(m),
    ensures
        apply_lines(x, lines(items_from(m, cat, i))) == copy_from(x, m, i),
        items_from(m, cat, i).len() == 0 || items_from(m, cat, i).last() == '\n',
    decreases KEY_COUNT - i,
{
    if i < KEY_COUNT {
        let k = key_at(i);
        let item = item_block(m, cat, k);
        lemma_item_round_trip(x, m, cat, k);
        let y = copy_field(x, m, k);
        lemma_items_round_trip(y, m, cat, i + 1);
        lemma_copy_step(x, m, i);
        let rest = items_from(m, cat, i + 1);
        lemma_lines_append(item, rest);
        lemma_apply_lines_append(x, lines(item), lines(rest));
        if rest.len() > 0 {
            assert((item + rest).last() == rest.last());
        } else {
            assert(item + rest =~= item);
        }
    } else {
        assert(lines(Seq::<char>::empty()) =~= Seq::<Seq<char>>::empty());
        lemma_copy_end(x, m, i);
    }
}

/// Writing settings and reading the text back gives the same settings, for
/// every translation of the comments, as long as the settings are ones the
/// file can carry ([`writable`]).
pub proof fn lemma_ini_round_trip(m: Settings, cat: Option<Entries>)
    requires
        writable(m),
    ensures
        parse_ini_spec(ini_text(m, cat)) == m,
{
    let h = header_block(cat);
    let items = items_from(m, cat, 0);
    let text = ini_text(m, cat);
    lemma_header_inert(default_settings(), cat);
    lemma_items_round_trip(default_settings(), m, cat, 0);
    lemma_copy_all(default_settings(), m);
    assert(text[0] == bom());
    assert(text.drop_first() =~= h + items);
    assert((h + items)[0] == h[0]);
    assert((h + items)[0] == ';');
    assert(strip_leading(h + items, bom()) == h + items);
    assert(strip_leading(text, bom()) == h + items);
    lemma_lines_append(h, items);
    lemma_apply_lines_append(default_settings(), lines(h), lines(items));
}

// ---------------------------------------------------------------------------
// The setting lines do not depend on the language
// ---------------------------------------------------------------------------

/// A line that carries a setting: neither blank nor a comment.
pub open spec fn is_key_line(l: Seq<char>) -> bool {
    l.len() > 0 && l[0] != ';'
}

/// [`is_key_line`] as a predicate on lines.
pub open spec fn key_line_pred() -> spec_fn(Seq<char>) -> bool {
    |l: Seq<char>| is_key_line(l)
}

/// The lines of a settings text that carry settings, in order, after the byte
/// order mark.
pub open spec fn key_lines(text: Seq<char>) -> Seq<Seq<char>> {
    lines(strip_leading(text, bom())).filter(key_line_pred())
}

/// The settings from the `i`-th on as written, without their explanations.
pub open spec fn bare_items(m: Settings, i: nat) -> Seq<char>
    decreases KEY_COUNT - i,
{
    if i >= KEY_COUNT {
        Seq::empty()
    } else {
        setting_line(m, key_at(i)) + "\r\n\r\n"@ + bare_items(m, i + 1)
    }
}

proof fn lemma_commented_no_key_lines_from(s: Seq<char>, p: int)
    requires
        commented(s),
        s.len() == 0 || s.last() == '\n',
        0 <= p <= s.len(),
        p < s.len() ==> s[p] == ';',
    ensures
        lines_from(s, p).filter(key_line_pred()) == Seq::<Seq<char>>::empty(),
    decreases s.len() - p,
{
    if p < s.len() {
        lemma_next_nl_bounds(s, p);
        let i = next_nl(s, p);
        assert(i < s.len()) by {
            if i >= s.len() {
                assert(s[s.len() - 1] != '\n');
            }
        }
        let line = strip_cr(s.subrange(p, i));
        assert(s.subrange(p, i)[0] == ';');
        assert(line.len() > 0 && line[0] == ';');
        let ls = lines_from(s, p);
        assert(ls[0] == line);
        assert(ls.drop_first() =~= lines_from(s, i + 1));
        if i + 1 < s.len() {
            assert(s[i + 1] == ';');
        }
        lemma_commented_no_key_lines_from(s, i + 1);
        assert(ls =~= seq![line] + ls.drop_first());
        Seq::filter_distributes_over_add(seq![line], ls.drop_first(), key_line_pred());
        assert(seq![line].filter(key_line_pred()) =~= Seq::<Seq<char>>::empty()) by {
            reveal_with_fuel(Seq::<Seq<char>>::filter, 2);
            assert(seq![line].drop_last() =~= Seq::<Seq<char>>::empty());
        }
    } else {
        assert(lines_from(s, p) =~= Seq::<Seq<char>>::empty());
        assert(Seq::<Seq<char>>::empty().filter(key_line_pred()) =~= Seq::<Seq<char>>::empty()) by {
            reveal_with_fuel(Seq::<Seq<char>>::filter, 1);
        }
    }
}

proof fn lemma_items_key_lines(m: Settings, cat: Option<Entries>, i: nat)
    ensures
        lines(items_from(m, cat, i)).filter(key_line_pred()) == lines(bare_items(m, i)).filter(key_line_pred()),
        items_from(m, cat, i).len() == 0 || items_from(m, cat, i).last() == '\n',
        bare_items(m, i).len() == 0 || bare_items(m, i).last() == '\n',
    decreases KEY_COUNT - i,
{
    reveal_strlit("\r\n\r\n");
    if i < KEY_COUNT {
        let k = key_at(i);
        let t = crate::lang::translate(cat, crate::config::comment_key(k));
        lemma_lines_no_newline(t);
        lemma_comment_lines_commented(lines(t));
        let c = comment_lines(lines(t));
        let b = setting_line(m, k) + "\r\n\r\n"@;
        let rest = items_from(m, cat, i + 1);
        let bare_rest = bare_items(m, i + 1);
        lemma_items_key_lines(m, cat, i + 1);
        assert(b.last() == '\n');
        assert(items_from(m, cat, i) =~= c + (b + rest));
        assert(bare_items(m, i) =~= b + bare_rest);
        if c.len() > 0 {
            assert(c[0] == ';');
            lemma_commented_no_key_lines_from(c, 0);
        } else {
            assert(lines(c) =~= Seq::<Seq<char>>::empty());
            assert(Seq::<Seq<char>>::empty().filter(key_line_pred()) =~= Seq::<Seq<char>>::empty()) by {
                reveal_with_fuel(Seq::<Seq<char>>::filter, 1);
            }
        }
        lemma_lines_append(c, b + rest);
        lemma_lines_append(b, rest);
        lemma_lines_append(b, bare_rest);
        let kp = key_line_pred();
        Seq::filter_distributes_over_add(lines(c), lines(b + rest), kp);
        Seq::filter_distributes_over_add(lines(b), lines(rest), kp);
        Seq::filter_distributes_over_add(lines(b), lines(bare_rest), kp);
        assert(lines(c).filter(kp) + lines(b + rest).filter(kp) =~= lines(b + rest).filter(kp));
        assert((c + (b + rest)).last() == (b + rest).last());
        if rest.len() > 0 {
            assert((b + rest).last() == rest.last());
        } else {
            assert(b + rest =~= b);
        }
        if bare_rest.len() > 0 {
            assert((b + bare_rest).last() == bare_rest.last());
        } else {
            assert(b + bare_rest =~= b);
        }
    } else {
        assert(items_from(m, cat, i) =~= Seq::<char>::empty());
        assert(bare_items(m, i) =~= Seq::<char>::empty());
    }
}

/// The lines of the settings file that carry settings are the same whatever
/// language is loaded: the language changes only the comment lines.
pub proof fn lemma_key_lines_ignore_language(m: Settings, cat1: Option<Entries>, cat2: Option<Entries>)
    ensures
        key_lines(ini_text(m, cat1)) == key_lines(ini_text(m, cat2)),
        key_lines(ini_text(m, cat1)) == lines(bare_items(m, 0)).filter(key_line_pred()),
{
    lemma_ini_key_lines(m, cat1);
    lemma_ini_key_lines(m, cat2);
}

proof fn lemma_ini_key_lines(m: Settings, cat: Option<Entries>)
    ensures
        key_lines(ini_text(m, cat)) == lines(bare_items(m, 0)).filter(key_line_pred()),
{
    let h = header_block(cat);
    let items = items_from(m, cat, 0);
    let text = ini_text(m, cat);
    lemma_header_inert(default_settings(), cat);
    lemma_items_key_lines(m, cat, 0);
    assert(text[0] == bom());
    assert(text.drop_first() =~= h + items);
    assert((h + items)[0] == h[0]);
    assert(strip_leading(h + items, bom()) == h + items);
    assert(strip_leading(text, bom()) == h + items);
    lemma_lines_append(h, items);
    Seq::filter_distributes_over_add(lines(h), lines(items), key_line_pred());
    assert(lines(h).filter(key_line_pred()) + lines(items).filter(key_line_pred())
        =~= lines(items).filter(key_line_pred()));
}

} // verus!
