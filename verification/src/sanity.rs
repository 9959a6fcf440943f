//! What any `config.ini` yields, however it was edited: a language code and a
//! theme name that are safe to join to a path, every number and the colour
//! within its range, and lists of bounded length whose entries are trimmed,
//! non-empty and free of commas.
use vstd::prelude::*;
use crate::config::{
    apply_key, apply_line, apply_lines, at_most, color_setting, default_settings, flag_of, is_flag,
    is_list, is_number, kept_items, list_setting, number_of, number_range, number_setting,
    parse_bool_spec, parse_ini_spec, pieces_from, with_flag, with_list, with_number, Key, Settings,
    MAX_LIST_ITEMS,
};
use crate::lang::valid_code;
use crate::text::{
    find_from, is_ascii_upper, is_trimmed, is_ws, lemma_find_from_bounds, lower, lower_char, trim,
    trim_end, trim_start,
};
use crate::theme::{is_name_char, is_safe_name, valid_theme_name};

verus! {

/// An entry of a list setting as read: non-empty, without whitespace at
/// either end, and without a comma.
pub open spec fn entry_shaped(x: Seq<char>) -> bool {
    &&& x.len() > 0
    &&& is_trimmed(x)
    &&& forall|j: int| 0 <= j < x.len() ==> #[trigger] x[j] != ','
}

/// A list setting as read: at most [`MAX_LIST_ITEMS`] entries, each
/// [`entry_shaped`].
pub open spec fn list_shaped(xs: Seq<Seq<char>>) -> bool {
    xs.len() <= MAX_LIST_ITEMS && forall|i: int| 0 <= i < xs.len() ==> entry_shaped(#[trigger] xs[i])
}

/// What the settings read from a file always keep: a safe language code, a
/// safe theme name or none, every number within the range it is read into,
/// the colour within `0xRRGGBB`, and lists of the shape that reading gives.
pub open spec fn sane(m: Settings) -> bool {
    &&& valid_code(m.language)
    &&& (m.theme.len() == 0 || valid_theme_name(m.theme))
    &&& m.delay_ms <= 60_000
    &&& m.move_duration_ms <= 5000
    &&& m.move_wobble <= 40
    &&& 16 <= m.ripple_size <= 600
    &&& m.ripple_duration_ms <= 3000
    &&& m.ripple_color <= 0xFF_FFFF
    &&& 2 <= m.user_move_threshold <= 500
    &&& 20 <= m.uia_max_elements <= 5000
    &&& m.log_level <= 2
    &&& list_shaped(m.exclude_processes)
    &&& list_shaped(m.exclude_titles)
    &&& list_shaped(m.extra_button_labels)
}

/// No comma in `x`.
spec fn comma_free(x: Seq<char>) -> bool {
    forall|j: int| 0 <= j < x.len() ==> #[trigger] x[j] != ','
}

proof fn lemma_trim_start_shape(s: Seq<char>)
    ensures
        trim_start(s).len() > 0 ==> !is_ws(trim_start(s)[0]),
        comma_free(s) ==> comma_free(trim_start(s)),
        trim_start(s).len() <= s.len(),
        trim_start(s).len() > 0 ==> trim_start(s).last() == s.last(),
    decreases s.len(),
{
    if s.len() > 0 && is_ws(s[0]) {
        let t = s.drop_first();
        lemma_trim_start_shape(t);
        if comma_free(s) {
            assert forall|j: int| 0 <= j < t.len() implies #[trigger] t[j] != ',' by {
                assert(t[j] == s[j + 1]);
            }
        }
    }
}

proof fn lemma_trim_end_shape(s: Seq<char>)
    ensures
        trim_end(s).len() > 0 ==> !is_ws(trim_end(s).last()),
        comma_free(s) ==> comma_free(trim_end(s)),
        trim_end(s).len() <= s.len(),
        trim_end(s).len() > 0 ==> trim_end(s)[0] == s[0],
    decreases s.len(),
{
    if s.len() > 0 && is_ws(s.last()) {
        let t = s.drop_last();
        lemma_trim_end_shape(t);
        if comma_free(s) {
            assert forall|j: int| 0 <= j < t.len() implies #[trigger] t[j] != ',' by {
                assert(t[j] == s[j]);
            }
        }
        if trim_end(t).len() > 0 {
            assert(t[0] == s[0]);
        }
    }
}

proof fn lemma_trim_shape(s: Seq<char>)
    requires
        comma_free(s),
    ensures
        trim(s).len() > 0 ==> entry_shaped(trim(s)),
{
    lemma_trim_start_shape(s);
    lemma_trim_end_shape(trim_start(s));
}

proof fn lemma_pieces_comma_free(s: Seq<char>, pos: int)
    ensures
        forall|i: int| 0 <= i < pieces_from(s, pos).len() ==> comma_free(#[trigger] pieces_from(s, pos)[i]),
    decreases s.len() - pos,
{
    if 0 <= pos <= s.len() {
        lemma_find_from_bounds(s, pos, ',');
        let i = find_from(s, pos, ',');
        let ps = pieces_from(s, pos);
        if i < s.len() {
            lemma_pieces_comma_free(s, i + 1);
            let head = s.subrange(pos, i);
            assert(comma_free(head)) by {
                assert forall|j: int| 0 <= j < head.len() implies #[trigger] head[j] != ',' by {
                    assert(head[j] == s[pos + j]);
                }
            }
            assert forall|k: int| 0 <= k < ps.len() implies comma_free(#[trigger] ps[k]) by {
                if k > 0 {
                    assert(ps[k] == pieces_from(s, i + 1)[k - 1]);
                }
            }
        } else {
            let head = s.subrange(pos, s.len() as int);
            assert(comma_free(head)) by {
                assert forall|j: int| 0 <= j < head.len() implies #[trigger] head[j] != ',' by {
                    assert(head[j] == s[pos + j]);
                }
            }
        }
    }
}

proof fn lemma_kept_shaped(ps: Seq<Seq<char>>)
    requires
        forall|i: int| 0 <= i < ps.len() ==> comma_free(#[trigger] ps[i]),
    ensures
        forall|i: int| 0 <= i < kept_items(ps).len() ==> entry_shaped(#[trigger] kept_items(ps)[i]),
    decreases ps.len(),
{
    if ps.len() > 0 {
        let rest = ps.drop_first();
        assert forall|i: int| 0 <= i < rest.len() implies comma_free(#[trigger] rest[i]) by {
            assert(rest[i] == ps[i + 1]);
        }
        lemma_kept_shaped(rest);
        assert(comma_free(ps[0]));
        lemma_trim_shape(ps[0]);
        let t = trim(ps[0]);
        let k = kept_items(ps);
        if t.len() > 0 {
            assert forall|i: int| 0 <= i < k.len() implies entry_shaped(#[trigger] k[i]) by {
                if i > 0 {
                    assert(k[i] == kept_items(rest)[i - 1]);
                }
            }
        }
    }
}

/// A list setting as read has the shape [`list_shaped`].
proof fn lemma_list_setting_shaped(v: Seq<char>)
    ensures
        list_shaped(list_setting(v)),
{
    lemma_pieces_comma_free(v, 0);
    let k = kept_items(pieces_from(v, 0));
    lemma_kept_shaped(pieces_from(v, 0));
    let r = at_most(k, MAX_LIST_ITEMS as nat);
    assert forall|i: int| 0 <= i < r.len() implies entry_shaped(#[trigger] r[i]) by {
        assert(r[i] == k[i]);
    }
}

proof fn lemma_lower_keeps_name(v: Seq<char>, max: nat)
    requires
        is_safe_name(v, max),
    ensures
        is_safe_name(lower(v), max),
{
    assert forall|i: int| 0 <= i < lower(v).len() implies is_name_char(#[trigger] lower(v)[i]) by {
        let c = v[i];
        assert(is_name_char(c));
        assert(lower(v)[i] == lower_char(c));
        if is_ascii_upper(c) {
            assert('A' <= c <= 'Z');
            assert(lower_char(c) == ((c as u32) + 32) as char);
            assert(65 <= c as u32 <= 90);
            assert('a' <= lower_char(c) <= 'z');
        }
    }
}

proof fn lemma_number_keeps(m: Settings, k: Key, v: Seq<char>)
    requires
        is_number(k),
        sane(m),
    ensures
        sane(with_number(m, k, number_setting(v, number_of(m, k), number_range(k).0, number_range(k).1))),
{
}

proof fn lemma_list_keeps(m: Settings, k: Key, v: Seq<char>)
    requires
        is_list(k),
        sane(m),
    ensures
        sane(with_list(m, k, list_setting(v))),
{
    lemma_list_setting_shaped(v);
}

proof fn lemma_apply_key_sane(m: Settings, k: Key, v: Seq<char>)
    requires
        sane(m),
    ensures
        sane(apply_key(m, k, v)),
{
    if is_flag(k) {
        assert(sane(with_flag(m, k, parse_bool_spec(v, flag_of(m, k)))));
    } else if is_number(k) {
        lemma_number_keeps(m, k, v);
    } else if is_list(k) {
        lemma_list_keeps(m, k, v);
    } else if k == Key::Language {
        if valid_code(v) {
            lemma_lower_keeps_name(v, 32);
        }
    }
}

proof fn lemma_apply_lines_sane(m: Settings, ls: Seq<Seq<char>>)
    requires
        sane(m),
    ensures
        sane(apply_lines(m, ls)),
    decreases ls.len(),
{
    if ls.len() > 0 {
        let m1 = apply_line(m, ls[0]);
        assert(sane(m1)) by {
            reveal_with_fuel(apply_line, 1);
            let l = crate::text::trim(ls[0]);
            if !(l.len() == 0 || l[0] == ';' || l[0] == '#' || l[0] == '[') {
                let i = crate::text::find_from(l, 0, '=');
                if i < l.len() {
                    let key = lower(crate::text::trim(l.subrange(0, i)));
                    let v = crate::text::trim(l.subrange(i + 1, l.len() as int));
                    if let Some(k) = crate::config::key_of(key) {
                        lemma_apply_key_sane(m, k, v);
                    }
                }
            }
        }
        lemma_apply_lines_sane(m1, ls.drop_first());
    }
}

/// Whatever text the settings file holds, the settings read from it are sane:
/// the language code and theme name cannot name another directory, every
/// number and the colour stay in their ranges, and each list holds at most
/// [`MAX_LIST_ITEMS`] trimmed, non-empty entries without commas.
pub proof fn lemma_parsed_settings_sane(text: Seq<char>)
    ensures
        sane(parse_ini_spec(text)),
{
    reveal_strlit("en");
    assert(sane(default_settings()));
    lemma_apply_lines_sane(default_settings(), crate::text::lines(crate::text::strip_leading(text, crate::config::bom())));
}

} // verus!
