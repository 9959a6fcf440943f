//! Which sound files are played: the path configured for the arrival sound
//! is the one path of the settings that may point anywhere, so it is checked
//! before the file is touched.
use vstd::prelude::*;
use crate::dialog::{base_name, last_separator};
use crate::text::{chars_eq_ignore_case, chars_of, copy_range, eq_ignore_case, string_of, trim, trim_bounds};

verus! {

/// Sound files above this size are not played.
pub const MAX_WAV_BYTES: u64 = 16 * 1024 * 1024;

/// The position of the last `.` in `s`, or -1.
pub open spec fn last_dot(s: Seq<char>) -> int
    decreases s.len(),
{
    if s.len() == 0 {
        -1
    } else if s.last() == '.' {
        s.len() - 1
    } else {
        last_dot(s.drop_last())
    }
}

/// The extension of a path's file name (`Path::extension`): what follows the
/// last `.` of the file name, when that `.` is not its first character.
pub open spec fn extension(path: Seq<char>) -> Option<Seq<char>> {
    let name = base_name(path);
    let d = last_dot(name);
    if d > 0 {
        Some(name.subrange(d + 1, name.len() as int))
    } else {
        None
    }
}

/// A network path (`\\host\share` or `//host/share`).
pub open spec fn is_unc(path: Seq<char>) -> bool {
    path.len() >= 2 && ((path[0] == '\\' && path[1] == '\\') || (path[0] == '/' && path[1] == '/'))
}

/// Why a path is not played before looking at the file, if it is not:
/// network paths are refused (playing one would connect to the host), and so
/// are names not ending in `.wav` (in any case).
pub open spec fn path_refusal_of(path: Seq<char>) -> Option<Seq<char>> {
    if is_unc(path) {
        Some("UNC パスは再生できません"@)
    } else if !(extension(path) matches Some(e) && eq_ignore_case(e, "wav"@)) {
        Some("拡張子が .wav ではありません"@)
    } else {
        None
    }
}

proof fn lemma_last_dot(s: Seq<char>)
    ensures
        -1 <= last_dot(s) < s.len(),
    decreases s.len(),
{
    if s.len() > 0 {
        lemma_last_dot(s.drop_last());
    }
}

/// One past the position of the last `.` in `s` (0 when there is none).
fn after_last_dot(s: &[char]) -> (i: usize)
    ensures
        i as int == last_dot(s@) + 1,
{
    let mut i: usize = s.len();
    assert(s@.take(i as int) =~= s@);
    while i > 0 && s[i - 1] != '.'
        invariant
            i <= s@.len(),
            last_dot(s@) == last_dot(s@.take(i as int)),
        decreases i,
    {
        assert(s@.take(i as int).drop_last() =~= s@.take(i - 1));
        i = i - 1;
    }
    proof {
        if i > 0 {
            assert(last_dot(s@.take(i as int)) == i - 1);
        } else {
            assert(s@.take(0) =~= Seq::<char>::empty());
        }
    }
    i
}

/// Why the path is not played, before looking at the file (see
/// [`path_refusal_of`]); `None` when it may be looked at.
pub fn path_refusal(path: &str) -> (r: Option<&'static str>)
    ensures
        r matches Some(m) ==> path_refusal_of(path@) == Some(m@),
        r is None <==> path_refusal_of(path@) is None,
{
    let cs = chars_of(path);
    if cs.len() >= 2 && ((cs[0] == '\\' && cs[1] == '\\') || (cs[0] == '/' && cs[1] == '/')) {
        return Some("UNC パスは再生できません");
    }
    let mut i: usize = cs.len();
    assert(cs@.take(i as int) =~= cs@);
    while i > 0 && cs[i - 1] != '\\' && cs[i - 1] != '/'
        invariant
            i <= cs@.len(),
            last_separator(cs@) == last_separator(cs@.take(i as int)),
        decreases i,
    {
        assert(cs@.take(i as int).drop_last() =~= cs@.take(i - 1));
        i = i - 1;
    }
    proof {
        if i > 0 {
            assert(last_separator(cs@.take(i as int)) == i - 1);
        } else {
            assert(cs@.take(0) =~= Seq::<char>::empty());
        }
    }
    let name = copy_range(&cs, i, cs.len());
    let d = after_last_dot(&name);
    proof { lemma_last_dot(name@); }
    if d > 1 {
        let ext = copy_range(&name, d, name.len());
        let wav = chars_of("wav");
        if chars_eq_ignore_case(&ext, &wav) {
            return None;
        }
    }
    Some("拡張子が .wav ではありません")
}

/// Why an existing path is not played, from what the file system says of it:
/// it must be a regular file of at most [`MAX_WAV_BYTES`] bytes; `exists` is
/// whether it could be looked at at all.
pub open spec fn file_refusal_of(exists: bool, is_file: bool, len: u64) -> Option<Seq<char>> {
    if !exists {
        Some("ファイルが見つかりません"@)
    } else if !is_file {
        Some("通常のファイルではありません"@)
    } else if len > MAX_WAV_BYTES {
        Some("ファイルが大きすぎます"@)
    } else {
        None
    }
}

/// Why the file is not played (see [`file_refusal_of`]).
pub fn file_refusal(exists: bool, is_file: bool, len: u64) -> (r: Option<&'static str>)
    ensures
        r matches Some(m) ==> file_refusal_of(exists, is_file, len) == Some(m@),
        r is None <==> file_refusal_of(exists, is_file, len) is None,
{
    if !exists {
        Some("ファイルが見つかりません")
    } else if !is_file {
        Some("通常のファイルではありません")
    } else if len > MAX_WAV_BYTES {
        Some("ファイルが大きすぎます")
    } else {
        None
    }
}

/// The path to play: the configured one without surrounding whitespace, or
/// `None` when nothing is left.
pub fn wav_target(path: &str) -> (r: Option<String>)
    ensures
        r matches Some(p) ==> p@ == trim(path@) && p@.len() > 0,
        r is None <==> trim(path@).len() == 0,
{
    let cs = chars_of(path);
    let (a, b) = trim_bounds(&cs, 0, cs.len());
    assert(cs@.subrange(0, cs@.len() as int) =~= cs@);
    if a == b {
        return None;
    }
    Some(string_of(&copy_range(&cs, a, b)))
}

} // verus!
