//! UTF-16 strings for the window system: encoding, decoding and fixed-size
//! buffers.
use vstd::prelude::*;
use crate::text::{append_str, chars_of, string_of};

verus! {

/// The UTF-16 code units of one character.
pub open spec fn units_of(c: char) -> Seq<u16> {
    let u = c as u32;
    if u < 0x10000 {
        seq![u as u16]
    } else {
        let v = (u - 0x10000) as int;
        seq![(0xD800 + v / 1024) as u16, (0xDC00 + v % 1024) as u16]
    }
}

/// The UTF-16 encoding of a string (`str::encode_utf16`).
pub open spec fn utf16(s: Seq<char>) -> Seq<u16>
    decreases s.len(),
{
    if s.len() == 0 {
        Seq::empty()
    } else {
        utf16(s.drop_last()) + units_of(s.last())
    }
}

/// The UTF-16 encoding of `s`.
pub fn encode_utf16(s: &str) -> (r: Vec<u16>)
    ensures
        r@ == utf16(s@),
{
    let cs = chars_of(s);
    let mut out: Vec<u16> = Vec::new();
    let mut i: usize = 0;
    while i < cs.len()
        invariant
            i <= cs@.len(),
            cs@ == s@,
            out@ == utf16(cs@.take(i as int)),
        decreases cs@.len() - i,
    {
        let c = cs[i];
        let u = c as u32;
        assert(cs@.take(i + 1).drop_last() =~= cs@.take(i as int));
        assert(cs@.take(i + 1).last() == c);
        if u < 0x10000 {
            out.push(u as u16);
        } else {
            proof { vstd::utf8::char_is_scalar(c); }
            assert(u <= 0x10FFFF);
            let v = u - 0x10000;
            out.push((0xD800 + v / 1024) as u16);
            out.push((0xDC00 + v % 1024) as u16);
        }
        assert(out@ =~= utf16(cs@.take(i + 1)));
        i = i + 1;
    }
    assert(cs@.take(cs@.len() as int) =~= cs@);
    out
}

/// A string as a NUL-terminated UTF-16 buffer.
pub fn wide(s: &str) -> (r: Vec<u16>)
    ensures
        r@ == utf16(s@).push(0),
{
    let mut v = encode_utf16(s);
    v.push(0);
    v
}

/// What `String::from_utf16_lossy` makes of a slice of UTF-16 units.
pub uninterp spec fn utf16_lossy(units: Seq<u16>) -> Seq<char>;

/// Decodes UTF-16 (`String::from_utf16_lossy`): invalid units become
/// U+FFFD. The contract names the result, and states of it that units which
/// are all below the surrogate range decode one character per unit, and that
/// valid UTF-16 (the encoding of some string) decodes to that string. What
/// becomes of lone surrogates is left unsaid.
#[verifier::external_body]
fn decode_utf16_lossy(units: &[u16]) -> (s: String)
    ensures
        s@ == utf16_lossy(units@),
        (forall|i: int| 0 <= i < units@.len() ==> units@[i] < 0xD800) ==> s@.len() == units@.len()
            && forall|i: int| 0 <= i < units@.len() ==> s@[i] == units@[i] as char,
        forall|t: Seq<char>| #[trigger] utf16(t) == units@ ==> s@ == t,
{
    String::from_utf16_lossy(units)
}

/// The position of the first NUL in `buf`, or its length.
pub open spec fn nul_position(buf: Seq<u16>) -> int
    decreases buf.len(),
{
    if buf.len() == 0 {
        0
    } else if buf[0] == 0 {
        0
    } else {
        1 + nul_position(buf.drop_first())
    }
}

/// A UTF-16 buffer, up to its first NUL if any, as a string. Units below the
/// surrogate range become one character each, and the encoding of a string
/// gives that string back (see [`lemma_wide_read_back`]).
pub fn from_wide(buf: &[u16]) -> (s: String)
    ensures
        s@ == utf16_lossy(buf@.take(nul_position(buf@))),
        (forall|i: int| 0 <= i < nul_position(buf@) ==> buf@[i] < 0xD800) ==> s@.len() == nul_position(buf@)
            && forall|i: int| 0 <= i < nul_position(buf@) ==> s@[i] == buf@[i] as char,
        forall|t: Seq<char>| #[trigger] utf16(t) == buf@.take(nul_position(buf@)) ==> s@ == t,
{
    let mut len: usize = 0;
    assert(buf@.subrange(0, buf@.len() as int) =~= buf@);
    while len < buf.len() && buf[len] != 0
        invariant
            len <= buf@.len(),
            forall|j: int| 0 <= j < len ==> buf@[j] != 0,
            nul_position(buf@) == len + nul_position(buf@.subrange(len as int, buf@.len() as int)),
        decreases buf@.len() - len,
    {
        let ghost rest = buf@.subrange(len as int, buf@.len() as int);
        assert(rest.drop_first() =~= buf@.subrange(len + 1, buf@.len() as int));
        len = len + 1;
    }
    proof {
        let rest = buf@.subrange(len as int, buf@.len() as int);
        assert(nul_position(rest) == 0);
    }
    let mut part: Vec<u16> = Vec::new();
    let mut i: usize = 0;
    while i < len
        invariant
            i <= len <= buf@.len(),
            part@ == buf@.take(i as int),
        decreases len - i,
    {
        part.push(buf[i]);
        assert(buf@.take(i + 1) =~= buf@.take(i as int).push(buf@[i as int]));
        i = i + 1;
    }
    proof {
        assert(buf@.subrange(0, buf@.len() as int) =~= buf@);
    }
    decode_utf16_lossy(part.as_slice())
}

proof fn lemma_units_nonzero(s: Seq<char>)
    requires
        !s.contains('\0'),
    ensures
        forall|k: int| 0 <= k < utf16(s).len() ==> #[trigger] utf16(s)[k] != 0,
    decreases s.len(),
{
    if s.len() > 0 {
        let init = s.drop_last();
        let c = s.last();
        assert forall|j: int| 0 <= j < init.len() implies init[j] != '\0' by {
            assert(init[j] == s[j]);
        }
        lemma_units_nonzero(init);
        assert(c == s[s.len() - 1]);
        assert(c != '\0');
        vstd::utf8::char_is_scalar(c);
        let u = c as u32;
        vstd::utf8::char_u32_cast(c, u);
        vstd::utf8::char_u32_cast('\0', 0u32);
        assert(u != 0);
        let tail = units_of(c);
        assert forall|k: int| 0 <= k < tail.len() implies #[trigger] tail[k] != 0 by {
            if u < 0x10000 {
                assert(tail[k] == u as u16);
            } else {
                let v = (u - 0x10000) as int;
                assert(0 <= v < 0x100000);
            }
        }
        let w = utf16(s);
        assert(w == utf16(init) + tail);
        assert forall|k: int| 0 <= k < w.len() implies #[trigger] w[k] != 0 by {
            if k < utf16(init).len() {
                assert(w[k] == utf16(init)[k]);
            } else {
                assert(w[k] == tail[k - utf16(init).len()]);
            }
        }
    }
}

proof fn lemma_nul_position_push(u: Seq<u16>)
    requires
        forall|k: int| 0 <= k < u.len() ==> #[trigger] u[k] != 0,
    ensures
        nul_position(u.push(0)) == u.len(),
    decreases u.len(),
{
    if u.len() > 0 {
        let rest = u.drop_first();
        assert forall|k: int| 0 <= k < rest.len() implies #[trigger] rest[k] != 0 by {
            assert(rest[k] == u[k + 1]);
        }
        lemma_nul_position_push(rest);
        assert(u.push(0).drop_first() =~= rest.push(0));
        assert(u.push(0)[0] == u[0]);
    } else {
        assert(u.push(0)[0] == 0);
    }
}

/// The buffer that [`wide`] makes from a string without NUL holds that
/// string's encoding before its first NUL, so [`from_wide`] reads the string
/// back.
pub proof fn lemma_wide_read_back(s: Seq<char>)
    requires
        !s.contains('\0'),
    ensures
        utf16(s).push(0).take(nul_position(utf16(s).push(0))) == utf16(s),
{
    lemma_units_nonzero(s);
    lemma_nul_position_push(utf16(s));
    assert(utf16(s).push(0).take(utf16(s).len() as int) =~= utf16(s));
}

/// How many units of `w` fit in a buffer of `cap` units with room for the
/// closing NUL, one fewer when that would split a surrogate pair.
pub open spec fn fitting(w: Seq<u16>, cap: int) -> int {
    let n = if w.len() < cap - 1 { w.len() as int } else { cap - 1 };
    if n > 0 && 0xD800 <= w[n - 1] <= 0xDBFF { n - 1 } else { n }
}

/// Writes `src` into the fixed-size buffer `dst` as NUL-terminated UTF-16,
/// cut to fit without splitting a surrogate pair. An empty buffer is left alone.
pub fn fill_wide(dst: &mut [u16], src: &str)
    ensures
        final(dst)@.len() == old(dst)@.len(),
        old(dst)@.len() > 0 ==> ({
            let w = utf16(src@);
            let n = fitting(w, old(dst)@.len() as int);
            &&& final(dst)@.take(n) == w.take(n)
            &&& final(dst)@[n] == 0
            &&& forall|j: int| n < j < old(dst)@.len() ==> final(dst)@[j] == old(dst)@[j]
        }),
        old(dst)@.len() == 0 ==> final(dst)@ == old(dst)@,
{
    if dst.len() == 0 {
        return;
    }
    let w = encode_utf16(src);
    let cap = dst.len();
    let mut n = if w.len() < cap - 1 { w.len() } else { cap - 1 };
    if n > 0 && 0xD800 <= w[n - 1] && w[n - 1] <= 0xDBFF {
        n = n - 1;
    }
    let ghost before = dst@;
    let mut i: usize = 0;
    while i < n
        invariant
            i <= n < cap,
            cap == dst@.len(),
            n <= w@.len(),
            before.len() == cap,
            forall|j: int| 0 <= j < i ==> dst@[j] == w@[j],
            forall|j: int| i <= j < cap ==> dst@[j] == before[j],
        decreases n - i,
    {
        dst[i] = w[i];
        i = i + 1;
    }
    dst[n] = 0;
    assert(dst@.take(n as int) =~= w@.take(n as int));
}

/// `%SystemRoot%\System32\<name>` from the system directory `system_dir`;
/// just `name` when the directory could not be found out.
pub fn system32_path(system_dir: Option<String>, name: &str) -> (r: String)
    ensures
        r@ == (match system_dir {
            Some(d) => d@ + "\\"@ + name@,
            None => name@,
        }),
{
    match system_dir {
        None => string_of(&chars_of(name)),
        Some(d) => {
            let mut out = chars_of(d.as_str());
            append_str(&mut out, "\\");
            append_str(&mut out, name);
            string_of(&out)
        },
    }
}

} // verus!
