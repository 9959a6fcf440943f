//! Unsigned integers as text: parsing the way `str::parse::<u32>` and
//! `u32::from_str_radix(.., 16)` do, and the decimal / upper-case hex forms
//! that `to_string` and `format!("{:X}")` produce.
use vstd::prelude::*;

verus! {

pub open spec fn is_dec_digit(c: char) -> bool {
    '0' <= c && c <= '9'
}

pub open spec fn is_hex_digit(c: char) -> bool {
    ('0' <= c && c <= '9') || ('a' <= c && c <= 'f') || ('A' <= c && c <= 'F')
}

/// Value of one digit in base 10 or 16.
pub open spec fn digit_value(c: char) -> nat {
    if '0' <= c && c <= '9' {
        (c as u32 - '0' as u32) as nat
    } else if 'a' <= c && c <= 'f' {
        (c as u32 - 'a' as u32 + 10) as nat
    } else if 'A' <= c && c <= 'F' {
        (c as u32 - 'A' as u32 + 10) as nat
    } else {
        0
    }
}

pub open spec fn is_digit_in(c: char, radix: nat) -> bool {
    if radix == 10 {
        is_dec_digit(c)
    } else {
        is_hex_digit(c)
    }
}

pub open spec fn all_digits(s: Seq<char>, radix: nat) -> bool {
    forall|i: int| 0 <= i < s.len() ==> is_digit_in(#[trigger] s[i], radix)
}

/// The number that a string of digits denotes in the given base.
pub open spec fn value_of(s: Seq<char>, radix: nat) -> nat
    decreases s.len(),
{
    if s.len() == 0 {
        0
    } else {
        value_of(s.drop_last(), radix) * radix + digit_value(s.last())
    }
}

/// The digits after an optional `'+'`, which the standard parsers accept for
/// unsigned types; a lone `"+"` keeps its sign and so fails.
pub open spec fn unsigned_digits(s: Seq<char>) -> Seq<char> {
    if s.len() > 1 && s[0] == '+' {
        s.drop_first()
    } else {
        s
    }
}

/// `u32::from_str_radix(s, radix)` for radix 10 (also `str::parse::<u32>`) and 16.
pub open spec fn parse_u32_spec(s: Seq<char>, radix: nat) -> Option<u32> {
    let d = unsigned_digits(s);
    if d.len() > 0 && all_digits(d, radix) && value_of(d, radix) <= u32::MAX {
        Some(value_of(d, radix) as u32)
    } else {
        None
    }
}

pub proof fn lemma_value_prefix_monotone(s: Seq<char>, radix: nat, i: int)
    requires
        0 <= i <= s.len(),
        radix >= 1,
    ensures
        value_of(s.take(i), radix) <= value_of(s, radix),
    decreases s.len() - i,
{
    if i < s.len() {
        lemma_value_prefix_monotone(s, radix, i + 1);
        assert(s.take(i + 1).drop_last() =~= s.take(i));
        let v = value_of(s.take(i), radix);
        assert(v * radix >= v) by (nonlinear_arith)
            requires
                radix >= 1,
        ;
    } else {
        assert(s.take(i) =~= s);
    }
}

fn digit_of(c: char, radix: u32) -> (r: Option<u32>)
    requires
        radix == 10 || radix == 16,
    ensures
        r is Some <==> is_digit_in(c, radix as nat),
        r is Some ==> r->0 == digit_value(c) && r->0 < radix,
{
    if '0' <= c && c <= '9' {
        Some(c as u32 - '0' as u32)
    } else if radix == 16 && 'a' <= c && c <= 'f' {
        Some(c as u32 - 'a' as u32 + 10)
    } else if radix == 16 && 'A' <= c && c <= 'F' {
        Some(c as u32 - 'A' as u32 + 10)
    } else {
        None
    }
}

/// `u32::from_str_radix(s, radix)` for radix 10 (also `str::parse::<u32>`) and 16.
pub fn parse_u32(s: &[char], radix: u32) -> (r: Option<u32>)
    requires
        radix == 10 || radix == 16,
    ensures
        r == parse_u32_spec(s@, radix as nat),
{
    let ghost d = unsigned_digits(s@);
    let start: usize = if s.len() > 1 && s[0] == '+' {
        1
    } else {
        0
    };
    assert(d =~= s@.subrange(start as int, s@.len() as int));
    if start >= s.len() {
        return None;
    }
    let mut acc: u32 = 0;
    let mut i = start;
    while i < s.len()
        invariant
            start <= i <= s@.len(),
            radix == 10 || radix == 16,
            d =~= s@.subrange(start as int, s@.len() as int),
            d == unsigned_digits(s@),
            all_digits(d.take(i - start), radix as nat),
            acc as nat == value_of(d.take(i - start), radix as nat),
        decreases s@.len() - i,
    {
        let k = i - start;
        assert(d.take(k + 1).drop_last() =~= d.take(k as int));
        assert(d[k as int] == s@[i as int]);
        match digit_of(s[i], radix) {
            None => {
                assert(!is_digit_in(d[k as int], radix as nat));
                assert(!all_digits(d, radix as nat));
                assert(parse_u32_spec(s@, radix as nat) is None);
                return None;
            },
            Some(dv) => {
                let lim = (u32::MAX - dv) / radix;
                if acc > lim {
                    proof {
                        assert(acc * radix + dv > u32::MAX) by (nonlinear_arith)
                            requires
                                acc > lim,
                                lim == (0xffff_ffffint - dv) / (radix as int),
                                radix == 10 || radix == 16,
                                dv < radix,
                        ;
                        lemma_value_prefix_monotone(d, radix as nat, k + 1);
                        assert(value_of(d.take(k + 1), radix as nat) == acc * radix + dv);
                        assert(parse_u32_spec(s@, radix as nat) is None);
                    }
                    return None;
                }
                assert(acc * radix + dv <= u32::MAX) by (nonlinear_arith)
                    requires
                        acc <= lim,
                        lim == (0xffff_ffffint - dv) / (radix as int),
                        radix == 10 || radix == 16,
                        dv < radix,
                ;
                acc = acc * radix + dv;
            },
        }
        i = i + 1;
        assert(all_digits(d.take(i - start), radix as nat)) by {
            assert forall|j: int| 0 <= j < i - start implies is_digit_in(
                #[trigger] d.take(i - start)[j],
                radix as nat,
            ) by {
                if j < k {
                    assert(d.take(i - start)[j] == d.take(k as int)[j]);
                }
            }
        }
    }
    assert(d.take(s@.len() - start) =~= d);
    Some(acc)
}

// ---------------------------------------------------------------------------
// Formatting
// ---------------------------------------------------------------------------

/// The character of a digit value below 16; letters are upper case.
pub open spec fn digit_char(d: nat) -> char {
    if d == 0 { '0' } else if d == 1 { '1' } else if d == 2 { '2' } else if d == 3 { '3' }
    else if d == 4 { '4' } else if d == 5 { '5' } else if d == 6 { '6' } else if d == 7 { '7' }
    else if d == 8 { '8' } else if d == 9 { '9' } else if d == 10 { 'A' } else if d == 11 { 'B' }
    else if d == 12 { 'C' } else if d == 13 { 'D' } else if d == 14 { 'E' } else { 'F' }
}

/// The shortest digits of `n` in the given base (`"0"` for zero).
pub open spec fn digits_of(n: nat, radix: nat) -> Seq<char>
    decreases n,
{
    if radix < 2 || n < radix {
        seq![digit_char(n % 16)]
    } else {
        proof {
            assert(n / radix < n) by (nonlinear_arith)
                requires
                    radix >= 2,
                    n >= radix,
            ;
        }
        digits_of(n / radix, radix).push(digit_char(n % radix))
    }
}

/// `n.to_string()` for an unsigned number.
pub open spec fn decimal(n: nat) -> Seq<char> {
    digits_of(n, 10)
}

/// `format!("{:0w$X}", n)`: upper-case hex, zero-padded to at least `w` digits.
pub open spec fn hex_padded(n: nat, w: nat) -> Seq<char> {
    let d = digits_of(n, 16);
    if d.len() < w {
        Seq::new((w - d.len()) as nat, |i: int| '0') + d
    } else {
        d
    }
}

fn digit_char_of(d: u32) -> (c: char)
    requires
        d < 16,
    ensures
        c == digit_char(d as nat),
{
    if d == 0 { '0' } else if d == 1 { '1' } else if d == 2 { '2' } else if d == 3 { '3' }
    else if d == 4 { '4' } else if d == 5 { '5' } else if d == 6 { '6' } else if d == 7 { '7' }
    else if d == 8 { '8' } else if d == 9 { '9' } else if d == 10 { 'A' } else if d == 11 { 'B' }
    else if d == 12 { 'C' } else if d == 13 { 'D' } else if d == 14 { 'E' } else { 'F' }
}

/// Appends the digits of `n` in the given base.
pub fn push_digits(out: &mut Vec<char>, n: u32, radix: u32)
    requires
        radix == 10 || radix == 16,
    ensures
        final(out)@ == old(out)@ + digits_of(n as nat, radix as nat),
    decreases n,
{
    if n >= radix {
        push_digits(out, n / radix, radix);
    }
    out.push(digit_char_of(n % radix));
    proof {
        if n < radix {
            assert(n % 16 == n % radix);
        }
    }
}

/// Appends `n` in upper-case hex, zero-padded to at least `w` digits.
pub fn push_hex_padded(out: &mut Vec<char>, n: u32, w: usize)
    ensures
        final(out)@ == old(out)@ + hex_padded(n as nat, w as nat),
{
    let mut digits: Vec<char> = Vec::new();
    push_digits(&mut digits, n, 16);
    assert(digits@ =~= digits_of(n as nat, 16));
    let ghost before = out@;
    if digits.len() < w {
        let pad = w - digits.len();
        let mut i: usize = 0;
        while i < pad
            invariant
                i <= pad,
                out@ =~= before + Seq::new(i as nat, |j: int| '0'),
            decreases pad - i,
        {
            out.push('0');
            i = i + 1;
        }
    }
    crate::text::append_chars(out, &digits);
    assert(out@ =~= before + hex_padded(n as nat, w as nat));
}

/// `format!("{:0w$}", n)`: decimal, zero-padded to at least `w` digits.
pub open spec fn dec_padded(n: nat, w: nat) -> Seq<char> {
    let d = digits_of(n, 10);
    if d.len() < w {
        Seq::new((w - d.len()) as nat, |i: int| '0') + d
    } else {
        d
    }
}

/// Appends `n` in decimal, zero-padded to at least `w` digits.
pub fn push_dec_padded(out: &mut Vec<char>, n: u32, w: usize)
    ensures
        final(out)@ == old(out)@ + dec_padded(n as nat, w as nat),
{
    let mut digits: Vec<char> = Vec::new();
    push_digits(&mut digits, n, 10);
    assert(digits@ =~= digits_of(n as nat, 10));
    let ghost before = out@;
    if digits.len() < w {
        let pad = w - digits.len();
        let mut i: usize = 0;
        while i < pad
            invariant
                i <= pad,
                out@ =~= before + Seq::new(i as nat, |j: int| '0'),
            decreases pad - i,
        {
            out.push('0');
            i = i + 1;
        }
    }
    crate::text::append_chars(out, &digits);
    assert(out@ =~= before + dec_padded(n as nat, w as nat));
}

// ---------------------------------------------------------------------------
// Round trips
// ---------------------------------------------------------------------------

pub proof fn lemma_digit_char(d: nat, radix: nat)
    requires
        d < radix,
        radix == 10 || radix == 16,
    ensures
        is_digit_in(digit_char(d), radix),
        digit_value(digit_char(d)) == d,
        ('0' <= digit_char(d) && digit_char(d) <= '9') || ('A' <= digit_char(d) && digit_char(d)
            <= 'F'),
{
}

pub proof fn lemma_digits_of(n: nat, radix: nat)
    requires
        radix == 10 || radix == 16,
    ensures
        digits_of(n, radix).len() > 0,
        all_digits(digits_of(n, radix), radix),
        value_of(digits_of(n, radix), radix) == n,
        '0' <= digits_of(n, radix)[0] && digits_of(n, radix)[0] <= '9' || 'A' <= digits_of(
            n,
            radix,
        )[0] && digits_of(n, radix)[0] <= 'F',
        n < radix || digits_of(n, radix).len() > 1,
        digits_of(n, radix).len() == 1 ==> n < radix,
    decreases n,
{
    let d = digits_of(n, radix);
    lemma_digit_char(n % radix, radix);
    if n < radix {
        assert(n % 16 == n);
        assert(d.drop_last() =~= Seq::<char>::empty());
        assert(value_of(Seq::<char>::empty(), radix) == 0);
        assert(0 * radix == 0);
    } else {
        lemma_digits_of(n / radix, radix);
        let p = digits_of(n / radix, radix);
        assert(d.drop_last() =~= p);
        assert(d[0] == p[0]);
        assert forall|i: int| 0 <= i < d.len() implies is_digit_in(#[trigger] d[i], radix) by {
            if i < p.len() {
                assert(d[i] == p[i]);
            }
        }
        assert(n == (n / radix) * radix + n % radix) by (nonlinear_arith)
            requires
                radix > 0,
        ;
    }
}

pub proof fn lemma_value_leading_zeros(z: nat, s: Seq<char>, radix: nat)
    ensures
        value_of(Seq::new(z, |i: int| '0') + s, radix) == value_of(s, radix),
    decreases s.len() + z,
{
    let zs = Seq::new(z, |i: int| '0');
    if s.len() > 0 {
        lemma_value_leading_zeros(z, s.drop_last(), radix);
        assert((zs + s).drop_last() =~= zs + s.drop_last());
        assert((zs + s).last() == s.last());
    } else if z > 0 {
        let zs1 = Seq::new((z - 1) as nat, |i: int| '0');
        lemma_value_leading_zeros((z - 1) as nat, s, radix);
        assert((zs + s).drop_last() =~= zs1 + s);
        assert(zs + s =~= zs);
        assert((zs + s).last() == '0');
        assert(digit_value('0') == 0);
        assert(value_of(zs1 + s, radix) == value_of(s, radix));
        assert(value_of(s, radix) == 0);
        let v = value_of(zs1 + s, radix);
        assert(v * radix == 0) by (nonlinear_arith)
            requires
                v == 0,
        ;
    } else {
        assert(zs + s =~= s);
    }
    if s.len() == 0 {
        assert(value_of(s, radix) == 0);
    }
}

/// What `to_string` writes, `str::parse::<u32>` reads back.
pub proof fn lemma_decimal_round_trip(n: u32)
    ensures
        parse_u32_spec(decimal(n as nat), 10) == Some(n),
        decimal(n as nat).len() > 0,
        forall|i: int|
            0 <= i < decimal(n as nat).len() ==> is_dec_digit(#[trigger] decimal(n as nat)[i]),
{
    lemma_digits_of(n as nat, 10);
    let d = decimal(n as nat);
    assert(unsigned_digits(d) == d);
}

/// What `format!("{:06X}")` writes, `from_str_radix(.., 16)` reads back.
pub proof fn lemma_hex_round_trip(n: u32, w: nat)
    ensures
        parse_u32_spec(hex_padded(n as nat, w), 16) == Some(n),
        hex_padded(n as nat, w).len() > 0,
        forall|i: int|
            0 <= i < hex_padded(n as nat, w).len() ==> is_hex_digit(
                #[trigger] hex_padded(n as nat, w)[i],
            ),
{
    lemma_digits_of(n as nat, 16);
    let d = digits_of(n as nat, 16);
    let h = hex_padded(n as nat, w);
    if d.len() < w {
        let z = (w - d.len()) as nat;
        lemma_value_leading_zeros(z, d, 16);
        let zs = Seq::new(z, |i: int| '0');
        assert forall|i: int| 0 <= i < h.len() implies is_hex_digit(#[trigger] h[i]) by {
            if i < z {
                assert(h[i] == zs[i]);
            } else {
                assert(h[i] == d[i - z]);
            }
        }
    }
    assert(h[0] != '+');
    assert(unsigned_digits(h) == h);
}

} // verus!
