//! Mixing loses nothing: different seeds give different results, so the names
//! made from different seeds differ.
use vstd::prelude::*;
use crate::autostart::{hex_digit, hex_tail, mix_round, mixed, MULTIPLIER, SALT};
use vstd::arithmetic::power::pow;

verus! {

/// The inverse of [`MULTIPLIER`] modulo 2^128.
const MULTIPLIER_INVERSE: u128 = 0x69fa_a84a_5c06_3020_f1de_83e1_9937_733d;

proof fn lemma_xorshift67_injective(x: u128, y: u128)
    requires
        x ^ (x >> 67u32) == y ^ (y >> 67u32),
    ensures
        x == y,
{
    assert(x ^ (x >> 67u32) == y ^ (y >> 67u32) ==> x == y) by (bit_vector);
}

proof fn lemma_xorshift41_injective(x: u128, y: u128)
    requires
        x ^ (x >> 41u32) == y ^ (y >> 41u32),
    ensures
        x == y,
{
    assert(x ^ (x >> 41u32) == y ^ (y >> 41u32) ==> x == y) by (bit_vector);
}

proof fn lemma_multiply_undone(x: u128)
    ensures
        ((x.wrapping_mul(MULTIPLIER) as int) * (MULTIPLIER_INVERSE as int)) % 0x1_0000_0000_0000_0000_0000_0000_0000_0000int == x,
{
    let r: int = 0x1_0000_0000_0000_0000_0000_0000_0000_0000int;
    let m = MULTIPLIER as int;
    let inv = MULTIPLIER_INVERSE as int;
    let k: int = 20510548774896104684087783699091761945int;
    assert(m * inv == 1 + k * r);
    assert(x.wrapping_mul(MULTIPLIER) as int == (x as int * m) % r);
    vstd::arithmetic::div_mod::lemma_mul_mod_noop_left(x as int * m, inv, r);
    assert((x as int * m) * inv == x as int * (m * inv)) by (nonlinear_arith);
    assert(x as int * (1 + k * r) == r * (x as int * k) + x as int) by (nonlinear_arith);
    vstd::arithmetic::div_mod::lemma_mod_multiples_vanish(x as int * k, x as int, r);
    vstd::arithmetic::div_mod::lemma_small_mod(x as nat, r as nat);
}

proof fn lemma_multiply_injective(x: u128, y: u128)
    requires
        x.wrapping_mul(MULTIPLIER) == y.wrapping_mul(MULTIPLIER),
    ensures
        x == y,
{
    lemma_multiply_undone(x);
    lemma_multiply_undone(y);
}

proof fn lemma_round_injective(x: u128, y: u128)
    requires
        mix_round(x) == mix_round(y),
    ensures
        x == y,
{
    let ax = x ^ (x >> 67u32);
    let ay = y ^ (y >> 67u32);
    let bx = ax.wrapping_mul(MULTIPLIER);
    let by = ay.wrapping_mul(MULTIPLIER);
    lemma_xorshift41_injective(bx, by);
    lemma_multiply_injective(ax, ay);
    lemma_xorshift67_injective(x, y);
}

/// [`crate::autostart::mix`] is injective: equal results come only from
/// equal seeds, so different seeds are mixed into different results.
pub proof fn lemma_mixed_injective(a: u128, b: u128)
    ensures
        mixed(a) == mixed(b) ==> a == b,
{
    if mixed(a) == mixed(b) {
        lemma_round_injective(mix_round(mix_round(a ^ SALT)), mix_round(mix_round(b ^ SALT)));
        lemma_round_injective(mix_round(a ^ SALT), mix_round(b ^ SALT));
        lemma_round_injective(a ^ SALT, b ^ SALT);
        assert(a ^ SALT == b ^ SALT ==> a == b) by (bit_vector);
    }
}

proof fn lemma_hex_tail_len(n: nat, c: nat)
    ensures
        hex_tail(n, c).len() == c,
    decreases c,
{
    if c > 0 {
        lemma_hex_tail_len(n / 16, (c - 1) as nat);
    }
}

proof fn lemma_hex_digit_injective(d1: nat, d2: nat)
    requires
        d1 < 16,
        d2 < 16,
        hex_digit(d1) == hex_digit(d2),
    ensures
        d1 == d2,
{
}

proof fn lemma_hex_tail_determines(n: nat, m: nat, c: nat)
    requires
        hex_tail(n, c) == hex_tail(m, c),
    ensures
        (n as int) % pow(16, c) == (m as int) % pow(16, c),
    decreases c,
{
    reveal_with_fuel(pow, 2);
    if c == 0 {
        assert(pow(16, 0) == 1);
    } else {
        let c1 = (c - 1) as nat;
        let a = hex_tail(n / 16, c1);
        let b = hex_tail(m / 16, c1);
        lemma_hex_tail_len(n / 16, c1);
        lemma_hex_tail_len(m / 16, c1);
        assert(hex_tail(n, c) == a.push(hex_digit(n % 16)));
        assert(hex_tail(m, c) == b.push(hex_digit(m % 16)));
        assert(hex_tail(n, c)[c1 as int] == hex_digit(n % 16));
        assert(hex_tail(m, c)[c1 as int] == hex_digit(m % 16));
        lemma_hex_digit_injective(n % 16, m % 16);
        assert(a =~= hex_tail(n, c).drop_last());
        assert(b =~= hex_tail(m, c).drop_last());
        lemma_hex_tail_determines(n / 16, m / 16, c1);
        vstd::arithmetic::power::lemma_pow_positive(16, c1);
        assert(pow(16, c) == 16 * pow(16, c1));
        vstd::arithmetic::div_mod::lemma_mod_breakdown(n as int, 16, pow(16, c1));
        vstd::arithmetic::div_mod::lemma_mod_breakdown(m as int, 16, pow(16, c1));
    }
}

/// Different seeds give different names for the temporary task definition
/// file.
pub proof fn lemma_suffixes_differ(a: u128, b: u128)
    requires
        a != b,
    ensures
        hex_tail(mixed(a) as nat, 32) != hex_tail(mixed(b) as nat, 32),
{
    lemma_mixed_injective(a, b);
    if hex_tail(mixed(a) as nat, 32) == hex_tail(mixed(b) as nat, 32) {
        lemma_hex_tail_determines(mixed(a) as nat, mixed(b) as nat, 32);
        assert(pow(16, 32) == 0x1_0000_0000_0000_0000_0000_0000_0000_0000int) by {
            reveal_with_fuel(pow, 33);
        }
        vstd::arithmetic::div_mod::lemma_small_mod(mixed(a) as nat, 0x1_0000_0000_0000_0000_0000_0000_0000_0000nat);
        vstd::arithmetic::div_mod::lemma_small_mod(mixed(b) as nat, 0x1_0000_0000_0000_0000_0000_0000_0000_0000nat);
    }
}

} // verus!
