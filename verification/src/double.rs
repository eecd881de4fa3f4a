//! Conversion of integers to IEEE-754 binary64 bit patterns, in integer
//! arithmetic: the nearest representable number, ties going to the even
//! fraction.

use vstd::prelude::*;

verus! {

/// The low 52 bits of a binary64 pattern: the fraction.
pub const FRACTION_MASK: u64 = 0x000f_ffff_ffff_ffff;

/// The top bit of a binary64 pattern: the sign.
pub const SIGN_BIT: u64 = 0x8000_0000_0000_0000;

/// Position of the highest set bit of `n` (0 for `n <= 1`).
pub open spec fn floor_log2(n: u64) -> nat
    decreases n,
{
    if n <= 1 {
        0
    } else {
        1 + floor_log2(n / 2)
    }
}

/// The pattern with biased exponent `e + 1023`, fraction `fraction` and
/// `carry` added in the last place (a carry out of the fraction moves into
/// the exponent, as rounding up to the next power of two requires).
pub open spec fn assemble(e: u64, fraction: u64, carry: u64) -> u64 {
    ((((e + 1023) as u64) << 52) + fraction + carry) as u64
}

/// 1 where a quotient `q` with remainder `r` out of `2 * half` rounds up
/// (nearest, ties to even), else 0.
pub open spec fn round_up(q: u64, r: u64, half: u64) -> u64 {
    if r > half || (r == half && q & 1 == 1) {
        1
    } else {
        0
    }
}

/// The binary64 bit pattern of the number nearest to `n`.
pub open spec fn double_bits_of_u64(n: u64) -> u64 {
    if n == 0 {
        0
    } else {
        let e = floor_log2(n) as u64;
        if e <= 52 {
            assemble(e, (n << ((52 - e) as u64)) & FRACTION_MASK, 0)
        } else {
            let s = (e - 52) as u64;
            let q = n >> s;
            let r = n & (((1u64 << s) - 1) as u64);
            assemble(e, q & FRACTION_MASK, round_up(q, r, 1u64 << ((s - 1) as u64)))
        }
    }
}

/// The magnitude of `i`.
pub open spec fn magnitude(i: i64) -> u64 {
    if i >= 0 {
        i as u64
    } else {
        (-(i as int)) as u64
    }
}

/// The binary64 bit pattern of the number nearest to `i`.
pub open spec fn double_bits_of_i64(i: i64) -> u64 {
    if i >= 0 {
        double_bits_of_u64(i as u64)
    } else {
        SIGN_BIT | double_bits_of_u64(magnitude(i))
    }
}

/// `floor_log2(n)` is the position of the highest set bit of `n`: shifting
/// `n` right by it leaves 1.
pub proof fn lemma_floor_log2_is_highest_bit(n: u64)
    requires
        n >= 1,
    ensures
        floor_log2(n) <= 63,
        n >> (floor_log2(n) as u64) == 1,
    decreases n,
{
    if n == 1 {
        assert(1u64 >> 0u64 == 1) by (bit_vector);
    } else {
        let half = n / 2;
        lemma_floor_log2_is_highest_bit(half);
        let e = floor_log2(half) as u64;
        assert(e < 63 && n >> ((e + 1) as u64) == 1) by (bit_vector)
            requires
                half == n / 2,
                e <= 63,
                half >> e == 1,
        ;
    }
}

/// An integer below 2^53 is converted without loss: the exponent field holds
/// the position of its highest bit, and the fraction, with the implicit
/// leading bit put back, holds the integer itself, moved up to that bit.
pub proof fn lemma_small_integers_convert_exactly(n: u64)
    requires
        1 <= n < 0x20_0000_0000_0000,
    ensures
        floor_log2(n) <= 52,
        double_bits_of_u64(n) >> 52 == floor_log2(n) + 1023,
        (double_bits_of_u64(n) & FRACTION_MASK) | 0x10_0000_0000_0000 == n << ((52 - floor_log2(n)) as u64),
        (n << ((52 - floor_log2(n)) as u64)) >> ((52 - floor_log2(n)) as u64) == n,
{
    lemma_floor_log2_is_highest_bit(n);
    let e = floor_log2(n) as u64;
    assert(e <= 52) by (bit_vector)
        requires
            e <= 63,
            n >> e == 1,
            n < 0x20_0000_0000_0000,
    ;
    let up = (52 - e) as u64;
    let fraction = (n << up) & FRACTION_MASK;
    let bits = assemble(e, fraction, 0);
    assert(bits == double_bits_of_u64(n));
    let high = ((e + 1023) as u64) << 52;
    assert(high <= 0x4330_0000_0000_0000 && fraction <= 0x000f_ffff_ffff_ffff) by (bit_vector)
        requires
            e <= 52,
            high == ((e + 1023) as u64) << 52,
            fraction == (n << up) & 0x000f_ffff_ffff_ffff,
    ;
    assert(bits == high + fraction);
    assert(bits >> 52 == e + 1023 && (bits & 0x000f_ffff_ffff_ffff) | 0x10_0000_0000_0000 == n << up
        && (n << up) >> up == n) by (bit_vector)
        requires
            e <= 52,
            up == 52 - e,
            n >> e == 1,
            high == ((e + 1023) as u64) << 52,
            fraction == (n << up) & 0x000f_ffff_ffff_ffff,
            bits == high + fraction,
    ;
}

/// Computes `floor_log2(n)`.
pub fn highest_bit(n: u64) -> (e: u64)
    ensures
        e == floor_log2(n),
        e <= 63,
{
    let mut e: u64 = 0;
    let mut m: u64 = n;
    assert(n >> 0u64 == n) by (bit_vector);
    while m > 1
        invariant
            e <= 63,
            m == n >> e,
            floor_log2(n) == e + floor_log2(m),
        decreases m,
    {
        assert(e < 63 && (n >> e) / 2 == n >> ((e + 1) as u64)) by (bit_vector)
            requires
                e <= 63,
                (n >> e) > 1,
        ;
        m = m / 2;
        e = e + 1;
    }
    e
}

/// Computes the binary64 bit pattern of the number nearest to `n`.
pub fn double_bits_from_u64(n: u64) -> (bits: u64)
    ensures
        bits == double_bits_of_u64(n),
{
    if n == 0 {
        return 0;
    }
    let e: u64 = highest_bit(n);
    let high: u64 = (e + 1023) << 52;
    assert(high <= 0x43e0_0000_0000_0000) by (bit_vector)
        requires
            e <= 63,
            high == ((e + 1023) as u64) << 52,
    ;
    if e <= 52 {
        let fraction: u64 = (n << (52 - e)) & FRACTION_MASK;
        assert(fraction <= 0x000f_ffff_ffff_ffff) by (bit_vector)
            requires
                fraction == (n << ((52 - e) as u64)) & 0x000f_ffff_ffff_ffff,
        ;
        high + fraction
    } else {
        let s: u64 = e - 52;
        let q: u64 = n >> s;
        assert((1u64 << s) >= 1) by (bit_vector)
            requires
                1 <= s <= 11,
        ;
        let r: u64 = n & ((1u64 << s) - 1);
        let half: u64 = 1u64 << (s - 1);
        let fraction: u64 = q & FRACTION_MASK;
        assert(fraction <= 0x000f_ffff_ffff_ffff) by (bit_vector)
            requires
                fraction == q & 0x000f_ffff_ffff_ffff,
        ;
        let carry: u64 = if r > half || (r == half && q & 1 == 1) {
            1
        } else {
            0
        };
        high + fraction + carry
    }
}

/// Computes the binary64 bit pattern of the number nearest to `i`.
pub fn double_bits_from_i64(i: i64) -> (bits: u64)
    ensures
        bits == double_bits_of_i64(i),
{
    if i >= 0 {
        double_bits_from_u64(i as u64)
    } else {
        let m: u64 = if i == i64::MIN {
            SIGN_BIT
        } else {
            (-i) as u64
        };
        SIGN_BIT | double_bits_from_u64(m)
    }
}

} // verus!
