//! Samples of a scalar field and the colour level each one is shown as.
//!
//! A sample is a single-precision float. The library holds it as its 32-bit
//! pattern and computes on the integers that the pattern encodes: a sign, an
//! exponent field and a fraction field. Magnitudes are counted in units of
//! `2^-149`, the smallest positive single-precision value, so that every
//! finite sample is an integer number of units.

use vstd::prelude::*;
use vstd::arithmetic::power2::{
    lemma2_to64, lemma2_to64_rest, lemma_pow2_adds, lemma_pow2_pos, lemma_pow2_strictly_increases,
    lemma_pow2_unfold, pow2,
};
use vstd::bits::lemma_u64_shl_is_mul;
use vstd::arithmetic::div_mod::{
    lemma_div_is_ordered, lemma_div_multiples_vanish, lemma_div_multiples_vanish_quotient,
    lemma_div_pos_is_pos, lemma_fundamental_div_mod, lemma_fundamental_div_mod_converse,
    lemma_truncate_middle,
};

verus! {

/// Level of a channel that no field feeds, and of every alpha value.
pub const FULL_LEVEL: u8 = 255;

/// Whether the sign bit of the pattern is set.
pub open spec fn sign_of(bits: u32) -> bool {
    bits >= 0x8000_0000
}

/// The eight-bit exponent field of the pattern.
pub open spec fn exponent_of(bits: u32) -> nat {
    ((bits / 0x80_0000) % 0x100) as nat
}

/// The 23-bit fraction field of the pattern.
pub open spec fn fraction_of(bits: u32) -> nat {
    (bits % 0x80_0000) as nat
}

/// The pattern encodes no number.
pub open spec fn is_nan(bits: u32) -> bool {
    exponent_of(bits) == 255 && fraction_of(bits) != 0
}

/// The pattern encodes plus or minus infinity.
pub open spec fn is_infinite(bits: u32) -> bool {
    exponent_of(bits) == 255 && fraction_of(bits) == 0
}

/// The pattern encodes a finite number.
pub open spec fn is_finite(bits: u32) -> bool {
    exponent_of(bits) < 255
}

/// The number one, in units of `2^-149`.
pub open spec fn unit_one() -> int {
    pow2(149) as int
}

/// Absolute value of a finite sample, in units of `2^-149`.
pub open spec fn magnitude(bits: u32) -> nat {
    if exponent_of(bits) == 0 {
        fraction_of(bits)
    } else {
        (0x80_0000 + fraction_of(bits)) * pow2((exponent_of(bits) - 1) as nat)
    }
}

/// Value of a finite sample, in units of `2^-149`.
pub open spec fn scaled_value(bits: u32) -> int {
    if sign_of(bits) {
        -(magnitude(bits) as int)
    } else {
        magnitude(bits) as int
    }
}

/// `v / unit` rounded to the nearest integer, a tie going to the even one.
pub open spec fn round_half_even(v: int, unit: int) -> int {
    let q = v / unit;
    let r = v % unit;
    if 2 * r < unit || (2 * r == unit && q % 2 == 0) {
        q
    } else {
        q + 1
    }
}

/// Spacing of the single-precision values around a positive `v`, in units of
/// `2^-149`: the power of two that leaves a 24-bit significand.
pub open spec fn spacing(v: int) -> int
    decreases v,
{
    if v < 0x100_0000 {
        1
    } else {
        2 * spacing(v / 2)
    }
}

/// The single-precision value nearest to a positive `v`, a tie going to the
/// even significand, in units of `2^-149`. Overflow is not modelled: a `v`
/// past the largest finite value is rounded like any other.
pub open spec fn nearest_single(v: int) -> int {
    round_half_even(v, spacing(v)) * spacing(v)
}

/// The colour level of a sample: `(s + 1) * 128` computed in single
/// precision, clamped to `0..=255` and truncated. A pattern that encodes no
/// number gets the full level.
pub open spec fn channel_level(bits: u32) -> int {
    if is_nan(bits) {
        255
    } else if is_infinite(bits) {
        if sign_of(bits) { 0 } else { 255 }
    } else {
        let sum = unit_one() + scaled_value(bits);
        if sum <= 0 {
            0
        } else {
            let scaled = (128 * nearest_single(sum)) / unit_one();
            if scaled > 255 { 255 } else { scaled }
        }
    }
}

/// The sample is a number not above minus one.
pub open spec fn at_most_minus_one(bits: u32) -> bool {
    sign_of(bits) && !is_nan(bits) && (is_infinite(bits) || magnitude(bits) >= unit_one())
}

/// The sample is a number not below one.
pub open spec fn at_least_one(bits: u32) -> bool {
    !sign_of(bits) && !is_nan(bits) && (is_infinite(bits) || magnitude(bits) >= unit_one())
}

/// The sample is zero, of either sign.
pub open spec fn is_zero(bits: u32) -> bool {
    exponent_of(bits) == 0 && fraction_of(bits) == 0
}

/// Where `v` has `24 + k` bits, the spacing around it is `2^k`.
proof fn lemma_spacing_bracket(v: int, k: nat)
    requires
        pow2(23 + k) <= v < pow2(24 + k),
    ensures
        spacing(v) == pow2(k),
    decreases k,
{
    lemma2_to64();
    if k == 0 {
    } else {
        lemma_pow2_unfold(24 + k);
        lemma_pow2_unfold(23 + k);
        lemma_pow2_unfold(k);
        if k > 1 {
            lemma_pow2_strictly_increases(24, 23 + k);
        }
        lemma_spacing_bracket(v / 2, (k - 1) as nat);
    }
}

/// Scaling the value and the unit alike leaves the rounded quotient as it is.
proof fn lemma_round_scaled(v: int, unit: int, c: int)
    requires
        0 <= v,
        0 < unit,
        0 < c,
    ensures
        0 < c * unit,
        round_half_even(c * v, c * unit) == round_half_even(v, unit),
{
    lemma_div_multiples_vanish_quotient(c, v, unit);
    lemma_truncate_middle(v, c, unit);
    let r = v % unit;
    assert((c * v) % (c * unit) == c * r);
    assert(2 * (c * r) == c * (2 * r)) by (nonlinear_arith);
    if 2 * r < unit {
        assert(c * (2 * r) < c * unit) by (nonlinear_arith)
            requires 2 * r < unit, 0 < c;
    } else if 2 * r == unit {
    } else {
        assert(c * (2 * r) > c * unit) by (nonlinear_arith)
            requires 2 * r > unit, 0 < c;
    }
}

/// A multiple of the unit rounds to itself.
proof fn lemma_round_exact(n: int, unit: int)
    requires
        0 < unit,
    ensures
        round_half_even(n * unit, unit) == n,
{
    lemma_fundamental_div_mod_converse(n * unit, unit, n, 0);
}

/// Number of bits by which a positive `v` is longer than 24.
pub open spec fn excess_bits(v: int) -> nat
    decreases v,
{
    if v < 0x100_0000 {
        0
    } else {
        1 + excess_bits(v / 2)
    }
}

/// The spacing is two to the number of excess bits, and a value of more than
/// 24 bits lies between the matching powers of two.
proof fn lemma_spacing_power(v: int)
    ensures
        spacing(v) == pow2(excess_bits(v)),
        v >= 0x100_0000 ==> pow2(23 + excess_bits(v)) <= v < pow2(24 + excess_bits(v)),
    decreases v,
{
    lemma2_to64();
    if v < 0x100_0000 {
    } else {
        lemma_spacing_power(v / 2);
        let k = excess_bits(v / 2);
        lemma_pow2_unfold(k + 1);
        lemma_pow2_unfold(24 + k);
        lemma_pow2_unfold(25 + k);
        if v / 2 < 0x100_0000 {
            assert(k == 0);
        }
    }
}

/// What a value between `2^(23+k)` and `2^(24+k)` rounds to, given its
/// quotient and remainder by `2^k`.
proof fn lemma_nearest_in_bracket(v: int, k: nat, q: int, r: int)
    requires
        pow2(23 + k) <= v < pow2(24 + k),
        v == q * pow2(k) + r,
        0 <= r < pow2(k),
    ensures
        nearest_single(v) == round_half_even(v, pow2(k) as int) * pow2(k),
        round_half_even(v, pow2(k) as int) == if 2 * r < pow2(k) || (2 * r == pow2(k) && q % 2
            == 0) {
            q
        } else {
            q + 1
        },
{
    lemma_spacing_bracket(v, k);
    lemma_pow2_pos(k);
    lemma_fundamental_div_mod_converse(v, pow2(k) as int, q, r);
}

/// A positive multiple of `2^k` shorter than `24 + k` bits is a
/// single-precision value.
proof fn lemma_nearest_exact(c: int, k: nat)
    requires
        0 < c < 0x100_0000,
    ensures
        nearest_single(c * pow2(k)) == c * pow2(k),
{
    let v = c * pow2(k);
    lemma_pow2_pos(k);
    lemma2_to64();
    lemma_spacing_power(v);
    let j = excess_bits(v);
    lemma_pow2_pos(j);
    assert(v > 0) by (nonlinear_arith)
        requires v == c * pow2(k), c > 0, pow2(k) > 0;
    if v < 0x100_0000 {
        assert(v == v * 1);
        lemma_round_exact(v, 1);
    } else {
        // v < 2^(24+k), so j <= k
        lemma_pow2_adds(24, k);
        assert(v < pow2(24 + k)) by (nonlinear_arith)
            requires v == c * pow2(k), c < 0x100_0000, pow2(k) > 0, pow2(24 + k) == 0x100_0000 * pow2(k);
        if j > k {
            if 23 + j > 24 + k {
                lemma_pow2_strictly_increases(24 + k, 23 + j);
            }
            assert(false);
        }
        let d = (k - j) as nat;
        lemma_pow2_adds(d, j);
        assert(v == (c * pow2(d)) * pow2(j)) by (nonlinear_arith)
            requires v == c * pow2(k), pow2(k) == pow2(d) * pow2(j);
        lemma_round_exact(c * pow2(d), pow2(j) as int);
    }
}

/// A value of at least two rounds to at least two.
proof fn lemma_nearest_at_least_two(v: int)
    requires
        v >= pow2(150),
    ensures
        nearest_single(v) >= pow2(150),
{
    lemma2_to64();
    lemma_pow2_strictly_increases(24, 150);
    lemma_spacing_power(v);
    let k = excess_bits(v);
    let u = pow2(k) as int;
    lemma_pow2_pos(k);
    if 24 + k <= 150 {
        if 24 + k < 150 {
            lemma_pow2_strictly_increases(24 + k, 150);
        }
        assert(false);
    }
    if 23 + k > 150 {
        lemma_pow2_strictly_increases(150, 23 + k);
    }
    lemma_pow2_adds(23, k);
    lemma_fundamental_div_mod(v, u);
    let q = v / u;
    assert(q >= 0x80_0000) by (nonlinear_arith)
        requires v == u * q + v % u, 0 <= v % u < u, v >= 0x80_0000 * u, u > 0;
    assert(round_half_even(v, u) >= q);
    assert(round_half_even(v, u) * u >= 0x80_0000 * u) by (nonlinear_arith)
        requires round_half_even(v, u) >= q, q >= 0x80_0000, u > 0;
}

/// The level that a rounded sum of `n` steps of `2^j` units stands for.
proof fn lemma_level_of_steps(n: int, j: nat, d: nat)
    requires
        0 <= n,
        j + 7 + d == 149,
    ensures
        (128 * (n * pow2(j))) / unit_one() == n / (pow2(d) as int),
{
    lemma2_to64();
    lemma_pow2_adds(7, j);
    lemma_pow2_adds(d, j + 7);
    lemma_pow2_pos(j + 7);
    lemma_pow2_pos(d);
    let w = pow2(j + 7) as int;
    assert(128 * (n * pow2(j)) == w * n) by (nonlinear_arith)
        requires w == 128 * pow2(j);
    assert(unit_one() == w * pow2(d)) by (nonlinear_arith)
        requires unit_one() == pow2(d) * w;
    lemma_div_multiples_vanish_quotient(w, n, pow2(d) as int);
}

/// Level of a finite sample that is not negative and below one, from its
/// magnitude `a` in units of `2^-50`.
proof fn lemma_level_above_one(bits: u32, a: int)
    requires
        is_finite(bits),
        !sign_of(bits),
        magnitude(bits) == a * pow2(99),
        0 <= a < 0x4_0000_0000_0000,
    ensures
        0x80_0000 <= round_half_even(0x4_0000_0000_0000 + a, 0x800_0000) <= 0x100_0000,
        channel_level(bits) == if round_half_even(0x4_0000_0000_0000 + a, 0x800_0000) / 0x1_0000
            > 255 {
            255
        } else {
            round_half_even(0x4_0000_0000_0000 + a, 0x800_0000) / 0x1_0000
        },
{
    lemma2_to64();
    lemma2_to64_rest();
    let p = pow2(99) as int;
    lemma_pow2_pos(99);
    lemma_pow2_adds(50, 99);
    lemma_pow2_adds(51, 99);
    lemma_pow2_adds(27, 99);
    let s: int = 0x4_0000_0000_0000 + a;
    let v = unit_one() + scaled_value(bits);
    assert(v == p * s) by (nonlinear_arith)
        requires v == 0x4_0000_0000_0000 * p + a * p, s == 0x4_0000_0000_0000 + a;
    assert(pow2(149) <= v < pow2(150)) by (nonlinear_arith)
        requires
            v == p * s,
            0x4_0000_0000_0000 <= s < 0x8_0000_0000_0000,
            pow2(149) == 0x4_0000_0000_0000 * p,
            pow2(150) == 0x8_0000_0000_0000 * p,
            p > 0;
    lemma_spacing_bracket(v, 126);
    assert(pow2(126) == p * 0x800_0000) by (nonlinear_arith)
        requires pow2(126) == 0x800_0000 * p;
    lemma_round_scaled(s, 0x800_0000, p);
    let n = round_half_even(s, 0x800_0000);
    assert(nearest_single(v) == n * pow2(126));
    lemma_level_of_steps(n, 126, 16);
}

/// Level of a finite negative sample above minus one, from its magnitude `a`
/// in units of `2^-50`.
proof fn lemma_level_below_one(bits: u32, a: int)
    requires
        is_finite(bits),
        sign_of(bits),
        magnitude(bits) == a * pow2(99),
        0 < a < 0x4_0000_0000_0000,
        a <= 0x2_0000_0000_0000 || a % 0x400_0000 == 0,
    ensures
        0 <= round_half_even(0x4_0000_0000_0000 - a, 0x400_0000) <= 0x100_0000,
        channel_level(bits) == round_half_even(0x4_0000_0000_0000 - a, 0x400_0000) / 0x2_0000,
{
    lemma2_to64();
    lemma2_to64_rest();
    let p = pow2(99) as int;
    lemma_pow2_pos(99);
    lemma_pow2_adds(50, 99);
    lemma_pow2_adds(49, 99);
    lemma_pow2_adds(26, 99);
    let s: int = 0x4_0000_0000_0000 - a;
    let v = unit_one() + scaled_value(bits);
    assert(v == p * s) by (nonlinear_arith)
        requires v == 0x4_0000_0000_0000 * p - a * p, s == 0x4_0000_0000_0000 - a;
    assert(v > 0) by (nonlinear_arith)
        requires v == p * s, s > 0, p > 0;
    assert(pow2(125) == p * 0x400_0000) by (nonlinear_arith)
        requires pow2(125) == 0x400_0000 * p;
    let n = round_half_even(s, 0x400_0000);
    if s >= 0x2_0000_0000_0000 {
        assert(pow2(148) <= v < pow2(149)) by (nonlinear_arith)
            requires
                v == p * s,
                0x2_0000_0000_0000 <= s < 0x4_0000_0000_0000,
                pow2(148) == 0x2_0000_0000_0000 * p,
                pow2(149) == 0x4_0000_0000_0000 * p,
                p > 0;
        lemma_spacing_bracket(v, 125);
        lemma_round_scaled(s, 0x400_0000, p);
        assert(nearest_single(v) == n * pow2(125));
    } else {
        assert(a % 0x400_0000 == 0);
        let c = s / 0x400_0000;
        assert(s == c * 0x400_0000);
        lemma_round_exact(c, 0x400_0000);
        assert(n == c);
        assert(v == c * pow2(125)) by (nonlinear_arith)
            requires v == p * s, s == c * 0x400_0000, pow2(125) == p * 0x400_0000;
        lemma_nearest_exact(c, 125);
    }
    lemma_level_of_steps(n, 125, 17);
}

/// A sample of magnitude below `2^-27` is shown as 128.
proof fn lemma_level_of_tiny(bits: u32)
    requires
        exponent_of(bits) < 100,
    ensures
        channel_level(bits) == 128,
{
    lemma2_to64();
    let e = exponent_of(bits);
    let m = magnitude(bits) as int;
    lemma_pow2_adds(24, 98);
    lemma_pow2_pos(98);
    assert(m < pow2(122)) by {
        if e == 0 {
            lemma_pow2_strictly_increases(23, 122);
        } else {
            let w = pow2((e - 1) as nat) as int;
            lemma_pow2_pos((e - 1) as nat);
            if e - 1 < 98 {
                lemma_pow2_strictly_increases((e - 1) as nat, 98);
            }
            assert((0x80_0000 + fraction_of(bits)) * w < 0x100_0000 * pow2(98))
                by (nonlinear_arith)
                requires 0 <= fraction_of(bits) < 0x80_0000, 0 < w <= pow2(98);
        }
    }
    let v = unit_one() + scaled_value(bits);
    lemma_pow2_strictly_increases(122, 124);
    lemma_pow2_unfold(150);
    lemma_pow2_unfold(149);
    lemma_pow2_unfold(126);
    lemma_pow2_unfold(125);
    lemma_pow2_adds(23, 126);
    lemma_pow2_adds(24, 125);
    lemma_pow2_pos(125);
    lemma_pow2_pos(124);
    lemma_pow2_unfold(124);
    lemma_pow2_unfold(123);
    if !sign_of(bits) || m == 0 {
        assert(v == 0x80_0000 * pow2(126) + m);
        lemma_pow2_strictly_increases(122, 125);
        lemma_nearest_in_bracket(v, 126, 0x80_0000, m);
        assert(nearest_single(v) == 0x80_0000 * pow2(126));
        lemma_level_of_steps(0x80_0000, 126, 16);
    } else {
        let u = pow2(125) as int;
        let r = u - m;
        assert(v == (0x100_0000 - 1) * u + r) by (nonlinear_arith)
            requires v == 0x100_0000 * u - m, r == u - m;
        assert(pow2(148) <= v) by (nonlinear_arith)
            requires v == (0x100_0000 - 1) * u + r, r > 0, pow2(148) == 0x80_0000 * u, u > 0;
        lemma_pow2_adds(23, 125);
        lemma_nearest_in_bracket(v, 125, 0x100_0000 - 1, r);
        assert(nearest_single(v) == 0x100_0000 * pow2(125));
        lemma_level_of_steps(0x100_0000, 125, 17);
    }
}

/// A finite sample with an exponent field of 127 or more has a magnitude of
/// at least one.
proof fn lemma_magnitude_of_large(bits: u32)
    requires
        127 <= exponent_of(bits),
    ensures
        magnitude(bits) >= unit_one(),
{
    lemma2_to64();
    let k = (exponent_of(bits) - 1) as nat;
    if k > 126 {
        lemma_pow2_strictly_increases(126, k);
    }
    lemma_pow2_adds(23, 126);
    lemma_pow2_pos(126);
    assert((0x80_0000 + fraction_of(bits)) * pow2(k) >= 0x80_0000 * pow2(126)) by (nonlinear_arith)
        requires fraction_of(bits) >= 0, pow2(k) >= pow2(126), pow2(126) > 0;
}

/// A number of one or more is shown at the full level.
pub proof fn lemma_level_of_at_least_one(bits: u32)
    requires
        at_least_one(bits),
    ensures
        channel_level(bits) == 255,
{
    if !is_infinite(bits) {
        let v = unit_one() + scaled_value(bits);
        lemma_pow2_unfold(150);
        lemma_nearest_at_least_two(v);
        let ns = nearest_single(v);
        lemma_pow2_pos(149);
        assert((128 * ns) / unit_one() >= 256) by {
            assert(128 * ns >= 256 * unit_one());
            lemma_div_is_ordered(256 * unit_one(), 128 * ns, unit_one());
            lemma_div_multiples_vanish(256, unit_one());
            assert(256 * unit_one() == unit_one() * 256);
        }
    }
}

/// Every level fits a byte.
pub proof fn lemma_level_in_range(bits: u32)
    ensures
        0 <= channel_level(bits) <= 255,
{
    if is_finite(bits) {
        let v = unit_one() + scaled_value(bits);
        if v > 0 {
            lemma_spacing_power(v);
            lemma_pow2_pos(excess_bits(v));
            lemma_pow2_pos(149);
            let u = spacing(v);
            lemma_fundamental_div_mod(v, u);
            assert(v / u >= 0) by (nonlinear_arith)
                requires v == u * (v / u) + v % u, 0 <= v % u < u, v > 0, u > 0;
            assert(round_half_even(v, u) * u >= 0) by (nonlinear_arith)
                requires round_half_even(v, u) >= 0, u > 0;
            lemma_div_pos_is_pos(128 * nearest_single(v), unit_one());
        }
    }
}

/// A number of minus one or less is shown at level zero.
pub proof fn lemma_level_of_at_most_minus_one(bits: u32)
    requires
        at_most_minus_one(bits),
    ensures
        channel_level(bits) == 0,
{
}

/// Zero, of either sign, is shown at level 128.
pub proof fn lemma_level_of_zero(bits: u32)
    requires
        is_zero(bits),
    ensures
        channel_level(bits) == 128,
{
    lemma_level_of_tiny(bits);
}

/// `v / unit` rounded to the nearest integer, a tie going to the even one.
pub fn rounded_quotient(v: u64, unit: u64) -> (q: u64)
    requires
        unit > 0,
        v / unit < u64::MAX,
    ensures
        q == round_half_even(v as int, unit as int),
{
    let whole: u64 = v / unit;
    let rest: u64 = v % unit;
    if rest < unit - rest || (rest == unit - rest && whole % 2 == 0) {
        whole
    } else {
        whole + 1
    }
}

/// The colour level of the sample with the given bit pattern.
pub fn channel_value(bits: u32) -> (level: u8)
    ensures
        level as int == channel_level(bits),
{
    let negative = bits >= 0x8000_0000;
    let exponent: u32 = (bits / 0x80_0000) % 0x100;
    let fraction: u32 = bits % 0x80_0000;
    if exponent == 255 {
        if fraction == 0 && negative {
            0
        } else {
            255
        }
    } else if exponent >= 127 {
        proof {
            lemma_magnitude_of_large(bits);
            if !negative {
                lemma_level_of_at_least_one(bits);
            }
        }
        if negative {
            0
        } else {
            255
        }
    } else if exponent < 100 {
        proof {
            lemma_level_of_tiny(bits);
        }
        128
    } else {
        let significand: u64 = 0x80_0000 + fraction as u64;
        let shift: u64 = (exponent - 100) as u64;
        proof {
            lemma2_to64();
            if shift < 26 {
                lemma_pow2_strictly_increases(shift as nat, 26);
            }
            if shift < 25 {
                lemma_pow2_strictly_increases(shift as nat, 25);
            }
            lemma_pow2_pos(shift as nat);
            assert(significand * pow2(shift as nat) < 0x100_0000 * 0x400_0000) by (nonlinear_arith)
                requires significand < 0x100_0000, 0 < pow2(shift as nat) <= 0x400_0000;
            assert(shift < 26 ==> significand * pow2(shift as nat) < 0x100_0000 * 0x200_0000)
                by (nonlinear_arith)
                requires
                    significand < 0x100_0000,
                    shift < 26 ==> 0 < pow2(shift as nat) <= 0x200_0000,
            ;
            lemma_u64_shl_is_mul(significand, shift);
            lemma_pow2_adds(shift as nat, 99);
            assert(magnitude(bits) == (significand * pow2(shift as nat)) * pow2(99))
                by (nonlinear_arith)
                requires
                    magnitude(bits) == significand * pow2((shift + 99) as nat),
                    pow2((shift + 99) as nat) == pow2(shift as nat) * pow2(99),
            ;
            assert(significand * pow2(shift as nat) > 0) by (nonlinear_arith)
                requires significand > 0, pow2(shift as nat) > 0;
            if shift == 26 {
                assert((significand * 0x400_0000) % 0x400_0000 == 0) by (nonlinear_arith);
            }
        }
        let addend: u64 = significand << shift;
        if negative {
            proof {
                lemma_level_below_one(bits, addend as int);
            }
            let steps: u64 = rounded_quotient(0x4_0000_0000_0000 - addend, 0x400_0000);
            (steps / 0x2_0000) as u8
        } else {
            proof {
                lemma_level_above_one(bits, addend as int);
            }
            let steps: u64 = rounded_quotient(0x4_0000_0000_0000 + addend, 0x800_0000);
            let level: u64 = steps / 0x1_0000;
            if level > 255 {
                255
            } else {
                level as u8
            }
        }
    }
}

} // verus!
