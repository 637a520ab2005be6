//! Binary floating-point rounding, carried out on integers.
//!
//! Page areas and font sizes reach the renderer as single-precision numbers, and a
//! cropped page is scaled by a double-precision factor. This module computes the same
//! values exactly: a number is an integer times a power of two, and every operation
//! rounds to the nearest such number, ties going to the even one.
use vstd::arithmetic::div_mod::lemma_div_denominator;
use vstd::arithmetic::power2::{
    lemma2_to64, lemma2_to64_rest, lemma_pow2_pos, lemma_pow2_unfold, pow2,
};
use vstd::prelude::*;

use crate::geometry::{larger, smaller};

verus! {

/// Significant bits of a double-precision number.
pub const DOUBLE_BITS: u32 = 53;

/// Significant bits of a single-precision number.
pub const SINGLE_BITS: u32 = 24;

/// The integer nearest to `num / den`; of two that are equally near, the even one.
pub open spec fn half_even(num: nat, den: nat) -> nat {
    let floor = num / den;
    let rest = num % den;
    if 2 * rest < den || (2 * rest == den && floor % 2 == 0) {
        floor
    } else {
        floor + 1
    }
}

/// The least power of two by which `num / den` must be multiplied for its integer
/// part to have at least `bits` bits.
pub open spec fn scale_up(num: nat, den: nat, bits: nat) -> nat
    decreases
            if num >= den * pow2((bits - 1) as nat) {
                0
            } else {
                den * pow2((bits - 1) as nat) - num
            },
{
    if num == 0 || num >= den * pow2((bits - 1) as nat) {
        1
    } else {
        2 * scale_up(2 * num, den, bits)
    }
}

/// The least power of two by which `value` must be divided for its integer part to
/// have at most `bits` bits.
pub open spec fn scale_down(value: nat, bits: nat) -> nat
    decreases value,
{
    if value == 0 || value < pow2(bits) {
        1
    } else {
        2 * scale_down(value / 2, bits)
    }
}

/// The integer of at most `bits` significant bits that is nearest to `value`.
pub open spec fn rounded_to_bits(value: nat, bits: nat) -> nat {
    half_even(value, scale_down(value, bits)) * scale_down(value, bits)
}

/// Position of the highest set bit of a positive number.
pub open spec fn top_bit(value: nat) -> nat
    decreases value,
{
    if value < 2 {
        0
    } else {
        1 + top_bit(value / 2)
    }
}

/// The single-precision encoding of a whole number of at most 24 significant bits:
/// the exponent above the fraction, the leading bit left out.
pub open spec fn single_encoding(value: nat) -> nat {
    if value == 0 {
        0
    } else {
        (126 + top_bit(value)) * 0x80_0000 + value * 0x80_0000 / pow2(top_bit(value))
    }
}

/// Whether a single-precision encoding stands for no number.
pub open spec fn is_nan_encoding(bits: u32) -> bool {
    0x7f80_0000 < bits % 0x8000_0000
}

/// Whether two single-precision encodings compare equal: no encoding equals one that
/// stands for no number, and the two zeros are equal.
pub open spec fn singles_equal(a: u32, b: u32) -> bool {
    &&& !is_nan_encoding(a)
    &&& !is_nan_encoding(b)
    &&& a == b || (a % 0x8000_0000 == 0 && b % 0x8000_0000 == 0)
}

/// The double nearest to `num / den`, as a number of units and how many of these go
/// into one.
pub open spec fn nearest_double(num: nat, den: nat) -> (nat, nat) {
    let unit = scale_up(num, den, DOUBLE_BITS as nat);
    (half_even(num * unit, den), unit)
}

/// A side of `side` pixels scaled by the double nearest to `num / den`: the double
/// nearest to the product, rounded to a whole number with halves going up, and kept
/// within `1..=limit`.
pub open spec fn scaled_side(side: nat, num: nat, den: nat, limit: nat) -> int {
    let (factor, unit) = nearest_double(num, den);
    let product = rounded_to_bits(side * factor, DOUBLE_BITS as nat);
    let whole = (2 * product + unit) / (2 * unit);
    larger(1, smaller(whole as int, limit as int))
}

/// The integer nearest to `num / den`, ties going to the even one.
pub fn round_half_even(num: u128, den: u128) -> (nearest: u128)
    requires
        0 < den <= u128::MAX / 2,
        num < u128::MAX,
    ensures
        nearest == half_even(num as nat, den as nat),
{
    let floor: u128 = num / den;
    let rest: u128 = num % den;
    proof {
        assert(floor <= num) by (nonlinear_arith)
            requires
                den >= 1,
                floor == num / den,
        ;
    }
    if 2 * rest < den || (2 * rest == den && floor % 2 == 0) {
        floor
    } else {
        floor + 1
    }
}

/// The integer of at most `bits` significant bits that is nearest to `value`.
pub fn round_to_bits(value: u128, bits: u32) -> (nearest: u128)
    requires
        1 <= bits < 64,
        value < 0x8000_0000_0000_0000_0000_0000,
    ensures
        nearest == rounded_to_bits(value as nat, bits as nat),
{
    let limit: u128 = power_of_two(bits);
    let mut rest: u128 = value;
    let mut unit: u128 = 1;
    proof {
        assert(value as nat / 1 == value);
    }
    while rest >= limit
        invariant
            limit == pow2(bits as nat),
            1 <= bits < 64,
            value < 0x8000_0000_0000_0000_0000_0000,
            unit >= 1,
            rest == value as nat / unit as nat,
            scale_down(value as nat, bits as nat) == unit * scale_down(rest as nat, bits as nat),
        decreases rest,
    {
        proof {
            lemma_pow2_pos(bits as nat);
            lemma_div_denominator(value as int, unit as int, 2);
            assert(unit <= value) by (nonlinear_arith)
                requires
                    unit >= 1,
                    rest == value as nat / unit as nat,
                    rest >= 1,
            ;
            assert(unit * (2 * scale_down(rest as nat / 2, bits as nat)) == (2 * unit)
                * scale_down(rest as nat / 2, bits as nat)) by (nonlinear_arith);
        }
        rest = rest / 2;
        unit = unit * 2;
    }
    proof {
        scale_down_is_bounded(value as nat, bits as nat);
        assert(unit * 1 == unit);
        half_even_is_bounded(value as nat, unit as nat);
    }
    round_half_even(value, unit) * unit
}

/// `2` to the given power.
fn power_of_two(exponent: u32) -> (power: u128)
    requires
        exponent < 64,
    ensures
        power == pow2(exponent as nat),
{
    let mut power: u128 = 1;
    let mut done: u32 = 0;
    proof {
        lemma2_to64();
    }
    while done < exponent
        invariant
            done <= exponent < 64,
            power == pow2(done as nat),
            power <= 0x1_0000_0000_0000_0000,
        decreases exponent - done,
    {
        proof {
            lemma_pow2_unfold((done + 1) as nat);
            lemma2_to64();
            power_of_two_is_monotone((done + 1) as nat, 64);
        }
        power = power * 2;
        done = done + 1;
    }
    power
}

proof fn power_of_two_is_monotone(less: nat, more: nat)
    requires
        less <= more,
    ensures
        pow2(less) <= pow2(more),
    decreases more,
{
    if less < more {
        power_of_two_is_monotone(less, (more - 1) as nat);
        lemma_pow2_unfold(more);
    }
}

/// A divisor of at most the value itself, unless the value already fits.
proof fn scale_down_is_bounded(value: nat, bits: nat)
    requires
        bits >= 1,
    ensures
        1 <= scale_down(value, bits),
        scale_down(value, bits) == 1 || scale_down(value, bits) <= value,
    decreases value,
{
    if value != 0 && value >= pow2(bits) {
        lemma_pow2_unfold(bits);
        lemma_pow2_pos((bits - 1) as nat);
        scale_down_is_bounded(value / 2, bits);
    }
}

/// Rounding to a multiple of `unit` moves a value by at most half of `unit`.
pub proof fn half_even_is_near(num: nat, den: nat)
    requires
        den >= 1,
    ensures
        2 * (half_even(num, den) * den - num) <= den,
        2 * (num - half_even(num, den) * den) <= den,
{
    vstd::arithmetic::div_mod::lemma_fundamental_div_mod(num as int, den as int);
    assert((num / den + 1) * den == (num / den) * den + den) by (nonlinear_arith);
    assert((num / den) * den == den * (num / den)) by (nonlinear_arith);
}

proof fn half_even_is_bounded(value: nat, unit: nat)
    requires
        1 <= unit,
        unit == 1 || unit <= value,
    ensures
        half_even(value, unit) * unit <= 2 * value,
{
    half_even_is_near(value, unit);
    if unit == 1 {
        assert(value % 1 == 0);
        assert(value / 1 == value);
        assert(half_even(value, 1) == value);
    }
}

/// A side of `side` pixels scaled by the double nearest to `num / den`, rounded to a
/// whole number and kept within `1..=limit`.
pub fn scale_side(side: u32, num: u32, den: u32, limit: u32) -> (scaled: u32)
    requires
        num >= 1,
        den >= 1,
        limit >= 1,
    ensures
        scaled == scaled_side(side as nat, num as nat, den as nat, limit as nat),
{
    let floor: u128 = den as u128 * 0x10_0000_0000_0000;
    let mut grown: u128 = num as u128;
    let mut unit: u128 = 1;
    proof {
        lemma2_to64();
        lemma2_to64_rest();
    }
    while grown < floor
        invariant
            floor == den * pow2(52),
            floor == den * 0x10_0000_0000_0000,
            grown < 2 * floor,
            num >= 1,
            den >= 1,
            grown == num * unit,
            1 <= unit <= grown,
            scale_up(num as nat, den as nat, 53) == unit * scale_up(grown as nat, den as nat, 53),
        decreases 2 * floor - grown,
    {
        proof {
            assert(num * (unit * 2) == (num * unit) * 2) by (nonlinear_arith);
            assert(unit * (2 * scale_up(2 * grown as nat, den as nat, 53)) == (unit * 2)
                * scale_up(2 * grown as nat, den as nat, 53)) by (nonlinear_arith);
        }
        grown = grown * 2;
        unit = unit * 2;
    }
    let factor: u128 = round_half_even(grown, den as u128);
    proof {
        assert(unit * 1 == unit);
        half_even_is_near(grown as nat, den as nat);
        assert(factor <= 0x40_0000_0000_0000) by (nonlinear_arith)
            requires
                2 * (factor * den - grown) <= den,
                grown < 2 * (den * 0x10_0000_0000_0000),
                den >= 1,
        ;
        assert(0 <= side * factor < 0x1_0000_0000 * 0x40_0000_0000_0001) by (nonlinear_arith)
            requires
                0 <= side < 0x1_0000_0000,
                0 <= factor <= 0x40_0000_0000_0000,
        ;
    }
    let product: u128 = side as u128 * factor;
    let rounded: u128 = round_to_bits(product, DOUBLE_BITS);
    proof {
        scale_down_is_bounded(product as nat, 53);
        half_even_is_bounded(product as nat, scale_down(product as nat, 53));
    }
    let whole: u128 = (2 * rounded + unit) / (2 * unit);
    if whole < 1 {
        1
    } else if whole < limit as u128 {
        whole as u32
    } else {
        limit
    }
}

/// The single-precision encoding of a whole number, rounded where it has more
/// significant bits than fit.
pub fn single_bits(value: u32) -> (bits: u32)
    ensures
        bits == single_encoding(rounded_to_bits(value as nat, SINGLE_BITS as nat)),
{
    let rounded: u128 = round_to_bits(value as u128, SINGLE_BITS);
    proof {
        scale_down_is_bounded(value as nat, 24);
        half_even_is_bounded(value as nat, scale_down(value as nat, 24));
    }
    if rounded == 0 {
        return 0;
    }
    let mut rest: u128 = rounded;
    let mut power: u128 = 1;
    let mut top: u32 = 0;
    proof {
        lemma2_to64();
        assert(rounded as nat / 1 == rounded);
    }
    while rest >= 2
        invariant
            1 <= rounded <= 0x2_0000_0000,
            1 <= power <= rounded,
            power == pow2(top as nat),
            rest == rounded as nat / power as nat,
            rest >= 1,
            top <= 40,
            top_bit(rounded as nat) == top + top_bit(rest as nat),
        decreases rest,
    {
        proof {
            lemma_div_denominator(rounded as int, power as int, 2);
            lemma_pow2_unfold((top + 1) as nat);
            assert(2 * power <= rounded) by (nonlinear_arith)
                requires
                    power >= 1,
                    rest == rounded as nat / power as nat,
                    rest >= 2,
            ;
            if top >= 40 {
                power_of_two_is_monotone(40, top as nat);
                lemma2_to64_rest();
            }
        }
        rest = rest / 2;
        power = power * 2;
        top = top + 1;
    }
    proof {
        assert(rounded < 2 * power) by (nonlinear_arith)
            requires
                power >= 1,
                rest == rounded as nat / power as nat,
                rest < 2,
        ;
        assert((rounded * 0x80_0000) as nat / power as nat <= 0x100_0000) by (nonlinear_arith)
            requires
                power >= 1,
                rounded < 2 * power,
        ;
    }
    (126 + top) * 0x80_0000 + (rounded * 0x80_0000 / power) as u32
}

/// Whether two single-precision encodings compare equal as numbers.
pub fn same_single(a: u32, b: u32) -> (same: bool)
    ensures
        same == singles_equal(a, b),
{
    let size_a: u32 = a % 0x8000_0000;
    let size_b: u32 = b % 0x8000_0000;
    size_a <= 0x7f80_0000 && size_b <= 0x7f80_0000 && (a == b || (size_a == 0 && size_b == 0))
}

/// The side that decides the scale comes out exactly as large as the room it was
/// fitted to: scaling `den` pixels by the double nearest to `num / den` gives `num`.
pub proof fn deciding_side_fills_its_room(num: u32, den: u32)
    requires
        num >= 1,
        den >= 1,
    ensures
        scaled_side(den as nat, num as nat, den as nat, num as nat) == num,
{
    let unit = scale_up(num as nat, den as nat, 53);
    let factor = half_even(num as nat * unit, den as nat);
    let exact = (num * unit) as nat;
    let product = den as nat * factor;
    let step = scale_down(product, 53);
    let rounded = rounded_to_bits(product, 53);
    lemma2_to64();
    lemma2_to64_rest();
    scale_up_reaches(num as nat, den as nat, 53);
    half_even_is_near(exact, den as nat);
    assert(factor * den == den * factor) by (nonlinear_arith);
    scale_down_is_bounded(product, 53);
    half_even_is_near(product, step);
    scale_down_is_small(product, 53);
    assert(num * unit < 0x1_0000_0000 * unit) by (nonlinear_arith)
        requires
            num < 0x1_0000_0000,
            unit >= 1,
    ;
    assert(pow2(52) == 0x10_0000_0000_0000);
    assert(den * 0x10_0000_0000_0000 <= exact);
    assert(den * 0x10_0000 < unit);
    assert(step == 1 || step * 0x10_0000_0000_0000 <= product);
    assert(2 * step < unit);
    assert(2 * (rounded - exact) <= den + step);
    assert(2 * (exact - rounded) <= den + step);
    let whole = (2 * rounded + unit) / (2 * unit);
    assert(whole == num) by (nonlinear_arith)
        requires
            unit >= 1,
            2 * (num * unit) <= 2 * rounded + unit < 2 * (num * unit) + 2 * unit,
            whole == (2 * rounded + unit) / (2 * unit),
    ;
}

/// The scale reaches the wanted number of bits.
proof fn scale_up_reaches(num: nat, den: nat, bits: nat)
    requires
        num >= 1,
    ensures
        scale_up(num, den, bits) >= 1,
        num * scale_up(num, den, bits) >= den * pow2((bits - 1) as nat),
    decreases
            if num >= den * pow2((bits - 1) as nat) {
                0
            } else {
                den * pow2((bits - 1) as nat) - num
            },
{
    if num < den * pow2((bits - 1) as nat) {
        scale_up_reaches(2 * num, den, bits);
        let rest = scale_up(2 * num, den, bits);
        assert(num * (2 * rest) == (2 * num) * rest) by (nonlinear_arith);
    } else {
        assert(num * 1 == num);
    }
}

/// The divisor that leaves `bits` bits is at most the value without them.
proof fn scale_down_is_small(value: nat, bits: nat)
    requires
        bits >= 1,
    ensures
        scale_down(value, bits) == 1 || scale_down(value, bits) * pow2((bits - 1) as nat) <= value,
    decreases value,
{
    lemma_pow2_unfold(bits);
    lemma_pow2_pos((bits - 1) as nat);
    if value != 0 && value >= pow2(bits) {
        scale_down_is_small(value / 2, bits);
        let rest = scale_down(value / 2, bits);
        assert((2 * rest) * pow2((bits - 1) as nat) == 2 * (rest * pow2((bits - 1) as nat)))
            by (nonlinear_arith);
        if rest == 1 {
            assert(1 * pow2((bits - 1) as nat) == pow2((bits - 1) as nat));
        }
    }
}

/// Rounding keeps the order of two ratios, so that the smaller of the two doubles is the
/// one nearest to the smaller ratio.
pub proof fn rounded_ratios_keep_their_order(num: u32, den: u32, other_num: u32, other_den: u32)
    requires
        num >= 1,
        den >= 1,
        other_num >= 1,
        other_den >= 1,
        num * other_den <= other_num * den,
    ensures
        ({
            let (count, unit) = nearest_double(num as nat, den as nat);
            let (other_count, other_unit) = nearest_double(other_num as nat, other_den as nat);
            count * other_unit <= other_count * unit
        }),
{
    let a = num as nat;
    let b = den as nat;
    let c = other_num as nat;
    let d = other_den as nat;
    let unit = scale_up(a, b, 53);
    let other_unit = scale_up(c, d, 53);
    let i = scale_up_is_tight(a, b);
    let j = scale_up_is_tight(c, d);
    let low: nat = 0x10_0000_0000_0000;
    let first = half_even(a * unit, b);
    let second = half_even(c * other_unit, d);
    half_even_is_near(a * unit, b);
    half_even_is_near(c * other_unit, d);
    if i == j {
        assert((a * unit) * d <= (c * unit) * b) by (nonlinear_arith)
            requires
                a * d <= c * b,
                unit >= 0,
        ;
        half_even_is_monotone(a * unit, b, c * unit, d);
        assert(first * unit <= second * unit) by (nonlinear_arith)
            requires
                first <= second,
                unit >= 0,
        ;
    } else if i > j {
        lemma_pow2_unfold(i);
        power_of_two_is_monotone(j, (i - 1) as nat);
        assert(first <= 2 * low) by (nonlinear_arith)
            requires
                2 * (first * b - a * unit) <= b,
                a * unit < 2 * (b * low),
                b >= 1,
        ;
        assert(second >= low) by (nonlinear_arith)
            requires
                2 * (c * other_unit - second * d) <= d,
                c * other_unit >= d * low,
                d >= 1,
        ;
        assert(first * other_unit <= second * unit) by (nonlinear_arith)
            requires
                first <= 2 * low,
                second >= low,
                2 * other_unit <= unit,
                first >= 0,
                other_unit >= 0,
                low >= 0,
        ;
    } else {
        lemma_pow2_unfold(j);
        power_of_two_is_monotone(i, (j - 1) as nat);
        let left = a * unit * d;
        let right = c * unit * b;
        assert(left <= right) by (nonlinear_arith)
            requires
                a * d <= c * b,
                unit >= 0,
                left == a * unit * d,
                right == c * unit * b,
        ;
        assert(left >= b * low * d) by (nonlinear_arith)
            requires
                a * unit >= b * low,
                d >= 0,
                left == a * unit * d,
        ;
        assert(2 * right <= c * other_unit * b) by (nonlinear_arith)
            requires
                2 * unit <= other_unit,
                c >= 0,
                b >= 0,
                right == c * unit * b,
        ;
        assert(c * other_unit * b < 2 * (d * low) * b) by (nonlinear_arith)
            requires
                c * other_unit < 2 * (d * low),
                b >= 1,
        ;
        assert(2 * (d * low) * b == 2 * (b * low * d)) by (nonlinear_arith);
    }
}

/// The scale of a ratio of 32-bit numbers is a power of two and brings the ratio into
/// the range of 53-bit numbers.
proof fn scale_up_is_tight(num: nat, den: nat) -> (exponent: nat)
    requires
        1 <= num < 0x1_0000_0000,
        1 <= den,
    ensures
        scale_up(num, den, 53) == pow2(exponent),
        den * 0x10_0000_0000_0000 <= num * scale_up(num, den, 53) < 2 * (den
            * 0x10_0000_0000_0000),
{
    lemma2_to64_rest();
    assert(num < den * 0x10_0000_0000_0000) by (nonlinear_arith)
        requires
            num < 0x1_0000_0000,
            den >= 1,
    ;
    scale_up_stays_below(num, den)
}

proof fn scale_up_stays_below(num: nat, den: nat) -> (exponent: nat)
    requires
        1 <= num < 2 * (den * 0x10_0000_0000_0000),
    ensures
        scale_up(num, den, 53) == pow2(exponent),
        den * 0x10_0000_0000_0000 <= num * scale_up(num, den, 53) < 2 * (den
            * 0x10_0000_0000_0000),
    decreases 2 * (den * 0x10_0000_0000_0000) - num,
{
    lemma2_to64();
    lemma2_to64_rest();
    if num < den * 0x10_0000_0000_0000 {
        let rest = scale_up(2 * num, den, 53);
        let exponent = scale_up_stays_below(2 * num, den);
        assert(num * (2 * rest) == (2 * num) * rest) by (nonlinear_arith);
        lemma_pow2_unfold(exponent + 1);
        exponent + 1
    } else {
        assert(num * 1 == num);
        0
    }
}

/// Rounding to the nearest integer keeps the order of two ratios.
proof fn half_even_is_monotone(num: nat, den: nat, other_num: nat, other_den: nat)
    requires
        den >= 1,
        other_den >= 1,
        num * other_den <= other_num * den,
    ensures
        half_even(num, den) <= half_even(other_num, other_den),
{
    let first = half_even(num, den);
    let second = half_even(other_num, other_den);
    half_even_is_near(num, den);
    half_even_is_near(other_num, other_den);
    if first > second {
        assert(first == second + 1 && 2 * (first * den - num) == den && 2 * (other_num - second
            * other_den) == other_den) by (nonlinear_arith)
            requires
                first > second,
                den >= 1,
                other_den >= 1,
                num * other_den <= other_num * den,
                2 * (first * den - num) <= den,
                2 * (other_num - second * other_den) <= other_den,
        ;
        vstd::arithmetic::div_mod::lemma_fundamental_div_mod_converse(
            other_num as int,
            other_den as int,
            second as int,
            other_num - second * other_den,
        );
        assert(num == second * den + (num - second * den));
        assert((second + 1) * den == second * den + den) by (nonlinear_arith);
        vstd::arithmetic::div_mod::lemma_fundamental_div_mod_converse(
            num as int,
            den as int,
            second as int,
            num - second * den,
        );
    }
}

/// A number halfway between two whole ones is rounded to the even one.
pub proof fn halves_go_to_the_even_number(num: nat, den: nat)
    requires
        den >= 1,
        2 * (half_even(num, den) * den - num) == den || 2 * (num - half_even(num, den) * den)
            == den,
    ensures
        half_even(num, den) % 2 == 0,
{
    vstd::arithmetic::div_mod::lemma_fundamental_div_mod(num as int, den as int);
    assert((num / den + 1) * den == (num / den) * den + den) by (nonlinear_arith);
    assert((num / den) * den == den * (num / den)) by (nonlinear_arith);
}

/// A quotient is rounded to a number of fifty-three bits: a whole number of units of which
/// a power of two goes into one, at most half a unit away from the exact quotient.
pub proof fn quotients_have_fifty_three_bits(num: u32, den: u32)
    requires
        num >= 1,
        den >= 1,
    ensures
        ({
            let (count, unit) = nearest_double(num as nat, den as nat);
            &&& exists|exponent: nat| unit == #[trigger] pow2(exponent)
            &&& 0x10_0000_0000_0000 <= count <= 0x20_0000_0000_0000
            &&& 2 * (count * den - num * unit) <= den
            &&& 2 * (num * unit - count * den) <= den
        }),
{
    let (count, unit) = nearest_double(num as nat, den as nat);
    let exponent = scale_up_is_tight(num as nat, den as nat);
    assert(unit == pow2(exponent));
    half_even_is_near((num * unit) as nat, den as nat);
    assert(0x10_0000_0000_0000 <= count <= 0x20_0000_0000_0000) by (nonlinear_arith)
        requires
            2 * (count * den - num * unit) <= den,
            2 * (num * unit - count * den) <= den,
            den * 0x10_0000_0000_0000 <= num * unit < 2 * (den * 0x10_0000_0000_0000),
            den >= 1,
    ;
}

/// The divisor that leaves `bits` bits is a power of two and leaves no fewer.
proof fn scale_down_is_tight(value: nat, bits: nat) -> (exponent: nat)
    requires
        bits >= 1,
    ensures
        scale_down(value, bits) == pow2(exponent),
        value < pow2(bits) ==> exponent == 0,
        value < scale_down(value, bits) * pow2(bits),
        value >= pow2(bits) ==> scale_down(value, bits) * pow2((bits - 1) as nat) <= value,
    decreases value,
{
    lemma2_to64();
    lemma_pow2_pos(bits);
    lemma_pow2_unfold(bits);
    lemma_pow2_pos((bits - 1) as nat);
    if value == 0 || value < pow2(bits) {
        assert(1 * pow2(bits) == pow2(bits));
        0
    } else {
        let below = scale_down_is_tight(value / 2, bits);
        let rest = scale_down(value / 2, bits);
        lemma_pow2_unfold(below + 1);
        assert((2 * rest) * pow2(bits) == 2 * (rest * pow2(bits))) by (nonlinear_arith);
        scale_down_is_small(value, bits);
        below + 1
    }
}

/// A number of at most `bits` bits is kept. A larger one becomes a multiple of the power
/// of two that leaves it `bits` bits, at most half of that away.
pub proof fn numbers_are_rounded_to_their_bits(value: nat, bits: nat)
    requires
        bits >= 1,
    ensures
        value < pow2(bits) ==> rounded_to_bits(value, bits) == value,
        value >= pow2(bits) ==> exists|exponent: nat|
            {
                let step = #[trigger] pow2(exponent);
                let rounded = rounded_to_bits(value, bits);
                &&& step * pow2((bits - 1) as nat) <= value < step * pow2(bits)
                &&& rounded % step == 0
                &&& 2 * (rounded - value) <= step
                &&& 2 * (value - rounded) <= step
            },
{
    lemma2_to64();
    let exponent = scale_down_is_tight(value, bits);
    let step = pow2(exponent);
    lemma_pow2_pos(exponent);
    half_even_is_near(value, step);
    if value < pow2(bits) {
        assert(value % 1 == 0);
        assert(value / 1 == value);
        assert(half_even(value, 1) == value);
        assert(value * 1 == value);
    } else {
        vstd::arithmetic::div_mod::lemma_mod_multiples_basic(
            half_even(value, step) as int,
            step as int,
        );
    }
}

/// The highest set bit is the greatest power of two in a number.
proof fn top_bit_is_below(value: nat)
    requires
        value >= 1,
    ensures
        pow2(top_bit(value)) <= value < 2 * pow2(top_bit(value)),
    decreases value,
{
    lemma2_to64();
    if value >= 2 {
        top_bit_is_below(value / 2);
        lemma_pow2_unfold(top_bit(value));
    }
}

/// An encoding holds the exponent above the fraction: the power of two just below the
/// number, and how much of another such power the number is above it, counted in parts of
/// which 2^23 go into that power.
pub proof fn encodings_stand_for_their_number(value: nat)
    requires
        value >= 1,
    ensures
        single_encoding(0) == 0,
        single_encoding(value) >= 127 * 0x80_0000,
        ({
            let exponent = (single_encoding(value) / 0x80_0000 - 127) as nat;
            let parts = 0x80_0000 + single_encoding(value) % 0x80_0000;
            &&& pow2(exponent) <= value < 2 * pow2(exponent)
            &&& parts * pow2(exponent) <= value * 0x80_0000 < (parts + 1) * pow2(exponent)
        }),
{
    top_bit_is_below(value);
    let exponent = top_bit(value);
    let power = pow2(exponent);
    let parts = value * 0x80_0000 / power;
    assert(0x80_0000 <= parts < 0x100_0000) by (nonlinear_arith)
        requires
            1 <= power <= value < 2 * power,
            parts == value * 0x80_0000 / power,
    ;
    vstd::arithmetic::div_mod::lemma_fundamental_div_mod(
        (value * 0x80_0000) as int,
        power as int,
    );
    assert(power * parts == parts * power) by (nonlinear_arith);
    assert((parts + 1) * power == parts * power + power) by (nonlinear_arith);
    let encoding = single_encoding(value);
    assert(encoding == (127 + exponent) * 0x80_0000 + (parts - 0x80_0000));
    assert(encoding / 0x80_0000 == 127 + exponent);
    assert(encoding % 0x80_0000 == parts - 0x80_0000);
}

/// Two encodings compare equal if they are the same or both zero, whatever the sign of
/// zero is, unless one of them stands for no number.
pub proof fn encodings_compare_as_numbers(a: u32, b: u32)
    ensures
        a == b && a % 0x8000_0000 <= 0x7f80_0000 ==> singles_equal(a, b),
        a % 0x8000_0000 > 0x7f80_0000 || b % 0x8000_0000 > 0x7f80_0000 ==> !singles_equal(a, b),
        a != b ==> (singles_equal(a, b) <==> (a == 0 && b == 0x8000_0000) || (a == 0x8000_0000 && b
            == 0)),
{
}

/// A side is scaled to the nearest number of pixels, give or take a thousandth of a pixel
/// and never over its limit nor under one.
pub proof fn sides_are_scaled_to_the_nearest_pixel(side: u32, num: u32, den: u32, limit: u32)
    requires
        num >= 1,
        den >= 1,
        limit >= 1,
    ensures
        ({
            let scaled = scaled_side(side as nat, num as nat, den as nat, limit as nat);
            &&& 1 <= scaled <= limit
            &&& scaled < limit ==> 1024 * (side * num - scaled * den) <= 513 * den
            &&& scaled > 1 ==> 1024 * (scaled * den - side * num) <= 513 * den
        }),
{
    let (factor, unit) = nearest_double(num as nat, den as nat);
    let product = side as nat * factor;
    let rounded = rounded_to_bits(product, 53);
    let whole = (2 * rounded + unit) / (2 * unit);
    let scaled = larger(1, smaller(whole as int, limit as int));
    lemma2_to64_rest();
    let _ = scale_up_is_tight(num as nat, den as nat);
    quotients_have_fifty_three_bits(num, den);
    assert(unit >= 1) by (nonlinear_arith)
        requires
            num * unit >= den * 0x10_0000_0000_0000,
            den >= 1,
            unit >= 0,
    ;
    let step = scale_down(product, 53);
    if step == 1 {
        assert(product % 1 == 0);
        assert(product / 1 == product);
        assert(rounded == product);
    }
    scale_down_is_bounded(product, 53);
    half_even_is_near(product, step);
    scale_down_is_small(product, 53);
    assert(pow2(52) == 0x10_0000_0000_0000);
    assert(step == 1 || step * 0x10_0000_0000_0000 <= product);
    assert(2 * (unit * whole) <= 2 * rounded + unit < 2 * (unit * whole) + 2 * unit)
        by (nonlinear_arith)
        requires
            unit >= 1,
            whole == (2 * rounded + unit) / (2 * unit),
    ;
    if scaled > 1 {
        assert(unit * scaled <= unit * whole) by (nonlinear_arith)
            requires
                scaled <= whole,
                unit >= 0,
        ;
        scaled_not_over(
            side as int,
            num as int,
            den as int,
            factor as int,
            unit as int,
            rounded as int,
            scaled,
        );
    }
    if scaled < limit {
        scaled_not_under(
            side as int,
            num as int,
            den as int,
            factor as int,
            unit as int,
            rounded as int,
            whole as int,
        );
        assert(whole * den <= scaled * den) by (nonlinear_arith)
            requires
                whole <= scaled,
                den >= 0,
        ;
    }
}

/// A scaled side is not much over half a pixel larger than the exact one.
proof fn scaled_not_over(
    side: int,
    num: int,
    den: int,
    factor: int,
    unit: int,
    rounded: int,
    scaled: int,
)
    requires
        0 <= side,
        den >= 1,
        unit >= 1,
        factor >= 0x10_0000_0000_0000,
        2 * (factor * den - num * unit) <= den,
        0x20_0000_0000_0000 * (rounded - side * factor) <= side * factor,
        2 * (unit * scaled) <= 2 * rounded + unit,
        0 <= scaled < 0x1_0000_0000,
    ensures
        1024 * (scaled * den - side * num) <= 513 * den,
{
    if 1024 * (scaled * den - side * num) > 513 * den {
        let exact = side * factor;
        let shown = unit * scaled;
        assert(2 * (exact * den) <= 2 * (unit * (side * num)) + side * den) by (nonlinear_arith)
            requires
                0 <= side,
                2 * (factor * den - num * unit) <= den,
                exact == side * factor,
        ;
        assert(0x10_0000_0000_0000 * (side * den) <= exact * den) by (nonlinear_arith)
            requires
                0 <= side,
                den >= 1,
                factor >= 0x10_0000_0000_0000,
                exact == side * factor,
        ;
        assert(1024 * (unit * (side * num)) <= (1024 * shown - 513 * unit) * den)
            by (nonlinear_arith)
            requires
                1024 * (scaled * den - side * num) > 513 * den,
                unit >= 1,
                shown == unit * scaled,
        ;
        let left = 1024 * (exact * 0x1f_ffff_ffff_ffff);
        let right = 0x20_0000_0000_0000 * (1024 * shown - 513 * unit);
        assert(left * den == 1024 * (0x1f_ffff_ffff_ffff * (exact * den))) by (nonlinear_arith)
            requires
                left == 1024 * (exact * 0x1f_ffff_ffff_ffff),
        ;
        assert(right * den == 0x20_0000_0000_0000 * ((1024 * shown - 513 * unit) * den))
            by (nonlinear_arith)
            requires
                right == 0x20_0000_0000_0000 * (1024 * shown - 513 * unit),
        ;
        assert(left * den <= right * den);
        assert(left <= right) by (nonlinear_arith)
            requires
                left * den <= right * den,
                den >= 1,
        ;
        assert(shown <= 0x1_0000_0000 * unit) by (nonlinear_arith)
            requires
                unit >= 1,
                scaled < 0x1_0000_0000,
                shown == unit * scaled,
        ;
        assert(false);
    }
}

/// A scaled side is not much over half a pixel smaller than the exact one.
proof fn scaled_not_under(
    side: int,
    num: int,
    den: int,
    factor: int,
    unit: int,
    rounded: int,
    scaled: int,
)
    requires
        0 <= side,
        den >= 1,
        unit >= 1,
        factor >= 0x10_0000_0000_0000,
        2 * (num * unit - factor * den) <= den,
        0x20_0000_0000_0000 * (side * factor - rounded) <= side * factor,
        2 * rounded + unit < 2 * (unit * scaled) + 2 * unit,
        0 <= scaled < 0x1_0000_0000,
    ensures
        1024 * (side * num - scaled * den) <= 513 * den,
{
    if 1024 * (side * num - scaled * den) > 513 * den {
        let exact = side * factor;
        let shown = unit * scaled;
        assert(2 * (unit * (side * num)) <= 2 * (exact * den) + side * den) by (nonlinear_arith)
            requires
                0 <= side,
                2 * (num * unit - factor * den) <= den,
                exact == side * factor,
        ;
        assert(0x10_0000_0000_0000 * (side * den) <= exact * den) by (nonlinear_arith)
            requires
                0 <= side,
                den >= 1,
                factor >= 0x10_0000_0000_0000,
                exact == side * factor,
        ;
        assert((1024 * shown + 513 * unit) * den <= 1024 * (unit * (side * num)))
            by (nonlinear_arith)
            requires
                1024 * (side * num - scaled * den) > 513 * den,
                unit >= 1,
                shown == unit * scaled,
        ;
        let left = 0x20_0000_0000_0000 * (1024 * shown + 513 * unit);
        let right = 1024 * (exact * 0x20_0000_0000_0001);
        assert(right * den == 1024 * (0x20_0000_0000_0001 * (exact * den))) by (nonlinear_arith)
            requires
                right == 1024 * (exact * 0x20_0000_0000_0001),
        ;
        assert(left * den == 0x20_0000_0000_0000 * ((1024 * shown + 513 * unit) * den))
            by (nonlinear_arith)
            requires
                left == 0x20_0000_0000_0000 * (1024 * shown + 513 * unit),
        ;
        assert(left * den <= right * den);
        assert(left <= right) by (nonlinear_arith)
            requires
                left * den <= right * den,
                den >= 1,
        ;
        assert(shown <= 0x1_0000_0000 * unit) by (nonlinear_arith)
            requires
                unit >= 1,
                scaled < 0x1_0000_0000,
                shown == unit * scaled,
        ;
        assert(false);
    }
}

} // verus!
