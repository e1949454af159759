//! From a normalized sample to a channel intensity.
//!
//! A sample is a single-precision number, taken here by its bits. Its
//! intensity is the sample clamped to the unit interval, multiplied by 255
//! in single precision and rounded to the nearest integer, halves upwards.

use vstd::prelude::*;
use vstd::arithmetic::power2::{lemma2_to64, lemma2_to64_rest, lemma_pow2_strictly_increases, pow2};

verus! {

/// The sign of a single-precision number: 1 where it is negative.
pub open spec fn sign_bit(bits: u32) -> int {
    bits as int / 0x8000_0000
}

/// The eight exponent bits of a single-precision number.
pub open spec fn exponent_field(bits: u32) -> int {
    (bits as int / 0x80_0000) % 0x100
}

/// The twenty-three fraction bits of a single-precision number.
pub open spec fn fraction_field(bits: u32) -> int {
    bits as int % 0x80_0000
}

/// The bits are no number.
pub open spec fn is_nan(bits: u32) -> bool {
    exponent_field(bits) == 0xff && fraction_field(bits) != 0
}

/// The numerator of a finite number's magnitude, which is
/// `significand / 2^scale`.
pub open spec fn significand(bits: u32) -> int {
    if exponent_field(bits) == 0 {
        fraction_field(bits)
    } else {
        0x80_0000 + fraction_field(bits)
    }
}

/// The exponent of the denominator of a finite number's magnitude, for a
/// magnitude below one.
pub open spec fn scale(bits: u32) -> nat {
    if exponent_field(bits) == 0 {
        149
    } else {
        (150 - exponent_field(bits)) as nat
    }
}

/// The distance between neighbouring single-precision numbers at a numerator
/// below `2^32`: the least power of two that leaves twenty-four significant
/// bits.
pub open spec fn spacing(numerator: int) -> int {
    if numerator < 0x100_0000 {
        1
    } else if numerator < 0x200_0000 {
        2
    } else if numerator < 0x400_0000 {
        4
    } else if numerator < 0x800_0000 {
        8
    } else if numerator < 0x1000_0000 {
        16
    } else if numerator < 0x2000_0000 {
        32
    } else if numerator < 0x4000_0000 {
        64
    } else if numerator < 0x8000_0000 {
        128
    } else {
        256
    }
}

/// The multiple of `step` nearest to `numerator`; of two equally near, the
/// even one.
pub open spec fn nearest_even(numerator: int, step: int) -> int {
    let below = numerator / step;
    let rest = numerator % step;
    if 2 * rest < step || (2 * rest == step && below % 2 == 0) {
        below * step
    } else {
        (below + 1) * step
    }
}

/// The integer nearest to `numerator / 2^scale`; of two equally near, the
/// greater.
pub open spec fn nearest_integer(numerator: int, scale: nat) -> int {
    (2 * numerator + pow2(scale)) / (2 * pow2(scale) as int)
}

/// The intensity of a sample: 0 for what is no number and for everything
/// negative, 255 from one upwards, and between them 255 times the sample,
/// rounded first to single precision and then to the nearest integer.
pub open spec fn intensity_of(bits: u32) -> int {
    if is_nan(bits) || sign_bit(bits) == 1 {
        0
    } else if exponent_field(bits) >= 127 {
        255
    } else {
        nearest_integer(
            nearest_even(255 * significand(bits), spacing(255 * significand(bits))),
            scale(bits),
        )
    }
}

/// Rounding to single precision never passes 255 times `2^24`.
proof fn lemma_product_bound(numerator: int)
    requires
        0 <= numerator < 255 * 0x100_0000,
    ensures
        0 <= nearest_even(numerator, spacing(numerator)) <= 255 * 0x100_0000,
{
}

/// A sample below `2^-9` is dark.
proof fn lemma_faint(numerator: int, scale: nat)
    requires
        0 <= numerator < 255 * 0x100_0000,
        scale >= 33,
    ensures
        nearest_integer(nearest_even(numerator, spacing(numerator)), scale) == 0,
{
    lemma_product_bound(numerator);
    lemma2_to64_rest();
    if scale > 33 {
        lemma_pow2_strictly_increases(33, scale);
    }
    let rounded = nearest_even(numerator, spacing(numerator));
    let unit = pow2(scale) as int;
    assert(unit >= 0x2_0000_0000);
    assert((2 * rounded + unit) / (2 * unit) == 0) by (nonlinear_arith)
        requires
            0 <= rounded,
            2 * rounded < unit,
    ;
}

/// Two to the power of `exponent`.
fn power_of_two(exponent: u32) -> (power: u64)
    requires
        exponent <= 32,
    ensures
        power == pow2(exponent as nat),
{
    let mut power: u64 = 1;
    let mut done: u32 = 0;
    proof {
        lemma2_to64();
    }
    while done < exponent
        invariant
            done <= exponent <= 32,
            power == pow2(done as nat),
            power <= 0x1_0000_0000,
        decreases exponent - done,
    {
        proof {
            vstd::arithmetic::power2::lemma_pow2_unfold((done + 1) as nat);
            lemma2_to64();
            if done + 1 < 32 {
                lemma_pow2_strictly_increases((done + 1) as nat, 32);
            }
        }
        power = 2 * power;
        done = done + 1;
    }
    power
}

/// The intensity of the sample with the given bits.
pub fn intensity(bits: u32) -> (level: u8)
    ensures
        level == intensity_of(bits),
{
    let exponent = bits / 0x80_0000 % 0x100;
    let fraction = bits % 0x80_0000;
    if bits >= 0x8000_0000 || (exponent == 0xff && fraction != 0) {
        return 0;
    }
    if exponent >= 127 {
        return 255;
    }
    if exponent < 118 {
        proof {
            lemma_faint(255 * significand(bits), scale(bits));
        }
        return 0;
    }
    let product: u64 = 255 * (0x80_0000 + fraction as u64);
    let step: u64 = if product < 0x8000_0000 {
        128
    } else {
        256
    };
    let below = product / step;
    let rest = product % step;
    let rounded = if 2 * rest < step || (2 * rest == step && below % 2 == 0) {
        below * step
    } else {
        (below + 1) * step
    };
    let unit = power_of_two(150 - exponent);
    proof {
        lemma_product_bound(product as int);
        lemma2_to64();
        assert(unit >= 0x100_0000);
        assert((2 * rounded + unit) / (2 * unit) as int <= 255) by (nonlinear_arith)
            requires
                0 <= rounded <= 255 * 0x100_0000,
                unit >= 0x100_0000,
        ;
    }
    ((2 * rounded + unit) / (2 * unit)) as u8
}

/// The intensities of a run of samples, in their order.
pub fn intensities(samples: &[u32]) -> (levels: Vec<u8>)
    ensures
        levels@.len() == samples@.len(),
        forall|i: int| 0 <= i < samples@.len() ==> levels@[i] == intensity_of(samples@[i]),
{
    let mut levels: Vec<u8> = Vec::new();
    let mut done: usize = 0;
    while done < samples.len()
        invariant
            done <= samples@.len(),
            levels@.len() == done,
            forall|i: int| 0 <= i < done ==> levels@[i] == intensity_of(samples@[i]),
        decreases samples@.len() - done,
    {
        levels.push(intensity(samples[done]));
        done = done + 1;
    }
    levels
}

/// Every intensity is a level from 0 to 255, whatever the bits.
pub proof fn lemma_intensity_is_a_level(bits: u32)
    ensures
        0 <= intensity_of(bits) <= 255,
{
    if !(is_nan(bits) || sign_bit(bits) == 1) && exponent_field(bits) < 127 {
        let product = 255 * significand(bits);
        let rounded = nearest_even(product, spacing(product));
        let unit = pow2(scale(bits)) as int;
        lemma_product_bound(product);
        lemma2_to64();
        if scale(bits) > 24 {
            lemma_pow2_strictly_increases(24, scale(bits));
        }
        assert(0 <= (2 * rounded + unit) / (2 * unit) <= 255) by (nonlinear_arith)
            requires
                0 <= rounded <= 255 * 0x100_0000,
                unit >= 0x100_0000,
        ;
    }
}

/// Twice the distance from a sample's intensity to 255 times the sample,
/// in units of `2^-scale`.
pub open spec fn deviation(bits: u32) -> int {
    2 * (pow2(scale(bits)) * intensity_of(bits)) - 2 * (255 * significand(bits))
}

/// The intensity of a sample between zero and one is 255 times the sample
/// to within a half and half a step of single precision: it is the product
/// rounded to the nearest integer, but for the rounding of the product
/// itself.
pub proof fn lemma_intensity_is_near_the_product(bits: u32)
    requires
        !is_nan(bits),
        sign_bit(bits) == 0,
        exponent_field(bits) < 127,
    ensures
        -(pow2(scale(bits)) + spacing(255 * significand(bits))) <= deviation(bits) <= pow2(
            scale(bits),
        ) + spacing(255 * significand(bits)),
{
    let product = 255 * significand(bits);
    let step = spacing(product);
    let rounded = nearest_even(product, step);
    let unit = pow2(scale(bits)) as int;
    let level = intensity_of(bits);
    assert(-step <= 2 * (rounded - product) <= step);
    vstd::arithmetic::power2::lemma_pow2_pos(scale(bits));
    vstd::arithmetic::div_mod::lemma_fundamental_div_mod(2 * rounded + unit, 2 * unit);
    assert(level == (2 * rounded + unit) / (2 * unit));
    let rest = (2 * rounded + unit) % (2 * unit);
    assert(0 <= rest < 2 * unit);
    assert((2 * unit) * level == 2 * (unit * level)) by (nonlinear_arith);
    assert(2 * (unit * level) - 2 * rounded == unit - rest);
}

/// Rounding to single precision keeps the order of the numerators.
proof fn lemma_rounding_keeps_order(lesser: int, greater: int)
    requires
        0 <= lesser <= greater < 255 * 0x100_0000,
    ensures
        nearest_even(lesser, spacing(lesser)) <= nearest_even(greater, spacing(greater)),
{
    let low = spacing(lesser);
    let high = spacing(greater);
    if low == high {
        assert(lesser / low <= greater / low);
    } else {
        // The numerators lie on either side of a power of two, which is a
        // multiple of both steps and which neither rounding crosses.
        let edge = 0x100_0000 * high / 2;
        assert(lesser < edge <= greater);
        assert(edge % low == 0 && edge % high == 0);
        assert(nearest_even(lesser, low) <= edge);
        assert(edge <= nearest_even(greater, high));
    }
}

/// Rounding to the nearest integer keeps the order of the fractions
/// `lesser / 2^deep` and `greater / 2^flat`.
proof fn lemma_level_keeps_order(lesser: int, deep: nat, greater: int, flat: nat)
    requires
        0 <= lesser,
        0 <= greater,
        lesser * pow2(flat) <= greater * pow2(deep),
    ensures
        nearest_integer(lesser, deep) <= nearest_integer(greater, flat),
{
    vstd::arithmetic::power2::lemma_pow2_pos(deep);
    vstd::arithmetic::power2::lemma_pow2_pos(flat);
    let a = pow2(deep) as int;
    let b = pow2(flat) as int;
    let k = (2 * lesser + a) / (2 * a);
    vstd::arithmetic::div_mod::lemma_fundamental_div_mod(2 * lesser + a, 2 * a);
    assert((2 * a) * k <= 2 * lesser + a);
    assert(a * (2 * b * k) <= a * (2 * greater + b)) by (nonlinear_arith)
        requires
            (2 * a) * k <= 2 * lesser + a,
            lesser * b <= greater * a,
            a > 0,
            b > 0,
    ;
    assert(2 * b * k <= 2 * greater + b) by (nonlinear_arith)
        requires
            a * (2 * b * k) <= a * (2 * greater + b),
            a > 0,
    ;
    assert(k <= (2 * greater + b) / (2 * b)) by (nonlinear_arith)
        requires
            2 * b * k <= 2 * greater + b,
            b > 0,
    ;
}

/// A greater sample is never darker: among the samples that are numbers
/// and not negative, the intensity follows the order of the bits, which is
/// the order of the samples.
pub proof fn lemma_intensity_keeps_order(darker: u32, brighter: u32)
    requires
        darker <= brighter,
        sign_bit(brighter) == 0,
        !is_nan(brighter),
    ensures
        intensity_of(darker) <= intensity_of(brighter),
{
    lemma_intensity_is_a_level(darker);
    lemma_intensity_is_a_level(brighter);
    if exponent_field(brighter) < 127 {
        assert(sign_bit(darker) == 0);
        assert(exponent_field(darker) <= exponent_field(brighter));
        let lesser = 255 * significand(darker);
        let greater = 255 * significand(brighter);
        let low = nearest_even(lesser, spacing(lesser));
        let high = nearest_even(greater, spacing(greater));
        lemma_product_bound(lesser);
        lemma_product_bound(greater);
        if scale(darker) == scale(brighter) {
            assert(significand(darker) <= significand(brighter));
            lemma_rounding_keeps_order(lesser, greater);
            assert(low * pow2(scale(brighter)) <= high * pow2(scale(darker))) by (nonlinear_arith)
                requires
                    low <= high,
                    scale(darker) == scale(brighter),
            ;
        } else {
            // One binade down at least: the darker one's product is below
            // 255 * 2^24 over a denominator at least twice as great.
            let deep = scale(darker);
            let flat = scale(brighter);
            assert(deep > flat);
            assert(exponent_field(brighter) >= 1);
            assert(greater >= 255 * 0x80_0000);
            let least: int = 255 * 0x80_0000int;
            lemma_rounding_keeps_order(least, greater);
            assert(nearest_even(least, spacing(least)) == least);
            assert(high >= 255 * 0x80_0000);
            assert(low <= 255 * 0x100_0000);
            vstd::arithmetic::power2::lemma_pow2_unfold((flat + 1) as nat);
            if deep > flat + 1 {
                lemma_pow2_strictly_increases((flat + 1) as nat, deep);
            }
            assert(pow2(deep) >= 2 * pow2(flat));
            vstd::arithmetic::power2::lemma_pow2_pos(flat);
            assert(low * pow2(flat) <= high * pow2(deep)) by (nonlinear_arith)
                requires
                    0 <= low <= 255 * 0x100_0000,
                    high >= 255 * 0x80_0000,
                    pow2(deep) >= 2 * pow2(flat),
                    pow2(flat) > 0,
            ;
        }
        lemma_level_keeps_order(low, scale(darker), high, scale(brighter));
    }
}

/// The ends of the unit interval: the sample zero is dark, the sample one
/// is full.
pub proof fn lemma_interval_ends()
    ensures
        intensity_of(0x0000_0000) == 0,
        intensity_of(0x3f80_0000) == 255,
{
    lemma2_to64_rest();
    let product = 255 * significand(0x0000_0000);
    assert(product == 0);
    assert(nearest_even(0, 1) == 0);
    assert(pow2(149) > 0) by {
        vstd::arithmetic::power2::lemma_pow2_pos(149);
    }
    let unit = pow2(149) as int;
    assert((2 * 0 + unit) / (2 * unit) == 0) by (nonlinear_arith)
        requires
            unit > 0,
    ;
}

} // verus!
