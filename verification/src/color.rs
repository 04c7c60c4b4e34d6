//! The rules on colours: how a channel becomes a byte of a pixel, and
//! which ratios a colour may be darkened or mixed by.
//!
//! A colour's channels are not bounded while light is gathered.  Only the
//! conversion to a pixel cuts them off.

use vstd::prelude::*;
use vstd::arithmetic::power2::pow2;
use crate::single::{
    at_most,
    exponent,
    is_nan,
    is_rounded,
    is_signed,
    le,
    lemma_one,
    lemma_order_is_by_value,
    less,
    lt,
    nan,
    scale,
    significand,
    units,
    ONE,
    SIGN,
    ZERO,
};

verus! {

/// The alpha byte of every pixel: fully opaque.
pub const OPAQUE: u8 = 0xff;

/// The pattern of 1.001, rounded to single precision: the greatest ratio
/// that is taken for one.
pub const MAX_RATIO: u32 = 0x3f80_20c5;

/// The value of a channel cut off to the range from zero to one, in units
/// of `2^-149`, of which one holds `2^149`.
pub open spec fn clamped_units(channel: u32) -> int {
    if is_signed(channel) {
        0
    } else if channel >= ONE {
        pow2(149) as int
    } else {
        units(channel)
    }
}

/// The byte that shows a channel: the channel is cut off to the range
/// from zero to one and multiplied by 255, and what follows the point is
/// dropped.  A channel that is no number shows as zero.
pub open spec fn level_of(channel: u32) -> int {
    if is_nan(channel) {
        0
    } else {
        255 * clamped_units(channel) / (pow2(149) as int)
    }
}

/// The four bytes of a pixel that shows a colour: red, green, blue, and an
/// alpha that is always opaque.
pub open spec fn pixel_of(channels: [u32; 3]) -> Seq<u8> {
    seq![
        level_of(channels[0]) as u8,
        level_of(channels[1]) as u8,
        level_of(channels[2]) as u8,
        OPAQUE,
    ]
}

/// Whether a colour may be darkened or mixed by `ratio`: it is a number
/// from zero to `MAX_RATIO`.
pub open spec fn is_ratio(ratio: u32) -> bool {
    at_most(ZERO, ratio) && at_most(ratio, MAX_RATIO)
}

/// A ratio cut off at one.
pub open spec fn clamped(ratio: u32) -> u32 {
    if less(ONE, ratio) {
        ONE
    } else {
        ratio
    }
}

/// The byte that shows a channel of a colour.
pub fn channel_level(channel: u32) -> (level: u8)
    ensures
        level == level_of(channel),
{
    if nan(channel) {
        return 0;
    }
    proof {
        vstd::arithmetic::power2::lemma_pow2_pos(149);
    }
    if channel >= SIGN {
        return 0;
    }
    if channel >= ONE {
        proof {
            vstd::arithmetic::div_mod::lemma_div_by_multiple(255, pow2(149) as int);
        }
        return 255;
    }
    proof {
        lemma_level_by_significand(channel);
    }
    let field = channel / 0x80_0000;
    assert(field == exponent(channel));
    assert(field <= 126);
    proof {
        vstd::arithmetic::power2::lemma2_to64();
    }
    if field < 119 {
        proof {
            let k = scale(channel);
            assert(k >= 32);
            if k > 32 {
                vstd::arithmetic::power2::lemma_pow2_strictly_increases(32, k);
            }
            assert(255 * significand(channel) < pow2(k));
            vstd::arithmetic::div_mod::lemma_basic_div(
                255 * significand(channel),
                pow2(k) as int,
            );
        }
        return 0;
    }
    let numerator: u64 = 0x80_0000 + (channel % 0x80_0000) as u64;
    let shift: u64 = 150 - field as u64;
    let product: u64 = 255 * numerator;
    proof {
        assert(numerator == significand(channel));
        assert(shift == scale(channel));
        vstd::bits::lemma_u64_shr_is_div(product, shift);
        vstd::arithmetic::power2::lemma_pow2_strictly_increases(23, shift as nat);
        assert(pow2(shift as nat) >= 0x100_0000) by {
            if shift > 24 {
                vstd::arithmetic::power2::lemma_pow2_strictly_increases(24, shift as nat);
            }
        }
        assert(product as int / (pow2(shift as nat) as int) <= product as int / 0x100_0000) by {
            vstd::arithmetic::div_mod::lemma_div_is_ordered_by_denominator(
                product as int,
                0x100_0000,
                pow2(shift as nat) as int,
            );
        }
    }
    (product >> shift) as u8
}

/// The four bytes of the pixel that shows a colour, given as its red, green
/// and blue channels.
pub fn to_pixel_color(channels: [u32; 3]) -> (pixel: [u8; 4])
    ensures
        pixel@ == pixel_of(channels),
{
    let pixel = [
        channel_level(channels[0]),
        channel_level(channels[1]),
        channel_level(channels[2]),
        OPAQUE,
    ];
    assert(pixel@ =~= pixel_of(channels));
    pixel
}

/// The ratio by which a colour is darkened or mixed: `ratio` cut off at one.
/// Returns `None` when `ratio` is no ratio: below zero, above `MAX_RATIO`,
/// or no number.
pub fn ratio(given: u32) -> (r: Option<u32>)
    ensures
        r is Some <==> is_ratio(given),
        r matches Some(cut) ==> cut == clamped(given) && at_most(ZERO, cut) && at_most(cut, ONE),
{
    if le(ZERO, given) && le(given, MAX_RATIO) {
        if lt(ONE, given) {
            Some(ONE)
        } else {
            Some(given)
        }
    } else {
        None
    }
}

/// `MAX_RATIO` is 1.001, rounded to single precision.
pub proof fn lemma_max_ratio()
    ensures
        is_rounded(MAX_RATIO, 1_001, 1_000),
{
    vstd::arithmetic::power2::lemma2_to64();
    assert(scale(MAX_RATIO) == 23);
    assert(significand(MAX_RATIO) == 8_396_997);
}

/// The byte of a channel from zero up to, but not including, one, by the
/// channel's significand: `255 * significand / 2^scale`, rounded down.
proof fn lemma_level_by_significand(channel: u32)
    requires
        channel < ONE,
    ensures
        level_of(channel) == 255 * significand(channel) / (pow2(scale(channel)) as int),
{
    let shift = (if exponent(channel) == 0 {
        0
    } else {
        exponent(channel) - 1
    }) as nat;
    let k = scale(channel);
    let s = significand(channel);
    let p = pow2(shift) as int;
    let d = pow2(k) as int;
    vstd::arithmetic::power2::lemma_pow2_pos(shift);
    vstd::arithmetic::power2::lemma_pow2_pos(k);
    vstd::arithmetic::power2::lemma_pow2_adds(shift, k);
    assert(shift + k == 149);
    assert(units(channel) == s * p);
    assert(255 * (s * p) == p * (255 * s)) by (nonlinear_arith);
    assert(pow2(149) == p * d) by (nonlinear_arith)
        requires
            pow2(149) == pow2(shift) * pow2(k),
            p == pow2(shift),
            d == pow2(k),
    ;
    vstd::arithmetic::div_mod::lemma_div_multiples_vanish_quotient(p, 255 * s, d);
}

/// A brighter channel never shows darker: the byte grows with the channel.
/// And every channel shows as a byte.
pub proof fn lemma_level_monotonic(a: u32, b: u32)
    requires
        at_most(a, b),
    ensures
        level_of(a) <= level_of(b),
        0 <= level_of(a) <= 255,
        0 <= level_of(b) <= 255,
{
    lemma_clamped_bounded(a);
    lemma_clamped_bounded(b);
    lemma_one();
    vstd::arithmetic::power2::lemma_pow2_pos(149);
    let one = pow2(149) as int;
    assert(clamped_units(a) <= clamped_units(b)) by {
        if !is_signed(a) && a < ONE && !is_signed(b) && b < ONE {
            lemma_order_is_by_value(a, b);
        }
    }
    lemma_level_bounded(a);
    lemma_level_bounded(b);
    vstd::arithmetic::div_mod::lemma_div_is_ordered(
        255 * clamped_units(a),
        255 * clamped_units(b),
        one,
    );
}

/// Every channel shows as a byte, and only a channel that is at least one
/// shows as 255.
pub proof fn lemma_level_bounded(channel: u32)
    ensures
        0 <= level_of(channel) <= 255,
        level_of(channel) == 255 <==> at_most(ONE, channel),
{
    lemma_clamped_bounded(channel);
    lemma_one();
    vstd::arithmetic::power2::lemma_pow2_pos(149);
    let one = pow2(149) as int;
    let c = clamped_units(channel);
    vstd::arithmetic::div_mod::lemma_div_by_multiple(255, one);
    vstd::arithmetic::div_mod::lemma_div_is_ordered(0, 255 * c, one);
    vstd::arithmetic::div_mod::lemma_div_is_ordered(255 * c, 255 * one, one);
    assert(0int / one == 0);
    if c < one {
        vstd::arithmetic::div_mod::lemma_div_by_multiple_is_strongly_ordered(
            255 * c,
            255 * one,
            255,
            one,
        );
    }
    if !is_nan(channel) && !is_signed(channel) && channel < ONE {
        lemma_order_is_by_value(channel, ONE);
    }
}

proof fn lemma_clamped_bounded(channel: u32)
    ensures
        0 <= clamped_units(channel) <= pow2(149),
        clamped_units(channel) == pow2(149) <==> !is_signed(channel) && channel >= ONE,
{
    lemma_one();
    vstd::arithmetic::power2::lemma_pow2_pos(149);
    if !is_signed(channel) && channel < ONE {
        lemma_order_is_by_value(channel, ONE);
        lemma_order_is_by_value(ZERO, channel);
    }
}

} // verus!
