//! The mapping between native mixer steps and the public range from 0 to 999.
use vstd::prelude::*;

use crate::abi::{AUDIO_ALSA_ERROR, AUDIO_INVALID_ARGUMENT, AUDIO_UNSUPPORTED};

verus! {

/// The public level of a control at its native maximum.
pub const MIXER_NORMALIZED_MAXIMUM: u32 = 999;

/// `part` of `whole`, on a scale from zero to `scale`, rounded to the nearest integer.
pub open spec fn scaled(part: int, whole: int, scale: int) -> int {
    (part * scale + whole / 2) / whole
}

/// The public level of a native value within its range.
pub open spec fn normalized_level(value: int, minimum: int, maximum: int) -> int {
    scaled(value - minimum, maximum - minimum, MIXER_NORMALIZED_MAXIMUM as int)
}

/// The native value of a public level.
pub open spec fn native_steps(level: int, minimum: int, maximum: int) -> int {
    minimum + scaled(level, MIXER_NORMALIZED_MAXIMUM as int, maximum - minimum)
}

/// Rounding to the nearest keeps a part of the whole within the scale.
proof fn lemma_scaled_bounds(part: int, whole: int, scale: int)
    by (nonlinear_arith)
    requires
        0 <= part <= whole,
        0 < whole,
        0 <= scale,
    ensures
        0 <= scaled(part, whole, scale) <= scale,
        0 <= part * scale <= whole * scale,
{
}

/// The nearest integer is at most half a unit away.
proof fn lemma_scaled_is_nearest(part: int, whole: int, scale: int)
    requires
        0 < whole,
        0 <= part,
        0 <= scale,
    ensures
        2 * (scaled(part, whole, scale) * whole - part * scale) <= whole,
        2 * (part * scale - scaled(part, whole, scale) * whole) < whole,
{
    let sum = part * scale + whole / 2;
    vstd::arithmetic::div_mod::lemma_fundamental_div_mod(sum, whole);
    let q = sum / whole;
    assert(whole * q == q * whole) by (nonlinear_arith);
}

/// Converts a native value to its public level.
pub fn normalized_from_steps(value: i64, minimum: i64, maximum: i64) -> (level: Result<u32, i32>)
    ensures
        minimum >= maximum ==> level == Err::<u32, i32>(AUDIO_UNSUPPORTED),
        minimum < maximum && !(minimum <= value <= maximum) ==> level == Err::<u32, i32>(
            AUDIO_ALSA_ERROR,
        ),
        minimum < maximum && minimum <= value <= maximum ==> (level matches Ok(level)
            && level == normalized_level(value as int, minimum as int, maximum as int)),
{
    if minimum >= maximum {
        return Err(AUDIO_UNSUPPORTED);
    }
    if value < minimum || value > maximum {
        return Err(AUDIO_ALSA_ERROR);
    }
    let span: i128 = maximum as i128 - minimum as i128;
    let offset: i128 = value as i128 - minimum as i128;
    proof {
        lemma_scaled_bounds(offset as int, span as int, 999);
    }
    let normalized: i128 = (offset * 999 + span / 2) / span;
    Ok(normalized as u32)
}

/// Converts a public level to the native value it stands for.
pub fn steps_from_normalized(value: u32, minimum: i64, maximum: i64) -> (steps: Result<i64, i32>)
    ensures
        value > MIXER_NORMALIZED_MAXIMUM ==> steps == Err::<i64, i32>(AUDIO_INVALID_ARGUMENT),
        value <= MIXER_NORMALIZED_MAXIMUM && minimum >= maximum ==> steps == Err::<i64, i32>(
            AUDIO_UNSUPPORTED,
        ),
        value <= MIXER_NORMALIZED_MAXIMUM && minimum < maximum ==> (steps matches Ok(steps)
            && steps == native_steps(value as int, minimum as int, maximum as int)),
{
    if value > MIXER_NORMALIZED_MAXIMUM {
        return Err(AUDIO_INVALID_ARGUMENT);
    }
    if minimum >= maximum {
        return Err(AUDIO_UNSUPPORTED);
    }
    let span: i128 = maximum as i128 - minimum as i128;
    proof {
        lemma_scaled_bounds(value as int, 999, span as int);
        assert(value * span <= 999 * 0x1_0000_0000_0000_0000) by (nonlinear_arith)
            requires
                0 <= value <= 999,
                0 <= span <= 0x1_0000_0000_0000_0000,
        ;
    }
    let offset: i128 = (value as i128 * span + 999 / 2) / 999;
    Ok((minimum as i128 + offset) as i64)
}

/// The ends of the two ranges correspond exactly: zero is the native minimum, and the
/// highest level is the native maximum.
pub proof fn law_endpoints_are_exact(minimum: int, maximum: int)
    requires
        minimum < maximum,
    ensures
        normalized_level(minimum, minimum, maximum) == 0,
        normalized_level(maximum, minimum, maximum) == MIXER_NORMALIZED_MAXIMUM,
        native_steps(0, minimum, maximum) == minimum,
        native_steps(MIXER_NORMALIZED_MAXIMUM as int, minimum, maximum) == maximum,
{
    let span = maximum - minimum;
    assert((0 * 999 + span / 2) / span == 0) by (nonlinear_arith)
        requires
            span > 0,
    ;
    assert((span * 999 + span / 2) / span == 999) by (nonlinear_arith)
        requires
            span > 0,
    ;
    assert((0 * span + 999int / 2) / 999int == 0) by (nonlinear_arith);
    assert((999 * span + 999int / 2) / 999int == span) by (nonlinear_arith);
}

/// Neither conversion leaves its range.
pub proof fn law_conversions_stay_in_range(value: int, level: int, minimum: int, maximum: int)
    requires
        minimum < maximum,
        minimum <= value <= maximum,
        0 <= level <= MIXER_NORMALIZED_MAXIMUM,
    ensures
        0 <= normalized_level(value, minimum, maximum) <= MIXER_NORMALIZED_MAXIMUM,
        minimum <= native_steps(level, minimum, maximum) <= maximum,
{
    lemma_scaled_bounds(value - minimum, maximum - minimum, 999);
    lemma_scaled_bounds(level, 999, maximum - minimum);
}

/// A louder native value never has a lower level, and a higher level never stands for a
/// quieter native value.
pub proof fn law_conversions_are_monotone(low: int, high: int, minimum: int, maximum: int)
    requires
        minimum < maximum,
        low <= high,
    ensures
        normalized_level(low, minimum, maximum) <= normalized_level(high, minimum, maximum),
        native_steps(low, minimum, maximum) <= native_steps(high, minimum, maximum),
{
    let span = maximum - minimum;
    let first = (low - minimum) * 999 + span / 2;
    let second = (high - minimum) * 999 + span / 2;
    vstd::arithmetic::div_mod::lemma_div_is_ordered(first, second, span);
    assert(low * span <= high * span) by (nonlinear_arith)
        requires
            low <= high,
            span > 0,
    ;
    vstd::arithmetic::div_mod::lemma_div_is_ordered(
        low * span + 999int / 2,
        high * span + 999int / 2,
        999,
    );
}

/// A control with at most as many steps as there are levels loses nothing: each native
/// value survives the way to its level and back.
pub proof fn law_steps_survive_the_round_trip(value: int, minimum: int, maximum: int)
    requires
        minimum < maximum,
        minimum <= value <= maximum,
        maximum - minimum <= MIXER_NORMALIZED_MAXIMUM,
    ensures
        native_steps(normalized_level(value, minimum, maximum), minimum, maximum) == value,
{
    let span = maximum - minimum;
    let part = value - minimum;
    let level = normalized_level(value, minimum, maximum);
    lemma_scaled_is_nearest(part, span, 999);
    lemma_scaled_bounds(part, span, 999);
    lemma_scaled_is_nearest(level, 999, span);
    let back = scaled(level, 999, span);
    assert(back == part) by (nonlinear_arith)
        requires
            2 * (level * span - part * 999) <= span,
            2 * (part * 999 - level * span) < span + 1,
            2 * (back * 999 - level * span) <= 999,
            2 * (level * span - back * 999) < 999 + 1,
            0 < span <= 999,
    ;
}

/// A control with at least as many steps as there are levels tells all levels apart:
/// each level survives the way to its native value and back.
pub proof fn law_levels_survive_the_round_trip(level: int, minimum: int, maximum: int)
    requires
        0 <= level <= MIXER_NORMALIZED_MAXIMUM,
        maximum - minimum >= MIXER_NORMALIZED_MAXIMUM,
    ensures
        normalized_level(native_steps(level, minimum, maximum), minimum, maximum) == level,
{
    let span = maximum - minimum;
    let part = scaled(level, 999, span);
    lemma_scaled_is_nearest(level, 999, span);
    lemma_scaled_bounds(level, 999, span);
    lemma_scaled_is_nearest(part, span, 999);
    let back = scaled(part, span, 999);
    assert(back == level) by (nonlinear_arith)
        requires
            2 * (part * 999 - level * span) <= 999,
            2 * (level * span - part * 999) < 999 + 1,
            2 * (back * span - part * 999) <= span,
            2 * (part * 999 - back * span) < span + 1,
            span >= 999,
    ;
}

/// Both conversions are proportional, to the nearest integer, on every range: a level is
/// within half a level of the value's place in the range, a native value within half a step
/// of the level's place on the scale, and what lies halfway is rounded up.
pub proof fn law_conversions_are_proportional(value: int, level: int, minimum: int, maximum: int)
    requires
        minimum < maximum,
        minimum <= value <= maximum,
        0 <= level <= 999,
    ensures
        2 * (normalized_level(value, minimum, maximum) * (maximum - minimum) - 999 * (value
            - minimum)) <= maximum - minimum,
        2 * (999 * (value - minimum) - normalized_level(value, minimum, maximum) * (maximum
            - minimum)) < maximum - minimum,
        2 * (999 * (native_steps(level, minimum, maximum) - minimum) - level * (maximum
            - minimum)) <= 999,
        2 * (level * (maximum - minimum) - 999 * (native_steps(level, minimum, maximum)
            - minimum)) < 999,
{
    lemma_scaled_is_nearest(value - minimum, maximum - minimum, 999);
    lemma_scaled_is_nearest(level, 999, maximum - minimum);
}

} // verus!
