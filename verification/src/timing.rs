//! Clock readings and the timing of open streams.
//!
//! Latencies and rates are IEEE-754 binary64 bit patterns: deciding whether one is
//! finite, negative or equal to another needs no arithmetic.
use vstd::prelude::*;

use crate::abi::{ABI_VERSION, AUDIO_INVALID_ARGUMENT, AUDIO_OK, AUDIO_PORTAUDIO_ERROR};
use crate::stats::{SharedStats, PA_INTERNAL_ERROR};

verus! {

/// A reading of the monotonic clock.
#[derive(Clone, Copy, Debug, PartialEq, Eq)]
pub struct Timespec {
    pub seconds: i64,
    pub nanoseconds: i64,
}

/// The nanoseconds of a clock reading, or zero where the reading failed with `code`.
pub fn monotonic_ns(code: i32, time: Timespec) -> (now: u64)
    requires
        code == 0 ==> (time.seconds as u64) * 1_000_000_000 + (time.nanoseconds as u64)
            <= u64::MAX,
    ensures
        code != 0 ==> now == 0,
        code == 0 ==> now == (time.seconds as u64) * 1_000_000_000 + (time.nanoseconds as u64),
{
    if code != 0 {
        return 0;
    }
    time.seconds as u64 * 1_000_000_000 + time.nanoseconds as u64
}

/// The sign bit of a binary64 pattern.
pub const SIGN_BIT: u64 = 0x8000_0000_0000_0000;

/// The bits of a binary64 pattern that hold its magnitude.
pub const MAGNITUDE_BITS: u64 = 0x7fff_ffff_ffff_ffff;

/// The binary64 pattern of infinity; larger magnitudes are no numbers.
pub const INFINITY: u64 = 0x7ff0_0000_0000_0000;

/// Size in bytes of the C timing structure.
pub const STREAM_TIMING_SIZE: u32 = 32;

/// The pattern is a finite number.
pub open spec fn is_finite(bits: u64) -> bool {
    bits & MAGNITUDE_BITS < INFINITY
}

/// The finite number is less than zero. Negative zero is not.
pub open spec fn is_negative(bits: u64) -> bool {
    bits & SIGN_BIT != 0 && bits & MAGNITUDE_BITS != 0
}

/// The finite number is greater than zero.
pub open spec fn is_positive(bits: u64) -> bool {
    bits & SIGN_BIT == 0 && bits & MAGNITUDE_BITS != 0
}

/// What PortAudio reports of one open stream.
#[derive(Clone, Copy, Debug, PartialEq, Eq)]
pub struct StreamInfo {
    pub struct_version: i32,
    pub input_latency: u64,
    pub output_latency: u64,
    pub sample_rate: u64,
}

/// The timing of a stream in the field order of the C structure.
#[derive(Clone, Copy, Debug, PartialEq, Eq)]
pub struct StreamTiming {
    pub struct_size: u32,
    pub abi_version: u32,
    pub input_latency_seconds: u64,
    pub output_latency_seconds: u64,
    pub sample_rate_hz: u64,
}

impl StreamTiming {
    /// A structure of which only the caller's size is set.
    pub open spec fn cleared(struct_size: u32) -> StreamTiming {
        StreamTiming {
            struct_size,
            abi_version: 0,
            input_latency_seconds: 0,
            output_latency_seconds: 0,
            sample_rate_hz: 0,
        }
    }
}

/// Both endpoints report finite, nonnegative latencies and the same positive rate.
///
/// The host API leaves the version at zero for valid timing; only a negative version is
/// malformed.
pub open spec fn timing_is_sound(playback: StreamInfo, capture: StreamInfo) -> bool {
    &&& playback.struct_version >= 0
    &&& capture.struct_version >= 0
    &&& is_finite(capture.input_latency) && !is_negative(capture.input_latency)
    &&& is_finite(playback.output_latency) && !is_negative(playback.output_latency)
    &&& is_finite(capture.sample_rate) && is_positive(capture.sample_rate)
    &&& playback.sample_rate == capture.sample_rate
}

/// Clears the caller's structure and checks its size, before PortAudio is asked.
pub fn stream_timing_begin(timing: &mut StreamTiming) -> (code: i32)
    ensures
        *final(timing) == StreamTiming::cleared(old(timing).struct_size),
        code == if old(timing).struct_size < STREAM_TIMING_SIZE {
            AUDIO_INVALID_ARGUMENT
        } else {
            AUDIO_OK
        },
{
    *timing = StreamTiming {
        struct_size: timing.struct_size,
        abi_version: 0,
        input_latency_seconds: 0,
        output_latency_seconds: 0,
        sample_rate_hz: 0,
    };
    if timing.struct_size < STREAM_TIMING_SIZE {
        AUDIO_INVALID_ARGUMENT
    } else {
        AUDIO_OK
    }
}

fn finite(bits: u64) -> (result: bool)
    ensures
        result == is_finite(bits),
{
    bits & MAGNITUDE_BITS < INFINITY
}

fn negative(bits: u64) -> (result: bool)
    ensures
        result == is_negative(bits),
{
    bits & SIGN_BIT != 0 && bits & MAGNITUDE_BITS != 0
}

/// Fills a cleared structure with the timing of both endpoints.
///
/// A missing or malformed report is recorded as a device error and leaves the
/// structure cleared.
pub fn stream_get_timing(
    timing: &mut StreamTiming,
    stats: &mut SharedStats,
    playback: Option<StreamInfo>,
    capture: Option<StreamInfo>,
) -> (code: i32)
    ensures
        match (playback, capture) {
            (Some(playback), Some(capture)) if timing_is_sound(playback, capture) => {
                &&& code == AUDIO_OK
                &&& *final(stats) == *old(stats)
                &&& *final(timing) == (StreamTiming {
                    struct_size: old(timing).struct_size,
                    abi_version: ABI_VERSION,
                    input_latency_seconds: capture.input_latency,
                    output_latency_seconds: playback.output_latency,
                    sample_rate_hz: playback.sample_rate,
                })
            },
            _ => {
                &&& code == AUDIO_PORTAUDIO_ERROR
                &&& *final(stats) == old(stats).error_recorded(PA_INTERNAL_ERROR)
                &&& *final(timing) == *old(timing)
            },
        },
{
    match (playback, capture) {
        (Some(playback), Some(capture)) => {
            if playback.struct_version >= 0 && capture.struct_version >= 0 && finite(
                capture.input_latency,
            ) && finite(playback.output_latency) && finite(capture.sample_rate) && !negative(
                capture.input_latency,
            ) && !negative(playback.output_latency) && capture.sample_rate & SIGN_BIT == 0
                && capture.sample_rate & MAGNITUDE_BITS != 0 && playback.sample_rate
                == capture.sample_rate {
                timing.abi_version = ABI_VERSION;
                timing.input_latency_seconds = capture.input_latency;
                timing.output_latency_seconds = playback.output_latency;
                timing.sample_rate_hz = playback.sample_rate;
                return AUDIO_OK;
            }
        },
        _ => {},
    }
    stats.record_portaudio_error(PA_INTERNAL_ERROR);
    AUDIO_PORTAUDIO_ERROR
}

/// The tests on bit patterns are those on the numbers they stand for: a pattern up to that of
/// infinity is nonnegative and finite below it, the patterns with the sign bit mirror these,
/// and negative zero is neither negative nor positive.
pub proof fn law_patterns_are_ordered(bits: u64)
    ensures
        is_finite(bits) <==> bits < 0x7ff0_0000_0000_0000 || 0x8000_0000_0000_0000 <= bits
            < 0xfff0_0000_0000_0000,
        is_negative(bits) <==> bits > 0x8000_0000_0000_0000,
        is_positive(bits) <==> 0 < bits < 0x8000_0000_0000_0000,
{
    assert((bits & 0x7fff_ffff_ffff_ffff) < 0x7ff0_0000_0000_0000u64 <==> bits
        < 0x7ff0_0000_0000_0000 || 0x8000_0000_0000_0000 <= bits && bits
        < 0xfff0_0000_0000_0000) by (bit_vector);
    assert(bits & 0x8000_0000_0000_0000 != 0 && bits & 0x7fff_ffff_ffff_ffff != 0 <==> bits
        > 0x8000_0000_0000_0000) by (bit_vector);
    assert(bits & 0x8000_0000_0000_0000 == 0 && bits & 0x7fff_ffff_ffff_ffff != 0 <==> 0 < bits
        && bits < 0x8000_0000_0000_0000) by (bit_vector);
}

/// Timing is reported exactly where the capture endpoint's input latency and the playback
/// endpoint's output latency are finite and not below zero, both run at the same rate, that
/// rate is finite and above zero, and neither report is malformed.
pub proof fn law_sound_timing(playback: StreamInfo, capture: StreamInfo)
    ensures
        timing_is_sound(playback, capture) <==> {
            &&& playback.struct_version >= 0 && capture.struct_version >= 0
            &&& capture.input_latency < 0x7ff0_0000_0000_0000 || capture.input_latency
                == 0x8000_0000_0000_0000
            &&& playback.output_latency < 0x7ff0_0000_0000_0000 || playback.output_latency
                == 0x8000_0000_0000_0000
            &&& 0 < capture.sample_rate < 0x7ff0_0000_0000_0000
            &&& playback.sample_rate == capture.sample_rate
        },
{
    law_patterns_are_ordered(capture.input_latency);
    law_patterns_are_ordered(playback.output_latency);
    law_patterns_are_ordered(capture.sample_rate);
}

/// A cleared structure has nothing but the caller's size.
pub proof fn law_cleared_timing(struct_size: u32)
    ensures
        ({
            let cleared = StreamTiming::cleared(struct_size);
            &&& cleared.struct_size == struct_size
            &&& cleared.abi_version == 0
            &&& cleared.input_latency_seconds == 0
            &&& cleared.output_latency_seconds == 0
            &&& cleared.sample_rate_hz == 0
        }),
{
}

} // verus!
