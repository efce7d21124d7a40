//! Counters that the two audio callbacks and the control plane share.
//!
//! Levels are IEEE-754 binary32 bit patterns: the library orders and copies them
//! and leaves floating-point arithmetic to its caller.
use vstd::prelude::*;

use crate::abi::{ABI_VERSION, AUDIO_INVALID_ARGUMENT};
use crate::capture_ring::CaptureSnapshot;

verus! {

/// PortAudio's code for success.
pub const PA_NO_ERROR: i32 = 0;

/// PortAudio's code for an internal failure; also reported for scheduling failures.
pub const PA_INTERNAL_ERROR: i32 = -9986;

/// Callback flag: input samples were lost before this callback.
pub const PA_INPUT_OVERFLOW: u64 = 0x0000_0002;

/// Callback flag: the output ran dry before this callback.
pub const PA_OUTPUT_UNDERFLOW: u64 = 0x0000_0004;

/// Start delays up to this many nanoseconds are ordinary arrival jitter.
pub const CALLBACK_LATE_TOLERANCE_NS: u64 = 1_000_000;

/// Size of the first published statistics structure.
pub const STREAM_STATS_V1_SIZE: u32 = 144;

/// Size of the statistics structure that ends with the callback timing fields.
pub const STREAM_STATS_TIMING_SIZE: u32 = 216;

/// Size of the current statistics structure.
pub const STREAM_STATS_SIZE: u32 = 264;

/// Statistics of one stream. Every counter wraps at `u64::MAX`.
#[derive(Clone, Copy, Debug, PartialEq, Eq)]
pub struct SharedStats {
    pub capture_callback_count: u64,
    pub callback_count: u64,
    pub callback_frame_count: u64,
    pub oversized_callback_count: u64,
    pub native_tick_failure_count: u64,
    pub input_overflow_count: u64,
    pub output_underflow_count: u64,
    pub device_error_count: u64,
    pub input_clip_sample_count: u64,
    pub output_clip_sample_count: u64,
    pub input_peak_bits: u32,
    pub input_rms_bits: u32,
    pub output_peak_bits: u32,
    pub output_rms_bits: u32,
    pub last_portaudio_error: i32,
    pub callback_last_duration_ns: u64,
    pub callback_max_duration_ns: u64,
    pub callback_last_start_delay_ns: u64,
    pub callback_max_start_delay_ns: u64,
    pub callback_late_start_count: u64,
    pub last_input_xrun_monotonic_ns: u64,
    pub last_output_xrun_monotonic_ns: u64,
    pub callback_clock_error_count: u64,
    pub previous_callback_start_ns: u64,
    pub previous_callback_period_ns: u64,
}

/// A counter after one more event.
pub open spec fn counted(count: u64) -> u64 {
    if count == u64::MAX {
        0
    } else {
        (count + 1) as u64
    }
}

/// The larger of two readings.
pub open spec fn larger(a: u64, b: u64) -> u64 {
    if a < b {
        b
    } else {
        a
    }
}

/// How far a callback started after the previous block's audio had run out.
///
/// Without a previous start, or after a block of no duration, there is nothing to
/// be late against.
pub open spec fn start_delay(previous: u64, period: u64, now: u64) -> u64 {
    if previous == 0 || period == 0 || now <= previous + period {
        0
    } else {
        (now - previous - period) as u64
    }
}

impl Default for SharedStats {
    fn default() -> (stats: Self)
        ensures
            stats == SharedStats::zero(),
    {
        SharedStats {
            capture_callback_count: 0,
            callback_count: 0,
            callback_frame_count: 0,
            oversized_callback_count: 0,
            native_tick_failure_count: 0,
            input_overflow_count: 0,
            output_underflow_count: 0,
            device_error_count: 0,
            input_clip_sample_count: 0,
            output_clip_sample_count: 0,
            input_peak_bits: 0,
            input_rms_bits: 0,
            output_peak_bits: 0,
            output_rms_bits: 0,
            last_portaudio_error: 0,
            callback_last_duration_ns: 0,
            callback_max_duration_ns: 0,
            callback_last_start_delay_ns: 0,
            callback_max_start_delay_ns: 0,
            callback_late_start_count: 0,
            last_input_xrun_monotonic_ns: 0,
            last_output_xrun_monotonic_ns: 0,
            callback_clock_error_count: 0,
            previous_callback_start_ns: 0,
            previous_callback_period_ns: 0,
        }
    }
}

impl SharedStats {
    /// Statistics of a stream on which nothing has happened.
    pub open spec fn zero() -> SharedStats {
        SharedStats {
            capture_callback_count: 0,
            callback_count: 0,
            callback_frame_count: 0,
            oversized_callback_count: 0,
            native_tick_failure_count: 0,
            input_overflow_count: 0,
            output_underflow_count: 0,
            device_error_count: 0,
            input_clip_sample_count: 0,
            output_clip_sample_count: 0,
            input_peak_bits: 0,
            input_rms_bits: 0,
            output_peak_bits: 0,
            output_rms_bits: 0,
            last_portaudio_error: 0,
            callback_last_duration_ns: 0,
            callback_max_duration_ns: 0,
            callback_last_start_delay_ns: 0,
            callback_max_start_delay_ns: 0,
            callback_late_start_count: 0,
            last_input_xrun_monotonic_ns: 0,
            last_output_xrun_monotonic_ns: 0,
            callback_clock_error_count: 0,
            previous_callback_start_ns: 0,
            previous_callback_period_ns: 0,
        }
    }

    /// The latest readings never exceed the recorded maxima.
    pub open spec fn extrema_ordered(self) -> bool {
        &&& self.callback_last_duration_ns <= self.callback_max_duration_ns
        &&& self.callback_last_start_delay_ns <= self.callback_max_start_delay_ns
    }

    /// The statistics after a capture overflow that was dated `now`.
    pub open spec fn capture_overflow_dated(self, now: u64) -> SharedStats {
        if now != 0 {
            SharedStats { last_input_xrun_monotonic_ns: now, ..self }
        } else {
            SharedStats {
                callback_clock_error_count: counted(self.callback_clock_error_count),
                ..self
            }
        }
    }

    /// The statistics after a playback callback started at `now`.
    ///
    /// `period_ns` is the audio duration of the block that starts; the delay is
    /// measured against the duration of the block before it. A failed clock reading
    /// (`now` zero) only forgets the previous start.
    pub open spec fn begun(self, now: u64, period_ns: u64, flags: u64) -> SharedStats {
        if now == 0 {
            SharedStats {
                callback_clock_error_count: counted(self.callback_clock_error_count),
                previous_callback_start_ns: 0,
                ..self
            }
        } else {
            let delay = start_delay(
                self.previous_callback_start_ns,
                self.previous_callback_period_ns,
                now,
            );
            SharedStats {
                previous_callback_start_ns: now,
                previous_callback_period_ns: period_ns,
                callback_last_start_delay_ns: delay,
                callback_max_start_delay_ns: larger(self.callback_max_start_delay_ns, delay),
                callback_late_start_count: if delay > CALLBACK_LATE_TOLERANCE_NS {
                    counted(self.callback_late_start_count)
                } else {
                    self.callback_late_start_count
                },
                last_input_xrun_monotonic_ns: if flags & PA_INPUT_OVERFLOW != 0 {
                    now
                } else {
                    self.last_input_xrun_monotonic_ns
                },
                last_output_xrun_monotonic_ns: if flags & PA_OUTPUT_UNDERFLOW != 0 {
                    now
                } else {
                    self.last_output_xrun_monotonic_ns
                },
                ..self
            }
        }
    }

    /// The statistics after a callback that ran from `start` to `end`.
    ///
    /// Zero stands for a failed clock reading; a clock that ran backwards counts as
    /// no time at all.
    pub open spec fn ended(self, start: u64, end: u64) -> SharedStats {
        if end == 0 {
            SharedStats {
                callback_clock_error_count: counted(self.callback_clock_error_count),
                ..self
            }
        } else if start == 0 {
            self
        } else {
            let duration = if end > start {
                (end - start) as u64
            } else {
                0
            };
            SharedStats {
                callback_last_duration_ns: duration,
                callback_max_duration_ns: larger(self.callback_max_duration_ns, duration),
                ..self
            }
        }
    }

    /// The statistics after PortAudio or the scheduler reported `error`.
    pub open spec fn error_recorded(self, error: i32) -> SharedStats {
        SharedStats {
            last_portaudio_error: error,
            device_error_count: counted(self.device_error_count),
            ..self
        }
    }

    /// The statistics after a device failure without a PortAudio code.
    pub open spec fn device_error_counted(self) -> SharedStats {
        SharedStats { device_error_count: counted(self.device_error_count), ..self }
    }

    /// The statistics with no start to measure the next callback against.
    pub open spec fn arrival_forgotten(self) -> SharedStats {
        SharedStats { previous_callback_start_ns: 0, previous_callback_period_ns: 0, ..self }
    }

    /// Dates an input overflow that the capture callback reported.
    pub fn record_capture_overflow_timestamp(&mut self, now: u64)
        ensures
            *final(self) == old(self).capture_overflow_dated(now),
    {
        if now != 0 {
            self.last_input_xrun_monotonic_ns = now;
        } else {
            self.callback_clock_error_count = self.callback_clock_error_count.wrapping_add(1);
        }
    }

    /// Measures the arrival of a playback callback against the previous block's
    /// audio duration.
    pub fn callback_begin(&mut self, now: u64, period_ns: u64, flags: u64)
        ensures
            *final(self) == old(self).begun(now, period_ns, flags),
    {
        if now == 0 {
            self.callback_clock_error_count = self.callback_clock_error_count.wrapping_add(1);
            self.previous_callback_start_ns = 0;
            return ;
        }
        let previous: u64 = self.previous_callback_start_ns;
        let period: u64 = self.previous_callback_period_ns;
        self.previous_callback_start_ns = now;
        self.previous_callback_period_ns = period_ns;
        let delay: u64 = if previous == 0 || period == 0 {
            0
        } else {
            now.saturating_sub(previous).saturating_sub(period)
        };
        self.callback_last_start_delay_ns = delay;
        if self.callback_max_start_delay_ns < delay {
            self.callback_max_start_delay_ns = delay;
        }
        if delay > CALLBACK_LATE_TOLERANCE_NS {
            self.callback_late_start_count = self.callback_late_start_count.wrapping_add(1);
        }
        if flags & PA_INPUT_OVERFLOW != 0 {
            self.last_input_xrun_monotonic_ns = now;
        }
        if flags & PA_OUTPUT_UNDERFLOW != 0 {
            self.last_output_xrun_monotonic_ns = now;
        }
    }

    /// Records the wall-clock duration of a callback.
    pub fn callback_end(&mut self, start: u64, end: u64)
        ensures
            *final(self) == old(self).ended(start, end),
    {
        if end == 0 {
            self.callback_clock_error_count = self.callback_clock_error_count.wrapping_add(1);
        }
        if start == 0 || end == 0 {
            return ;
        }
        let duration: u64 = end.saturating_sub(start);
        self.callback_last_duration_ns = duration;
        if self.callback_max_duration_ns < duration {
            self.callback_max_duration_ns = duration;
        }
    }

    /// Records a PortAudio error code.
    pub fn record_portaudio_error(&mut self, error: i32)
        ensures
            *final(self) == old(self).error_recorded(error),
    {
        self.last_portaudio_error = error;
        self.device_error_count = self.device_error_count.wrapping_add(1);
    }

    /// Counts a device failure that has no PortAudio code.
    pub fn count_device_error(&mut self)
        ensures
            *final(self) == old(self).device_error_counted(),
    {
        self.device_error_count = self.device_error_count.wrapping_add(1);
    }

    /// Forgets the last callback start, so that a stopped interval is not a delay.
    pub fn forget_arrival(&mut self)
        ensures
            *final(self) == old(self).arrival_forgotten(),
    {
        self.previous_callback_start_ns = 0;
        self.previous_callback_period_ns = 0;
    }

    /// Copies the statistics into a caller's structure.
    ///
    /// The caller's size, its padding and the capture-ring diagnostics stay as they
    /// were; the queue fields that no queue backs read zero.
    pub fn snapshot(&self, stats: &mut StreamStats)
        ensures
            *final(stats) == self.published(*old(stats)),
    {
        stats.abi_version = ABI_VERSION;
        stats.callback_count = self.callback_count;
        stats.callback_frame_count = self.callback_frame_count;
        stats.oversized_callback_count = self.oversized_callback_count;
        stats.native_tick_failure_count = self.native_tick_failure_count;
        stats.input_overflow_count = self.input_overflow_count;
        stats.output_underflow_count = self.output_underflow_count;
        stats.device_error_count = self.device_error_count;
        stats.input_queue_capacity_frames = 0;
        stats.input_queue_occupancy_frames = 0;
        stats.output_queue_capacity_frames = 0;
        stats.output_queue_occupancy_frames = 0;
        stats.output_queue_dropped_frame_count = 0;
        stats.input_clip_sample_count = self.input_clip_sample_count;
        stats.output_clip_sample_count = self.output_clip_sample_count;
        stats.input_peak_bits = self.input_peak_bits;
        stats.input_rms_bits = self.input_rms_bits;
        stats.output_peak_bits = self.output_peak_bits;
        stats.output_rms_bits = self.output_rms_bits;
        stats.last_portaudio_error = self.last_portaudio_error;
        stats.callback_last_duration_ns = self.callback_last_duration_ns;
        stats.callback_max_duration_ns = self.callback_max_duration_ns;
        stats.callback_last_start_delay_ns = self.callback_last_start_delay_ns;
        stats.callback_max_start_delay_ns = self.callback_max_start_delay_ns;
        stats.callback_late_start_count = self.callback_late_start_count;
        stats.callback_late_start_tolerance_ns = CALLBACK_LATE_TOLERANCE_NS;
        stats.last_input_xrun_monotonic_ns = self.last_input_xrun_monotonic_ns;
        stats.last_output_xrun_monotonic_ns = self.last_output_xrun_monotonic_ns;
        stats.callback_clock_error_count = self.callback_clock_error_count;
        stats.capture_callback_count = self.capture_callback_count;
    }

    /// `stats` with these statistics copied in.
    pub open spec fn published(self, stats: StreamStats) -> StreamStats {
        StreamStats {
            abi_version: ABI_VERSION,
            callback_count: self.callback_count,
            callback_frame_count: self.callback_frame_count,
            oversized_callback_count: self.oversized_callback_count,
            native_tick_failure_count: self.native_tick_failure_count,
            input_overflow_count: self.input_overflow_count,
            output_underflow_count: self.output_underflow_count,
            device_error_count: self.device_error_count,
            input_queue_capacity_frames: 0,
            input_queue_occupancy_frames: 0,
            output_queue_capacity_frames: 0,
            output_queue_occupancy_frames: 0,
            output_queue_dropped_frame_count: 0,
            input_clip_sample_count: self.input_clip_sample_count,
            output_clip_sample_count: self.output_clip_sample_count,
            input_peak_bits: self.input_peak_bits,
            input_rms_bits: self.input_rms_bits,
            output_peak_bits: self.output_peak_bits,
            output_rms_bits: self.output_rms_bits,
            last_portaudio_error: self.last_portaudio_error,
            callback_last_duration_ns: self.callback_last_duration_ns,
            callback_max_duration_ns: self.callback_max_duration_ns,
            callback_last_start_delay_ns: self.callback_last_start_delay_ns,
            callback_max_start_delay_ns: self.callback_max_start_delay_ns,
            callback_late_start_count: self.callback_late_start_count,
            callback_late_start_tolerance_ns: CALLBACK_LATE_TOLERANCE_NS,
            last_input_xrun_monotonic_ns: self.last_input_xrun_monotonic_ns,
            last_output_xrun_monotonic_ns: self.last_output_xrun_monotonic_ns,
            callback_clock_error_count: self.callback_clock_error_count,
            capture_callback_count: self.capture_callback_count,
            ..stats
        }
    }
}

/// One statistics snapshot in the field order of the C structure.
#[derive(Clone, Copy, Debug, PartialEq, Eq)]
pub struct StreamStats {
    pub struct_size: u32,
    pub abi_version: u32,
    pub callback_count: u64,
    pub callback_frame_count: u64,
    pub oversized_callback_count: u64,
    pub native_tick_failure_count: u64,
    pub input_overflow_count: u64,
    pub output_underflow_count: u64,
    pub device_error_count: u64,
    pub input_queue_capacity_frames: u64,
    pub input_queue_occupancy_frames: u64,
    pub output_queue_capacity_frames: u64,
    pub output_queue_occupancy_frames: u64,
    pub output_queue_dropped_frame_count: u64,
    pub input_clip_sample_count: u64,
    pub output_clip_sample_count: u64,
    pub input_peak_bits: u32,
    pub input_rms_bits: u32,
    pub output_peak_bits: u32,
    pub output_rms_bits: u32,
    pub last_portaudio_error: i32,
    pub alignment_padding: u32,
    pub callback_last_duration_ns: u64,
    pub callback_max_duration_ns: u64,
    pub callback_last_start_delay_ns: u64,
    pub callback_max_start_delay_ns: u64,
    pub callback_late_start_count: u64,
    pub callback_late_start_tolerance_ns: u64,
    pub last_input_xrun_monotonic_ns: u64,
    pub last_output_xrun_monotonic_ns: u64,
    pub callback_clock_error_count: u64,
    pub capture_callback_count: u64,
    pub capture_ring_target_frames: u64,
    pub capture_ring_ratio_correction_ppm: i64,
    pub capture_ring_missing_frames: u64,
    pub capture_ring_dropped_frames: u64,
    pub capture_startup_wait_frames: u64,
}

impl StreamStats {
    /// An empty snapshot for a caller that owns `struct_size` bytes.
    pub open spec fn empty(struct_size: u32) -> StreamStats {
        StreamStats {
            struct_size,
            abi_version: 0,
            callback_count: 0,
            callback_frame_count: 0,
            oversized_callback_count: 0,
            native_tick_failure_count: 0,
            input_overflow_count: 0,
            output_underflow_count: 0,
            device_error_count: 0,
            input_queue_capacity_frames: 0,
            input_queue_occupancy_frames: 0,
            output_queue_capacity_frames: 0,
            output_queue_occupancy_frames: 0,
            output_queue_dropped_frame_count: 0,
            input_clip_sample_count: 0,
            output_clip_sample_count: 0,
            input_peak_bits: 0,
            input_rms_bits: 0,
            output_peak_bits: 0,
            output_rms_bits: 0,
            last_portaudio_error: 0,
            alignment_padding: 0,
            callback_last_duration_ns: 0,
            callback_max_duration_ns: 0,
            callback_last_start_delay_ns: 0,
            callback_max_start_delay_ns: 0,
            callback_late_start_count: 0,
            callback_late_start_tolerance_ns: 0,
            last_input_xrun_monotonic_ns: 0,
            last_output_xrun_monotonic_ns: 0,
            callback_clock_error_count: 0,
            capture_callback_count: 0,
            capture_ring_target_frames: 0,
            capture_ring_ratio_correction_ppm: 0,
            capture_ring_missing_frames: 0,
            capture_ring_dropped_frames: 0,
            capture_startup_wait_frames: 0,
        }
    }

    /// Creates an empty snapshot for a caller that owns `struct_size` bytes.
    pub fn new(struct_size: u32) -> (stats: StreamStats)
        ensures
            stats == StreamStats::empty(struct_size),
    {
        StreamStats {
            struct_size,
            abi_version: 0,
            callback_count: 0,
            callback_frame_count: 0,
            oversized_callback_count: 0,
            native_tick_failure_count: 0,
            input_overflow_count: 0,
            output_underflow_count: 0,
            device_error_count: 0,
            input_queue_capacity_frames: 0,
            input_queue_occupancy_frames: 0,
            output_queue_capacity_frames: 0,
            output_queue_occupancy_frames: 0,
            output_queue_dropped_frame_count: 0,
            input_clip_sample_count: 0,
            output_clip_sample_count: 0,
            input_peak_bits: 0,
            input_rms_bits: 0,
            output_peak_bits: 0,
            output_rms_bits: 0,
            last_portaudio_error: 0,
            alignment_padding: 0,
            callback_last_duration_ns: 0,
            callback_max_duration_ns: 0,
            callback_last_start_delay_ns: 0,
            callback_max_start_delay_ns: 0,
            callback_late_start_count: 0,
            callback_late_start_tolerance_ns: 0,
            last_input_xrun_monotonic_ns: 0,
            last_output_xrun_monotonic_ns: 0,
            callback_clock_error_count: 0,
            capture_callback_count: 0,
            capture_ring_target_frames: 0,
            capture_ring_ratio_correction_ppm: 0,
            capture_ring_missing_frames: 0,
            capture_ring_dropped_frames: 0,
            capture_startup_wait_frames: 0,
        }
    }

    /// `self` with the capture ring's diagnostics filled in.
    pub open spec fn with_ring(self, ring: CaptureSnapshot) -> StreamStats {
        StreamStats {
            input_queue_capacity_frames: ring.capacity_frames,
            input_queue_occupancy_frames: ring.occupancy_frames,
            capture_ring_target_frames: ring.target_frames,
            capture_ring_ratio_correction_ppm: ring.ratio_correction_ppm as i64,
            capture_ring_missing_frames: ring.shortfall_frames,
            capture_ring_dropped_frames: ring.dropped_frames,
            capture_startup_wait_frames: ring.startup_silence_frames,
            device_error_count: (self.device_error_count + ring.adapter_error_count) as u64,
            ..self
        }
    }
}

/// True when a caller's structure size names a published layout.
///
/// The two earlier layouts are recognised by their exact size; anything at least as
/// large as the current one may be a later caller.
pub open spec fn known_stats_size(supplied: u32) -> bool {
    ||| supplied == STREAM_STATS_V1_SIZE
    ||| supplied == STREAM_STATS_TIMING_SIZE
    ||| supplied >= STREAM_STATS_SIZE
}

/// How many bytes of the current layout a caller's structure takes.
pub open spec fn stats_copy_length(supplied: u32) -> u32 {
    if supplied < STREAM_STATS_SIZE {
        supplied
    } else {
        STREAM_STATS_SIZE
    }
}

/// Builds the snapshot for a caller that owns `supplied_size` bytes, together with
/// the number of leading bytes that may be copied to it.
///
/// `ring` is the capture ring's own snapshot, or the error that reading it gave.
pub fn stream_get_stats(
    supplied_size: u32,
    shared: &SharedStats,
    ring: Result<CaptureSnapshot, i32>,
) -> (result: Result<(StreamStats, u32), i32>)
    requires
        ring matches Ok(ring) ==> shared.device_error_count + ring.adapter_error_count <= u64::MAX,
    ensures
        !known_stats_size(supplied_size) ==> result == Err::<(StreamStats, u32), i32>(
            AUDIO_INVALID_ARGUMENT,
        ),
        known_stats_size(supplied_size) ==> match ring {
            Ok(ring) => result == Ok::<(StreamStats, u32), i32>(
                (
                    shared.published(StreamStats::empty(supplied_size)).with_ring(ring),
                    stats_copy_length(supplied_size),
                ),
            ),
            Err(error) => result == Err::<(StreamStats, u32), i32>(error),
        },
{
    if supplied_size != STREAM_STATS_V1_SIZE && supplied_size != STREAM_STATS_TIMING_SIZE
        && supplied_size < STREAM_STATS_SIZE {
        return Err(AUDIO_INVALID_ARGUMENT);
    }
    let mut snapshot = StreamStats::new(supplied_size);
    shared.snapshot(&mut snapshot);
    match ring {
        Ok(ring) => {
            snapshot.input_queue_capacity_frames = ring.capacity_frames;
            snapshot.input_queue_occupancy_frames = ring.occupancy_frames;
            snapshot.capture_ring_target_frames = ring.target_frames;
            snapshot.capture_ring_ratio_correction_ppm = ring.ratio_correction_ppm as i64;
            snapshot.capture_ring_missing_frames = ring.shortfall_frames;
            snapshot.capture_ring_dropped_frames = ring.dropped_frames;
            snapshot.capture_startup_wait_frames = ring.startup_silence_frames;
            snapshot.device_error_count = snapshot.device_error_count + ring.adapter_error_count;
            let length: u32 = if supplied_size < STREAM_STATS_SIZE {
                supplied_size
            } else {
                STREAM_STATS_SIZE
            };
            Ok((snapshot, length))
        },
        Err(error) => Err(error),
    }
}

/// No caller receives more bytes than it owns, nor more than the layout holds.
pub proof fn law_stats_copy_stays_inside_the_caller(supplied: u32)
    ensures
        stats_copy_length(supplied) <= supplied,
        stats_copy_length(supplied) <= STREAM_STATS_SIZE,
        known_stats_size(supplied) ==> stats_copy_length(supplied) >= STREAM_STATS_V1_SIZE,
{
}

/// Every recording keeps the latest readings at or below the recorded maxima.
pub proof fn law_extrema_stay_ordered(
    stats: SharedStats,
    start: u64,
    end: u64,
    period_ns: u64,
    flags: u64,
    error: i32,
)
    requires
        stats.extrema_ordered(),
    ensures
        SharedStats::zero().extrema_ordered(),
        stats.capture_overflow_dated(start).extrema_ordered(),
        stats.begun(start, period_ns, flags).extrema_ordered(),
        stats.ended(start, end).extrema_ordered(),
        stats.error_recorded(error).extrema_ordered(),
        stats.device_error_counted().extrema_ordered(),
        stats.arrival_forgotten().extrema_ordered(),
{
}

/// A stopped interval is never a delay: the first callback after each start, and the
/// first after a failed clock reading, is on time whatever the clock says.
pub proof fn law_first_callback_is_never_late(
    stats: SharedStats,
    now: u64,
    period_ns: u64,
    flags: u64,
    failed_period_ns: u64,
    failed_flags: u64,
)
    requires
        now != 0,
    ensures
        stats.arrival_forgotten().begun(now, period_ns, flags).callback_last_start_delay_ns == 0,
        stats.arrival_forgotten().begun(now, period_ns, flags).callback_late_start_count
            == stats.callback_late_start_count,
        stats.begun(0, failed_period_ns, failed_flags).begun(
            now,
            period_ns,
            flags,
        ).callback_last_start_delay_ns == 0,
        stats.begun(0, failed_period_ns, failed_flags).begun(
            now,
            period_ns,
            flags,
        ).callback_late_start_count == stats.callback_late_start_count,
{
}

/// Two successive starts: the delay is the gap beyond the *first* block's duration,
/// and the second start is late exactly when that excess is above the tolerance.
pub proof fn law_delay_is_measured_against_the_previous_block(
    stats: SharedStats,
    first: u64,
    first_period: u64,
    second: u64,
    second_period: u64,
    flags: u64,
)
    requires
        first != 0,
        first_period != 0,
        second >= first + first_period,
    ensures
        ({
            let before = stats.begun(first, first_period, flags);
            let after = before.begun(second, second_period, flags);
            &&& after.callback_last_start_delay_ns == second - first - first_period
            &&& after.callback_late_start_count == if second - first - first_period
                > CALLBACK_LATE_TOLERANCE_NS {
                counted(before.callback_late_start_count)
            } else {
                before.callback_late_start_count
            }
        }),
{
}

/// What a caller reads is what was recorded, field by field, and the ring's own diagnostics
/// beside it. Device errors are those of the stream and of the ring together; there is no
/// output queue, so that its fields are zero.
pub proof fn law_report_reads_each_field_from_its_source(
    supplied: u32,
    shared: SharedStats,
    ring: CaptureSnapshot,
)
    requires
        shared.device_error_count + ring.adapter_error_count <= u64::MAX,
    ensures
        ({
            let report = shared.published(StreamStats::empty(supplied)).with_ring(ring);
            &&& report.struct_size == supplied
            &&& report.abi_version == ABI_VERSION
            &&& report.callback_count == shared.callback_count
            &&& report.callback_frame_count == shared.callback_frame_count
            &&& report.oversized_callback_count == shared.oversized_callback_count
            &&& report.native_tick_failure_count == shared.native_tick_failure_count
            &&& report.input_overflow_count == shared.input_overflow_count
            &&& report.output_underflow_count == shared.output_underflow_count
            &&& report.device_error_count == shared.device_error_count + ring.adapter_error_count
            &&& report.input_queue_capacity_frames == ring.capacity_frames
            &&& report.input_queue_occupancy_frames == ring.occupancy_frames
            &&& report.output_queue_capacity_frames == 0
            &&& report.output_queue_occupancy_frames == 0
            &&& report.output_queue_dropped_frame_count == 0
            &&& report.input_clip_sample_count == shared.input_clip_sample_count
            &&& report.output_clip_sample_count == shared.output_clip_sample_count
            &&& report.input_peak_bits == shared.input_peak_bits
            &&& report.input_rms_bits == shared.input_rms_bits
            &&& report.output_peak_bits == shared.output_peak_bits
            &&& report.output_rms_bits == shared.output_rms_bits
            &&& report.last_portaudio_error == shared.last_portaudio_error
            &&& report.alignment_padding == 0
            &&& report.callback_last_duration_ns == shared.callback_last_duration_ns
            &&& report.callback_max_duration_ns == shared.callback_max_duration_ns
            &&& report.callback_last_start_delay_ns == shared.callback_last_start_delay_ns
            &&& report.callback_max_start_delay_ns == shared.callback_max_start_delay_ns
            &&& report.callback_late_start_count == shared.callback_late_start_count
            &&& report.callback_late_start_tolerance_ns == 1_000_000
            &&& report.last_input_xrun_monotonic_ns == shared.last_input_xrun_monotonic_ns
            &&& report.last_output_xrun_monotonic_ns == shared.last_output_xrun_monotonic_ns
            &&& report.callback_clock_error_count == shared.callback_clock_error_count
            &&& report.capture_callback_count == shared.capture_callback_count
            &&& report.capture_ring_target_frames == ring.target_frames
            &&& report.capture_ring_ratio_correction_ppm == ring.ratio_correction_ppm
            &&& report.capture_ring_missing_frames == ring.shortfall_frames
            &&& report.capture_ring_dropped_frames == ring.dropped_frames
            &&& report.capture_startup_wait_frames == ring.startup_silence_frames
        }),
{
}

/// A counter counts one up, and starts over after the largest number.
pub proof fn law_counters_count(count: u64)
    ensures
        counted(count) == (count + 1) % 0x1_0000_0000_0000_0000,
{
}

/// What the start of a playback callback records: the lost input and the missed output in
/// their own fields, each by its own flag; nothing else where the clock could be read but
/// the arrival. A failed reading counts as such and dates nothing.
pub proof fn law_start_dates_each_loss(stats: SharedStats, now: u64, period_ns: u64, flags: u64)
    ensures
        ({
            let after = stats.begun(now, period_ns, flags);
            &&& after == (SharedStats {
                callback_clock_error_count: after.callback_clock_error_count,
                previous_callback_start_ns: after.previous_callback_start_ns,
                previous_callback_period_ns: after.previous_callback_period_ns,
                callback_last_start_delay_ns: after.callback_last_start_delay_ns,
                callback_max_start_delay_ns: after.callback_max_start_delay_ns,
                callback_late_start_count: after.callback_late_start_count,
                last_input_xrun_monotonic_ns: after.last_input_xrun_monotonic_ns,
                last_output_xrun_monotonic_ns: after.last_output_xrun_monotonic_ns,
                ..stats
            })
            &&& after.previous_callback_start_ns == now
            &&& now != 0 ==> {
                &&& after.previous_callback_period_ns == period_ns
                &&& after.callback_clock_error_count == stats.callback_clock_error_count
                &&& after.last_input_xrun_monotonic_ns == if flags & 2 != 0 {
                    now
                } else {
                    stats.last_input_xrun_monotonic_ns
                }
                &&& after.last_output_xrun_monotonic_ns == if flags & 4 != 0 {
                    now
                } else {
                    stats.last_output_xrun_monotonic_ns
                }
                &&& after.callback_max_start_delay_ns >= stats.callback_max_start_delay_ns
                &&& after.callback_max_start_delay_ns >= after.callback_last_start_delay_ns
                &&& after.callback_max_start_delay_ns == stats.callback_max_start_delay_ns
                    || after.callback_max_start_delay_ns == after.callback_last_start_delay_ns
                &&& stats.previous_callback_start_ns != 0 && stats.previous_callback_period_ns != 0
                    && now > stats.previous_callback_start_ns + stats.previous_callback_period_ns
                    ==> after.callback_last_start_delay_ns == now - stats.previous_callback_start_ns
                    - stats.previous_callback_period_ns
                &&& !(stats.previous_callback_start_ns != 0 && stats.previous_callback_period_ns
                    != 0 && now > stats.previous_callback_start_ns
                    + stats.previous_callback_period_ns) ==> after.callback_last_start_delay_ns == 0
                &&& after.callback_late_start_count == if after.callback_last_start_delay_ns
                    > 1_000_000 {
                    (stats.callback_late_start_count + 1) % 0x1_0000_0000_0000_0000
                } else {
                    stats.callback_late_start_count as int
                }
            }
            &&& now == 0 ==> after == (SharedStats {
                callback_clock_error_count: after.callback_clock_error_count,
                previous_callback_start_ns: 0,
                ..stats
            }) && after.callback_clock_error_count == (stats.callback_clock_error_count + 1)
                % 0x1_0000_0000_0000_0000
        }),
{
}

/// What the end of a callback records: how long it ran, and the longest run so far. Without
/// both readings nothing is measured; a failed reading at the end counts as such.
pub proof fn law_end_measures_the_run(stats: SharedStats, start: u64, end: u64)
    ensures
        ({
            let after = stats.ended(start, end);
            &&& start != 0 && end != 0 ==> {
                &&& after.callback_last_duration_ns == if end > start {
                    end - start
                } else {
                    0
                }
                &&& after.callback_max_duration_ns >= stats.callback_max_duration_ns
                &&& after.callback_max_duration_ns >= after.callback_last_duration_ns
                &&& after.callback_max_duration_ns == stats.callback_max_duration_ns
                    || after.callback_max_duration_ns == after.callback_last_duration_ns
                &&& after == (SharedStats {
                    callback_last_duration_ns: after.callback_last_duration_ns,
                    callback_max_duration_ns: after.callback_max_duration_ns,
                    ..stats
                })
            }
            &&& start == 0 && end != 0 ==> after == stats
            &&& end == 0 ==> after == (SharedStats {
                callback_clock_error_count: after.callback_clock_error_count,
                ..stats
            }) && after.callback_clock_error_count == (stats.callback_clock_error_count + 1)
                % 0x1_0000_0000_0000_0000
        }),
{
}

/// What failures record: a PortAudio error its code and one device error, a device failure
/// without a code one device error, a lost input that could be dated its date, one that could
/// not a clock error. A stop forgets the last arrival, so that the next is measured against
/// none. Nothing else changes.
pub proof fn law_failures_are_recorded(stats: SharedStats, error: i32, now: u64)
    ensures
        ({
            let failed = stats.error_recorded(error);
            &&& failed.last_portaudio_error == error
            &&& failed.device_error_count == (stats.device_error_count + 1)
                % 0x1_0000_0000_0000_0000
            &&& failed == (SharedStats {
                last_portaudio_error: error,
                device_error_count: failed.device_error_count,
                ..stats
            })
            &&& stats.device_error_counted() == (SharedStats {
                device_error_count: failed.device_error_count,
                ..stats
            })
            &&& stats.arrival_forgotten() == (SharedStats {
                previous_callback_start_ns: 0,
                previous_callback_period_ns: 0,
                ..stats
            })
            &&& now != 0 ==> stats.capture_overflow_dated(now) == (SharedStats {
                last_input_xrun_monotonic_ns: now,
                ..stats
            })
            &&& now == 0 ==> stats.capture_overflow_dated(now).callback_clock_error_count == (
            stats.callback_clock_error_count + 1) % 0x1_0000_0000_0000_0000
                && stats.capture_overflow_dated(now).last_input_xrun_monotonic_ns
                == stats.last_input_xrun_monotonic_ns
        }),
{
}

/// A caller's structure is one of the two earlier layouts, or at least as large as the
/// current one, and takes as much of the current one as it holds.
pub proof fn law_known_layouts(supplied: u32)
    ensures
        known_stats_size(supplied) <==> supplied == 144 || supplied == 216 || supplied >= 264,
        stats_copy_length(supplied) == if supplied < 264 {
            supplied as int
        } else {
            264
        },
{
}

/// A fresh stream has counted nothing, and its report reads zero but for the caller's size,
/// the version and the fixed tolerance.
pub proof fn law_fresh_statistics_are_zero(supplied: u32, later: SharedStats)
    ensures
        ({
            let zero = SharedStats::zero();
            let report = zero.published(StreamStats::empty(supplied));
            &&& zero.capture_callback_count == 0 && zero.callback_count == 0
            &&& zero.callback_frame_count == 0 && zero.oversized_callback_count == 0
            &&& zero.native_tick_failure_count == 0 && zero.input_overflow_count == 0
            &&& zero.output_underflow_count == 0 && zero.device_error_count == 0
            &&& zero.input_clip_sample_count == 0 && zero.output_clip_sample_count == 0
            &&& zero.input_peak_bits == 0 && zero.input_rms_bits == 0
            &&& zero.output_peak_bits == 0 && zero.output_rms_bits == 0
            &&& zero.last_portaudio_error == 0
            &&& zero.callback_last_duration_ns == 0 && zero.callback_max_duration_ns == 0
            &&& zero.callback_last_start_delay_ns == 0 && zero.callback_max_start_delay_ns == 0
            &&& zero.callback_late_start_count == 0 && zero.callback_clock_error_count == 0
            &&& zero.last_input_xrun_monotonic_ns == 0 && zero.last_output_xrun_monotonic_ns == 0
            &&& zero.previous_callback_start_ns == 0 && zero.previous_callback_period_ns == 0
            &&& report == (StreamStats {
                abi_version: 1,
                callback_late_start_tolerance_ns: 1_000_000,
                ..StreamStats::empty(supplied)
            })
        }),
        later.published(StreamStats::empty(supplied)).struct_size == supplied,
        later.published(StreamStats::empty(supplied)).capture_ring_target_frames == 0,
        later.published(StreamStats::empty(supplied)).capture_ring_missing_frames == 0,
        later.published(StreamStats::empty(supplied)).capture_ring_dropped_frames == 0,
        later.published(StreamStats::empty(supplied)).capture_startup_wait_frames == 0,
{
}

} // verus!
