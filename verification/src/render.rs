//! What the playback callback does with one host block.
//!
//! Each part of the block is drawn from the ring as mono, duplicated to canonical
//! stereo, handed to the native tick and mapped to the device. Playback is the only
//! consumer of the ring and the only caller of the native tick.
use vstd::prelude::*;

use crate::callback::{is_mean_level, Chunk, PA_ABORT, PA_CONTINUE};
use crate::pcm::{
    canonical_output_to_device, device_input_to_canonical, fill, MeterAccumulator,
};
use crate::stats::{SharedStats, PA_INPUT_OVERFLOW, PA_OUTPUT_UNDERFLOW};

verus! {

/// Nanoseconds in one second.
pub const NANOSECONDS_PER_SECOND: u64 = 1_000_000_000;

/// Begins to measure a playback callback of `frame_count` frames that arrived at `start`.
///
/// Returns the flags that concern playback: input overflows belong to the capture
/// callback.
pub fn portaudio_callback_begin(
    stats: &mut SharedStats,
    start: u64,
    frame_count: u64,
    sample_rate_hz: u32,
    flags: u64,
) -> (playback_flags: u64)
    requires
        sample_rate_hz != 0,
        frame_count * NANOSECONDS_PER_SECOND <= u64::MAX,
    ensures
        playback_flags == flags & !PA_INPUT_OVERFLOW,
        *final(stats) == old(stats).begun(
            start,
            (frame_count * NANOSECONDS_PER_SECOND / sample_rate_hz as int) as u64,
            flags & !PA_INPUT_OVERFLOW,
        ),
{
    let period_ns: u64 = frame_count * NANOSECONDS_PER_SECOND / (sample_rate_hz as u64);
    let playback_flags: u64 = flags & !PA_INPUT_OVERFLOW;
    stats.callback_begin(start, period_ns, playback_flags);
    playback_flags
}

/// An input overflow never dates anything from the playback side.
pub proof fn law_playback_ignores_input_overflow(
    stats: SharedStats,
    start: u64,
    period_ns: u64,
    flags: u64,
)
    ensures
        stats.begun(
            start,
            period_ns,
            flags & !PA_INPUT_OVERFLOW,
        ).last_input_xrun_monotonic_ns == stats.last_input_xrun_monotonic_ns,
{
    assert((flags & !2u64) & 2u64 == 0) by (bit_vector);
}

/// How many device samples `frames` frames take.
pub open spec fn samples_in(frames: int, channels: usize) -> int {
    if channels == 1 {
        frames
    } else {
        2 * frames
    }
}

/// The prepared buffers and the meter of the playback callback.
#[derive(Debug)]
pub struct PlaybackState<S> {
    pub sample_rate_hz: u32,
    pub maximum_frame_count: usize,
    pub output_channels: usize,
    pub mono_input: Vec<u32>,
    pub canonical_input: Vec<u32>,
    pub canonical_output: Vec<u32>,
    pub output_meter: MeterAccumulator<S>,
}

/// Statistics with the output level of `meter` and the given mean level published.
pub open spec fn output_published<S>(
    stats: SharedStats,
    meter: MeterAccumulator<S>,
    rms: u32,
) -> SharedStats {
    SharedStats {
        output_peak_bits: meter.peak_bits,
        output_rms_bits: rms,
        output_clip_sample_count: meter.clip_sample_count,
        ..stats
    }
}

impl<S: Copy> PlaybackState<S> {
    /// The buffers hold one maximum block.
    pub open spec fn well_formed(self) -> bool {
        &&& self.maximum_frame_count > 0
        &&& self.output_channels == 1 || self.output_channels == 2
        &&& self.mono_input@.len() == self.maximum_frame_count
        &&& self.canonical_input@.len() == 2 * self.maximum_frame_count
        &&& self.canonical_output@.len() == 2 * self.maximum_frame_count
    }

    /// `self` and `other` agree on what a callback never changes.
    pub open spec fn same_setup(self, other: PlaybackState<S>) -> bool {
        &&& self.sample_rate_hz == other.sample_rate_hz
        &&& self.maximum_frame_count == other.maximum_frame_count
        &&& self.output_channels == other.output_channels
    }

    /// Prepares silent buffers; `zero` is the empty sum of squares.
    pub fn new(
        sample_rate_hz: u32,
        maximum_frame_count: usize,
        output_channels: usize,
        zero: S,
    ) -> (state: PlaybackState<S>)
        requires
            maximum_frame_count > 0,
            2 * maximum_frame_count <= usize::MAX,
            output_channels == 1 || output_channels == 2,
        ensures
            state.well_formed(),
            state.sample_rate_hz == sample_rate_hz,
            state.maximum_frame_count == maximum_frame_count,
            state.output_channels == output_channels,
            state.mono_input@ == Seq::new(maximum_frame_count as nat, |i: int| 0u32),
            state.canonical_input@ == Seq::new((2 * maximum_frame_count) as nat, |i: int| 0u32),
            state.canonical_output@ == Seq::new((2 * maximum_frame_count) as nat, |i: int| 0u32),
            state.output_meter == (MeterAccumulator {
                sample_count: 0,
                clip_sample_count: 0,
                peak_bits: 0,
                sum_squares: zero,
            }),
    {
        let samples: usize = 2 * maximum_frame_count;
        let mono_input: Vec<u32> = vec![0u32; maximum_frame_count];
        let canonical_input: Vec<u32> = vec![0u32; samples];
        let canonical_output: Vec<u32> = vec![0u32; samples];
        assert(mono_input@ =~= Seq::new(maximum_frame_count as nat, |i: int| 0u32));
        assert(canonical_input@ =~= Seq::new(samples as nat, |i: int| 0u32));
        assert(canonical_output@ =~= Seq::new(samples as nat, |i: int| 0u32));
        PlaybackState {
            sample_rate_hz,
            maximum_frame_count,
            output_channels,
            mono_input,
            canonical_input,
            canonical_output,
            output_meter: MeterAccumulator::new(zero),
        }
    }

    /// Turns the first `frames` mono samples into canonical input.
    pub fn duplicate_mono(&mut self, frames: usize)
        requires
            old(self).well_formed(),
            frames <= old(self).maximum_frame_count,
        ensures
            final(self).well_formed(),
            final(self).same_setup(*old(self)),
            final(self).output_meter == old(self).output_meter,
            final(self).mono_input@ == old(self).mono_input@,
            final(self).canonical_output@ == old(self).canonical_output@,
            final(self).canonical_input@ == crate::pcm::canonical_of(
                Some(old(self).mono_input@),
                1,
                (2 * frames) as nat,
                0u32,
            ) + old(self).canonical_input@.skip(2 * frames),
    {
        assert(self.canonical_input.len() == 2 * self.maximum_frame_count);
        let (front, rest) = self.canonical_input.as_mut_slice().split_at_mut(2 * frames);
        device_input_to_canonical(Some(self.mono_input.as_slice()), 1, front, 0u32);
    }
}

/// Maps canonical samples to `count` device samples from `from` on, and observes those.
fn render_part<S: Copy, A: Fn(u32, u32) -> u32, F: Fn(S, u32) -> S>(
    canonical: &[u32],
    channels: usize,
    output: &mut [u32],
    from: usize,
    count: usize,
    meter: &mut MeterAccumulator<S>,
    average: &A,
    add_square: &F,
)
    requires
        channels == 1 || channels == 2,
        canonical@.len() % 2 == 0,
        count == samples_in(canonical@.len() as int / 2, channels),
        from + count <= old(output)@.len(),
        forall|left: u32, right: u32| call_requires(*average, (left, right)),
        forall|sum: S, sample: u32| call_requires(*add_square, (sum, sample)),
    ensures
        final(output)@.len() == old(output)@.len(),
        final(output)@.take(from as int) == old(output)@.take(from as int),
        final(output)@.skip(from + count) == old(output)@.skip(from + count),
        forall|i: int|
            from + count <= i < old(output)@.len() ==> #[trigger] final(output)@[i] == old(
                output,
            )@[i],
        crate::pcm::maps_to_device(
            canonical@,
            channels,
            old(output)@.subrange(from as int, from + count),
            final(output)@.subrange(from as int, from + count),
            *average,
        ),
        final(meter).has_observed(
            *old(meter),
            final(output)@.subrange(from as int, from + count),
            *add_square,
        ),
{
    let ghost before = output@;
    let (head, tail) = output.split_at_mut(from);
    let (device, rest) = tail.split_at_mut(count);
    assert(device@ =~= before.subrange(from as int, from + count));
    assert(rest@ =~= before.skip(from + count));
    canonical_output_to_device(canonical, channels, device, average);
    let ghost device_after = device@;
    meter.observe(device, add_square);
    assert(output@ =~= before.take(from as int) + (device_after + before.skip(from + count)));
    assert(output@.subrange(from as int, from + count) =~= device_after);
    assert(output@.take(from as int) =~= before.take(from as int));
    assert(output@.skip(from + count) =~= before.skip(from + count));
}

/// What the caller does next in a playback callback.
#[derive(Clone, Copy, Debug, PartialEq, Eq, Structural)]
pub enum RenderStep {
    /// Put the part's input at the front of `canonical_input`: draw it from the ring into
    /// `mono_input`, and duplicate it.
    Fill(Chunk),
    /// Run the native tick from the front of `canonical_input` to that of
    /// `canonical_output`.
    Tick(Chunk),
    /// Nothing; the block is done.
    Finished,
}

/// One playback callback.
#[derive(Clone, Copy, Debug, PartialEq, Eq)]
pub struct RenderCallback {
    pub frame_count: usize,
    pub maximum: usize,
    pub channels: usize,
    pub offset: usize,
    /// The input of the part that is due is there, and the tick comes next.
    pub filled: bool,
    pub aborted: bool,
    /// The host gave no buffer to render into.
    pub missing_output: bool,
}

impl RenderCallback {
    /// The callback has not run past its block and belongs to `state`.
    pub open spec fn well_formed<S: Copy>(self, state: PlaybackState<S>) -> bool {
        &&& state.well_formed()
        &&& self.maximum == state.maximum_frame_count
        &&& self.channels == state.output_channels
        &&& self.offset <= self.frame_count
    }

    /// What the caller does next.
    pub open spec fn due(self) -> RenderStep {
        if self.aborted || self.offset >= self.frame_count {
            RenderStep::Finished
        } else {
            let chunk = crate::callback::next_chunk(self.frame_count, self.maximum, self.offset);
            if self.filled {
                RenderStep::Tick(chunk)
            } else {
                RenderStep::Fill(chunk)
            }
        }
    }

    /// The part that is due.
    pub open spec fn chunk(self) -> Chunk {
        crate::callback::next_chunk(self.frame_count, self.maximum, self.offset)
    }

    /// The device samples of the part that is due.
    pub open spec fn part_of(self, output: Seq<u32>) -> Seq<u32> {
        output.subrange(
            samples_in(self.offset as int, self.channels),
            samples_in(self.offset + self.chunk().frames, self.channels),
        )
    }

    /// `after` is the output `before` with the tick's output at the place of the part that
    /// is due, as the device takes it, and nothing else changed.
    pub open spec fn part_rendered<A: Fn(u32, u32) -> u32>(
        self,
        tick: Seq<u32>,
        before: Seq<u32>,
        after: Seq<u32>,
        average: A,
    ) -> bool {
        let from = samples_in(self.offset as int, self.channels);
        let to = samples_in(self.offset + self.chunk().frames, self.channels);
        &&& after.len() == before.len()
        &&& after.take(from) == before.take(from)
        &&& after.skip(to) == before.skip(to)
        &&& crate::pcm::maps_to_device(
            tick,
            self.channels,
            self.part_of(before),
            self.part_of(after),
            average,
        )
    }

    /// What has not been rendered is silent.
    pub open spec fn silent_beyond(self, output: Seq<u32>) -> bool {
        forall|i: int|
            samples_in(self.offset as int, self.channels) <= i < output.len() ==> #[trigger] output[i]
                == 0
    }

    /// The statistics after a callback with an output buffer arrived.
    pub open spec fn arrived(
        stats: SharedStats,
        frame_count: usize,
        maximum: usize,
        flags: u64,
    ) -> SharedStats {
        SharedStats {
            output_underflow_count: if flags & PA_OUTPUT_UNDERFLOW != 0 {
                crate::stats::counted(stats.output_underflow_count)
            } else {
                stats.output_underflow_count
            },
            callback_count: crate::stats::counted(stats.callback_count),
            callback_frame_count: stats.callback_frame_count.wrapping_add(frame_count as u64),
            oversized_callback_count: if frame_count > maximum {
                crate::stats::counted(stats.oversized_callback_count)
            } else {
                stats.oversized_callback_count
            },
            ..stats
        }
    }

    /// Begins a callback without an output buffer: it can only abort.
    pub fn begin_without_output<S: Copy>(
        state: &PlaybackState<S>,
        stats: &mut SharedStats,
        frame_count: usize,
    ) -> (callback: RenderCallback)
        requires
            state.well_formed(),
        ensures
            callback.well_formed(*state),
            callback.due() is Finished,
            callback.aborted,
            callback.missing_output,
            *final(stats) == (SharedStats {
                native_tick_failure_count: crate::stats::counted(
                    old(stats).native_tick_failure_count,
                ),
                ..*old(stats)
            }),
    {
        stats.native_tick_failure_count = stats.native_tick_failure_count.wrapping_add(1);
        RenderCallback {
            frame_count,
            maximum: state.maximum_frame_count,
            channels: state.output_channels,
            offset: 0,
            filled: false,
            aborted: true,
            missing_output: true,
        }
    }

    /// Begins a callback: the whole output is silenced before anything is rendered.
    pub fn begin<S: Copy>(
        state: &PlaybackState<S>,
        stats: &mut SharedStats,
        output: &mut [u32],
        frame_count: usize,
        flags: u64,
    ) -> (callback: RenderCallback)
        requires
            state.well_formed(),
            old(output)@.len() == samples_in(frame_count as int, state.output_channels),
        ensures
            callback.well_formed(*state),
            callback == (RenderCallback {
                frame_count,
                maximum: state.maximum_frame_count,
                channels: state.output_channels,
                offset: 0,
                filled: false,
                aborted: false,
                missing_output: false,
            }),
            final(output)@ == crate::callback::silent_samples(old(output)@.len()),
            callback.silent_beyond(final(output)@),
            *final(stats) == RenderCallback::arrived(
                *old(stats),
                frame_count,
                state.maximum_frame_count,
                flags,
            ),
    {
        fill(output, 0u32);
        if flags & PA_OUTPUT_UNDERFLOW != 0 {
            stats.output_underflow_count = stats.output_underflow_count.wrapping_add(1);
        }
        stats.callback_count = stats.callback_count.wrapping_add(1);
        stats.callback_frame_count = stats.callback_frame_count.wrapping_add(frame_count as u64);
        if frame_count > state.maximum_frame_count {
            stats.oversized_callback_count = stats.oversized_callback_count.wrapping_add(1);
        }
        RenderCallback {
            frame_count,
            maximum: state.maximum_frame_count,
            channels: state.output_channels,
            offset: 0,
            filled: false,
            aborted: false,
            missing_output: false,
        }
    }

    fn frames_due(&self) -> (frames: usize)
        requires
            self.offset <= self.frame_count,
        ensures
            frames == self.chunk().frames,
    {
        let left: usize = self.frame_count - self.offset;
        if left < self.maximum {
            left
        } else {
            self.maximum
        }
    }

    /// What the caller does next.
    pub fn step(&self) -> (step: RenderStep)
        requires
            self.offset <= self.frame_count,
        ensures
            step == self.due(),
    {
        if self.aborted || self.offset >= self.frame_count {
            RenderStep::Finished
        } else {
            let chunk = Chunk { offset: self.offset, frames: self.frames_due() };
            if self.filled {
                RenderStep::Tick(chunk)
            } else {
                RenderStep::Fill(chunk)
            }
        }
    }

    /// Takes the outcome of preparing the input of the part that was due. The tick's
    /// output starts silent; a failure aborts the callback.
    pub fn prepared<S: Copy>(
        &mut self,
        state: &mut PlaybackState<S>,
        stats: &mut SharedStats,
        succeeded: bool,
    )
        requires
            old(self).well_formed(*old(state)),
            old(self).due() is Fill,
        ensures
            final(self).well_formed(*final(state)),
            final(state).same_setup(*old(state)),
            final(state).output_meter == old(state).output_meter,
            final(state).mono_input@ == old(state).mono_input@,
            final(state).canonical_input@ == old(state).canonical_input@,
            !succeeded ==> {
                &&& *final(self) == (RenderCallback { aborted: true, ..*old(self) })
                &&& *final(stats) == old(stats).device_error_counted()
                &&& final(state).canonical_output@ == old(state).canonical_output@
            },
            succeeded ==> {
                &&& *final(self) == (RenderCallback { filled: true, ..*old(self) })
                &&& *final(stats) == *old(stats)
                &&& final(state).canonical_output@ == Seq::new(
                    (2 * old(self).chunk().frames) as nat,
                    |i: int| 0u32,
                ) + old(state).canonical_output@.skip(2 * old(self).chunk().frames)
            },
    {
        if !succeeded {
            stats.count_device_error();
            self.aborted = true;
            return ;
        }
        let frames: usize = self.frames_due();
        assert(state.canonical_output.len() == 2 * self.maximum);
        let (front, rest) = state.canonical_output.as_mut_slice().split_at_mut(2 * frames);
        fill(front, 0u32);
        self.filled = true;
    }

    /// Takes the reply of the native tick. What it produced is mapped to the part's
    /// place in the device output and observed there; a failed tick aborts, and its
    /// part stays silent.
    pub fn ticked<S: Copy, A: Fn(u32, u32) -> u32, F: Fn(S, u32) -> S>(
        &mut self,
        state: &mut PlaybackState<S>,
        stats: &mut SharedStats,
        output: &mut [u32],
        code: i32,
        average: &A,
        add_square: &F,
    )
        requires
            old(self).well_formed(*old(state)),
            old(self).due() is Tick,
            old(output)@.len() == samples_in(old(self).frame_count as int, old(self).channels),
            old(self).silent_beyond(old(output)@),
            forall|left: u32, right: u32| call_requires(*average, (left, right)),
            forall|sum: S, sample: u32| call_requires(*add_square, (sum, sample)),
        ensures
            final(self).well_formed(*final(state)),
            final(state).same_setup(*old(state)),
            final(state).mono_input@ == old(state).mono_input@,
            final(state).canonical_input@ == old(state).canonical_input@,
            final(state).canonical_output@ == old(state).canonical_output@,
            final(output)@.len() == old(output)@.len(),
            final(self).silent_beyond(final(output)@),
            code != 0 ==> {
                &&& *final(self) == (RenderCallback { aborted: true, ..*old(self) })
                &&& *final(stats) == (SharedStats {
                    native_tick_failure_count: crate::stats::counted(
                        old(stats).native_tick_failure_count,
                    ),
                    ..*old(stats)
                })
                &&& final(output)@ == old(output)@
                &&& final(state).output_meter == old(state).output_meter
            },
            code == 0 ==> {
                &&& *final(self) == (RenderCallback {
                    offset: (old(self).offset + old(self).chunk().frames) as usize,
                    filled: false,
                    ..*old(self)
                })
                &&& *final(stats) == *old(stats)
                &&& old(self).part_rendered(
                    old(state).canonical_output@.take(2 * old(self).chunk().frames),
                    old(output)@,
                    final(output)@,
                    *average,
                )
                &&& final(state).output_meter.has_observed(
                    old(state).output_meter,
                    old(self).part_of(final(output)@),
                    *add_square,
                )
            },
    {
        if code != 0 {
            stats.native_tick_failure_count = stats.native_tick_failure_count.wrapping_add(1);
            self.aborted = true;
            return ;
        }
        let frames: usize = self.frames_due();
        assert(state.canonical_output.len() == 2 * self.maximum);
        assert(output.len() == samples_in(self.frame_count as int, self.channels));
        let (from, count): (usize, usize) = if self.channels == 1 {
            (self.offset, frames)
        } else {
            (2 * self.offset, 2 * frames)
        };
        let canonical: &[u32] = vstd::slice::slice_subrange(
            state.canonical_output.as_slice(),
            0,
            2 * frames,
        );
        assert(canonical@ =~= state.canonical_output@.take(2 * frames));
        render_part(
            canonical,
            self.channels,
            output,
            from,
            count,
            &mut state.output_meter,
            average,
            add_square,
        );
        self.offset = self.offset + frames;
        self.filled = false;
    }

    /// Publishes the output level and returns PortAudio's code.
    pub fn finish<S: Copy, G: Fn(S, u64) -> u32>(
        &self,
        state: &PlaybackState<S>,
        stats: &mut SharedStats,
        root: &G,
    ) -> (code: i32)
        requires
            self.due() is Finished,
            forall|sum: S, count: u64| call_requires(*root, (sum, count)),
        ensures
            code == if self.aborted {
                PA_ABORT
            } else {
                PA_CONTINUE
            },
            self.missing_output ==> *final(stats) == *old(stats),
            !self.missing_output ==> exists|rms: u32|
                is_mean_level(state.output_meter, *root, rms) && *final(stats)
                    == #[trigger] output_published(*old(stats), state.output_meter, rms),
    {
        if !self.missing_output {
            let rms: u32 = state.output_meter.rms(root);
            stats.output_peak_bits = state.output_meter.peak();
            stats.output_rms_bits = rms;
            stats.output_clip_sample_count = state.output_meter.clip_sample_count();
            assert(*stats == output_published(*old(stats), state.output_meter, rms));
        }
        if self.aborted {
            PA_ABORT
        } else {
            PA_CONTINUE
        }
    }

    /// The callback after the first `parts` parts of its block have been rendered.
    pub open spec fn after_parts(self, parts: nat) -> RenderCallback
        decreases parts,
    {
        if parts == 0 || self.due() is Finished {
            self
        } else {
            RenderCallback {
                offset: (self.offset + self.chunk().frames) as usize,
                filled: false,
                ..self
            }.after_parts((parts - 1) as nat)
        }
    }
}

/// A callback whose calls all succeed fills and then ticks exactly the parts of its block,
/// in order, and then has nothing left to do.
pub proof fn law_render_visits_every_chunk(callback: RenderCallback)
    requires
        callback.maximum > 0,
        callback.offset <= callback.frame_count,
        !callback.aborted,
        !callback.filled,
    ensures
        ({
            let chunks = crate::callback::chunks_from(callback.frame_count, callback.maximum, callback.offset);
            &&& callback.after_parts(chunks.len()).due() is Finished
            &&& forall|i: int|
                0 <= i < chunks.len() ==> {
                    let before = callback.after_parts(i as nat);
                    &&& before.due() == RenderStep::Fill(#[trigger] chunks[i])
                    &&& RenderCallback { filled: true, ..before }.due() == RenderStep::Tick(
                        chunks[i],
                    )
                }
        }),
    decreases callback.frame_count - callback.offset,
{
    let chunks = crate::callback::chunks_from(callback.frame_count, callback.maximum, callback.offset);
    if callback.due() !is Finished {
        let chunk = callback.chunk();
        let next = RenderCallback {
            offset: (callback.offset + chunk.frames) as usize,
            ..callback
        };
        law_render_visits_every_chunk(next);
        let rest = crate::callback::chunks_from(next.frame_count, next.maximum, next.offset);
        assert(chunks =~= seq![chunk] + rest);
        assert forall|i: int| 0 <= i < chunks.len() implies ({
            let before = callback.after_parts(i as nat);
            &&& before.due() == RenderStep::Fill(#[trigger] chunks[i])
            &&& RenderCallback { filled: true, ..before }.due() == RenderStep::Tick(chunks[i])
        }) by {
            if i > 0 {
                assert(chunks[i] == rest[i - 1]);
                assert(next.after_parts((i - 1) as nat).due() == RenderStep::Fill(rest[i - 1]));
            }
        }
    }
}

/// The callback after one more part.
proof fn lemma_one_more_part(callback: RenderCallback, parts: nat)
    requires
        !callback.filled,
    ensures
        callback.after_parts(parts + 1) == callback.after_parts(parts).after_parts(1),
        callback.after_parts(parts) == (RenderCallback {
            offset: callback.after_parts(parts).offset,
            ..callback
        }),
        callback.offset <= callback.frame_count ==> callback.after_parts(parts).offset
            <= callback.frame_count,
    decreases parts,
{
    reveal_with_fuel(RenderCallback::after_parts, 2);
    if parts > 0 && callback.due() !is Finished {
        let next = RenderCallback {
            offset: (callback.offset + callback.chunk().frames) as usize,
            ..callback
        };
        lemma_one_more_part(next, (parts - 1) as nat);
    }
}

/// The part after `k` others was due, and it was rendered and observed.
pub open spec fn part_done<S: Copy, A: Fn(u32, u32) -> u32, F: Fn(S, u32) -> S>(
    callback: RenderCallback,
    ticks: Seq<Seq<u32>>,
    outputs: Seq<Seq<u32>>,
    meters: Seq<MeterAccumulator<S>>,
    average: A,
    add_square: F,
    k: int,
) -> bool {
    let part = callback.after_parts(k as nat);
    &&& part.due() !is Finished
    &&& ticks[k].len() == 2 * part.chunk().frames
    &&& part.part_rendered(ticks[k], outputs[k], outputs[k + 1], average)
    &&& meters[k + 1].has_observed(meters[k], part.part_of(outputs[k + 1]), add_square)
}

/// `outputs` are the device output before and after each of the first parts of a block,
/// each rendered from one of `ticks` as [`RenderCallback::ticked`] does, and `meters` the
/// meter before and after each of them.
pub open spec fn rendered_in_parts<S: Copy, A: Fn(u32, u32) -> u32, F: Fn(S, u32) -> S>(
    callback: RenderCallback,
    ticks: Seq<Seq<u32>>,
    outputs: Seq<Seq<u32>>,
    meters: Seq<MeterAccumulator<S>>,
    average: A,
    add_square: F,
) -> bool {
    &&& outputs.len() == ticks.len() + 1
    &&& meters.len() == ticks.len() + 1
    &&& outputs[0] == crate::callback::silent_samples(
        samples_in(callback.frame_count as int, callback.channels) as nat,
    )
    &&& forall|k: int|
        0 <= k < ticks.len() ==> #[trigger] part_done(
            callback,
            ticks,
            outputs,
            meters,
            average,
            add_square,
            k,
        )
}

/// The first `frames` frames of `output` are those of `joined`, as a device with so many
/// channels takes them.
pub open spec fn takes_frames<A: Fn(u32, u32) -> u32>(
    joined: Seq<u32>,
    output: Seq<u32>,
    channels: usize,
    frames: int,
    average: A,
) -> bool {
    &&& joined.len() == 2 * frames
    &&& channels == 2 ==> output.take(2 * frames) == joined
    &&& channels == 1 ==> forall|frame: int|
        0 <= frame < frames ==> call_ensures(
            average,
            (joined[2 * frame], joined[2 * frame + 1]),
            #[trigger] output[frame],
        )
}

/// What was rendered before the last part was rendered in parts too.
proof fn lemma_rendered_before<S: Copy, A: Fn(u32, u32) -> u32, F: Fn(S, u32) -> S>(
    callback: RenderCallback,
    ticks: Seq<Seq<u32>>,
    outputs: Seq<Seq<u32>>,
    meters: Seq<MeterAccumulator<S>>,
    average: A,
    add_square: F,
)
    requires
        ticks.len() > 0,
        rendered_in_parts(callback, ticks, outputs, meters, average, add_square),
    ensures
        rendered_in_parts(
            callback,
            ticks.drop_last(),
            outputs.drop_last(),
            meters.drop_last(),
            average,
            add_square,
        ),
{
    assert forall|k: int| 0 <= k < ticks.drop_last().len() implies #[trigger] part_done(
        callback,
        ticks.drop_last(),
        outputs.drop_last(),
        meters.drop_last(),
        average,
        add_square,
        k,
    ) by {
        assert(part_done(callback, ticks, outputs, meters, average, add_square, k));
    }
}

/// One more part leaves what was rendered, adds its tick and leaves silence beyond.
proof fn lemma_part_adds<A: Fn(u32, u32) -> u32>(
    part: RenderCallback,
    end: RenderCallback,
    seen: Seq<u32>,
    tick: Seq<u32>,
    before: Seq<u32>,
    after: Seq<u32>,
    average: A,
)
    requires
        part.channels == 1 || part.channels == 2,
        part.offset + part.chunk().frames <= part.frame_count,
        end == (RenderCallback { offset: end.offset, ..part }),
        end.offset == part.offset + part.chunk().frames,
        before.len() == samples_in(part.frame_count as int, part.channels),
        takes_frames(seen, before, part.channels, part.offset as int, average),
        part.silent_beyond(before),
        tick.len() == 2 * part.chunk().frames,
        part.part_rendered(tick, before, after, average),
    ensures
        takes_frames(seen + tick, after, part.channels, end.offset as int, average),
        end.silent_beyond(after),
        after.take(samples_in(end.offset as int, part.channels)) == before.take(
            samples_in(part.offset as int, part.channels),
        ) + part.part_of(after),
{
    let channels = part.channels;
    let from = samples_in(part.offset as int, channels);
    let to = samples_in(end.offset as int, channels);
    let joined = seen + tick;
    assert forall|i: int| 0 <= i < from implies after[i] == before[i] by {
        assert(after.take(from)[i] == before.take(from)[i]);
    }
    assert(after.take(to) =~= before.take(from) + part.part_of(after));
    assert forall|i: int| to <= i < after.len() implies after[i] == 0 by {
        assert(after.skip(to)[i - to] == before.skip(to)[i - to]);
    }
    if channels == 2 {
        assert(after.take(to) =~= joined);
    } else {
        assert forall|frame: int| 0 <= frame < end.offset implies call_ensures(
            average,
            (joined[2 * frame], joined[2 * frame + 1]),
            #[trigger] after[frame],
        ) by {
            if frame < part.offset {
                assert(joined[2 * frame] == seen[2 * frame]);
                assert(joined[2 * frame + 1] == seen[2 * frame + 1]);
                assert(after[frame] == before[frame]);
            } else {
                let place = frame - part.offset;
                assert(part.part_of(after)[place] == after[frame]);
                assert(joined[2 * frame] == tick[2 * place]);
                assert(joined[2 * frame + 1] == tick[2 * place + 1]);
            }
        }
    }
}

/// What was rendered so far, and that the meter has observed it.
proof fn lemma_rendered_so_far<S: Copy, A: Fn(u32, u32) -> u32, F: Fn(S, u32) -> S>(
    callback: RenderCallback,
    ticks: Seq<Seq<u32>>,
    outputs: Seq<Seq<u32>>,
    meters: Seq<MeterAccumulator<S>>,
    average: A,
    add_square: F,
)
    requires
        callback.channels == 1 || callback.channels == 2,
        callback.offset == 0,
        !callback.filled,
        rendered_in_parts(callback, ticks, outputs, meters, average, add_square),
    ensures
        callback.after_parts(ticks.len()).offset <= callback.frame_count,
        outputs.last().len() == samples_in(callback.frame_count as int, callback.channels),
        takes_frames(
            ticks.flatten(),
            outputs.last(),
            callback.channels,
            callback.after_parts(ticks.len()).offset as int,
            average,
        ),
        callback.after_parts(ticks.len()).silent_beyond(outputs.last()),
        meters.last().has_observed(
            meters[0],
            outputs.last().take(
                samples_in(
                    callback.after_parts(ticks.len()).offset as int,
                    callback.channels,
                ),
            ),
            add_square,
        ),
    decreases ticks.len(),
{
    let end = callback.after_parts(ticks.len());
    let output = outputs.last();
    lemma_one_more_part(callback, ticks.len());
    if ticks.len() == 0 {
        assert(ticks.flatten() =~= Seq::<u32>::empty());
        assert(output.take(0) =~= Seq::<u32>::empty());
        crate::pcm::lemma_observed_nothing(meters[0], add_square);
    } else {
        let earlier = ticks.drop_last();
        let k = earlier.len();
        let part = callback.after_parts(k);
        let tick = ticks.last();
        let before = outputs[k as int];
        lemma_rendered_before(callback, ticks, outputs, meters, average, add_square);
        lemma_rendered_so_far(
            callback,
            earlier,
            outputs.drop_last(),
            meters.drop_last(),
            average,
            add_square,
        );
        assert(part_done(callback, ticks, outputs, meters, average, add_square, k as int));
        lemma_one_more_part(callback, k);
        assert(end.offset == part.offset + part.chunk().frames) by {
            reveal_with_fuel(RenderCallback::after_parts, 2);
        }
        assert(ticks =~= earlier.push(tick));
        earlier.lemma_flatten_push(tick);
        lemma_part_adds(part, end, earlier.flatten(), tick, before, output, average);
        crate::pcm::law_meters_observe_in_parts(
            meters[0],
            meters[k as int],
            meters.last(),
            before.take(samples_in(part.offset as int, callback.channels)),
            part.part_of(output),
            add_square,
        );
    }
}

/// What a playback callback comes to: up to where it has come, the output is what the ticks
/// produced, one part after the other, and beyond that it is silent. A stereo device gets
/// the ticks sample by sample, a mono device the average of each frame. The meter has
/// observed just what was rendered, and once all parts are rendered, that is the whole
/// output.
pub proof fn law_render_joins_the_ticks<S: Copy, A: Fn(u32, u32) -> u32, F: Fn(S, u32) -> S>(
    callback: RenderCallback,
    ticks: Seq<Seq<u32>>,
    outputs: Seq<Seq<u32>>,
    meters: Seq<MeterAccumulator<S>>,
    average: A,
    add_square: F,
)
    requires
        callback.maximum > 0,
        callback.channels == 1 || callback.channels == 2,
        callback.offset == 0,
        !callback.aborted,
        !callback.filled,
        rendered_in_parts(callback, ticks, outputs, meters, average, add_square),
    ensures
        callback.after_parts(ticks.len()).offset <= callback.frame_count,
        outputs.last().len() == samples_in(callback.frame_count as int, callback.channels),
        takes_frames(
            ticks.flatten(),
            outputs.last(),
            callback.channels,
            callback.after_parts(ticks.len()).offset as int,
            average,
        ),
        callback.after_parts(ticks.len()).silent_beyond(outputs.last()),
        meters.last().has_observed(
            meters[0],
            outputs.last().take(
                samples_in(
                    callback.after_parts(ticks.len()).offset as int,
                    callback.channels,
                ),
            ),
            add_square,
        ),
        ticks.len() == crate::callback::chunks_from(
            callback.frame_count,
            callback.maximum,
            0,
        ).len() ==> {
            &&& callback.after_parts(ticks.len()).due() is Finished
            &&& callback.channels == 2 ==> outputs.last() == ticks.flatten()
            &&& takes_frames(
                ticks.flatten(),
                outputs.last(),
                callback.channels,
                callback.frame_count as int,
                average,
            )
            &&& meters.last().has_observed(meters[0], outputs.last(), add_square)
        },
{
    let end = callback.after_parts(ticks.len());
    let output = outputs.last();
    lemma_rendered_so_far(callback, ticks, outputs, meters, average, add_square);
    lemma_one_more_part(callback, ticks.len());
    if ticks.len() == crate::callback::chunks_from(
        callback.frame_count,
        callback.maximum,
        0,
    ).len() {
        assert(end.due() is Finished) by {
            law_render_visits_every_chunk(callback);
        }
        assert(output.take(samples_in(end.offset as int, callback.channels)) =~= output);
    }
}

/// What both meters publish is what the caller reads, each in its own direction and in
/// either order: the output fields are the playback meter's peak, mean level and clip count,
/// the input fields the capture meter's.
pub proof fn law_levels_reach_the_caller<S, T>(
    stats: SharedStats,
    output_meter: MeterAccumulator<S>,
    output_rms: u32,
    input_meter: MeterAccumulator<T>,
    input_rms: u32,
    supplied: u32,
    ring: crate::capture_ring::CaptureSnapshot,
)
    ensures
        ({
            let empty = crate::stats::StreamStats::empty(supplied);
            let rendered = output_published(stats, output_meter, output_rms);
            let captured = crate::callback::input_published(stats, input_meter, input_rms);
            let rendered_last = output_published(captured, output_meter, output_rms);
            let captured_last = crate::callback::input_published(
                rendered,
                input_meter,
                input_rms,
            );
            let after_rendering = rendered.published(empty).with_ring(ring);
            let after_capturing = captured.published(empty).with_ring(ring);
            let report = rendered_last.published(empty).with_ring(ring);
            &&& after_rendering.output_peak_bits == output_meter.peak_bits
            &&& after_rendering.output_rms_bits == output_rms
            &&& after_rendering.output_clip_sample_count == output_meter.clip_sample_count
            &&& after_rendering.input_peak_bits == stats.input_peak_bits
            &&& after_rendering.input_rms_bits == stats.input_rms_bits
            &&& after_rendering.input_clip_sample_count == stats.input_clip_sample_count
            &&& after_capturing.input_peak_bits == input_meter.peak_bits
            &&& after_capturing.input_rms_bits == input_rms
            &&& after_capturing.input_clip_sample_count == input_meter.clip_sample_count
            &&& after_capturing.output_peak_bits == stats.output_peak_bits
            &&& after_capturing.output_rms_bits == stats.output_rms_bits
            &&& after_capturing.output_clip_sample_count == stats.output_clip_sample_count
            &&& rendered_last == captured_last
            &&& report.output_peak_bits == output_meter.peak_bits
            &&& report.output_rms_bits == output_rms
            &&& report.output_clip_sample_count == output_meter.clip_sample_count
            &&& report.input_peak_bits == input_meter.peak_bits
            &&& report.input_rms_bits == input_rms
            &&& report.input_clip_sample_count == input_meter.clip_sample_count
        }),
{
}

/// What the arrival of a playback callback records: one more callback, its frames, one more
/// oversized block where it has more than the prepared maximum, and one more underflow where
/// the output ran dry.
pub proof fn law_playback_arrival(
    stats: SharedStats,
    frame_count: usize,
    maximum: usize,
    flags: u64,
)
    ensures
        ({
            let after = RenderCallback::arrived(stats, frame_count, maximum, flags);
            &&& after.callback_count == (stats.callback_count + 1) % 0x1_0000_0000_0000_0000
            &&& after.callback_frame_count == (stats.callback_frame_count + frame_count)
                % 0x1_0000_0000_0000_0000
            &&& after.oversized_callback_count == if frame_count > maximum {
                (stats.oversized_callback_count + 1) % 0x1_0000_0000_0000_0000
            } else {
                stats.oversized_callback_count as int
            }
            &&& after.output_underflow_count == if flags & 4 != 0 {
                (stats.output_underflow_count + 1) % 0x1_0000_0000_0000_0000
            } else {
                stats.output_underflow_count as int
            }
            &&& after == (SharedStats {
                callback_count: after.callback_count,
                callback_frame_count: after.callback_frame_count,
                oversized_callback_count: after.oversized_callback_count,
                output_underflow_count: after.output_underflow_count,
                ..stats
            })
        }),
{
}

} // verus!
