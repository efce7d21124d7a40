//! Splitting host blocks, and what the capture callback does with one.
//!
//! A host block of any size is split at the prepared maximum. Nothing here allocates,
//! waits or logs: the buffers are prepared, and each step is a bounded amount of work
//! between two calls that the caller makes.
//!
//! Samples are IEEE-754 binary32 bit patterns, in which zero is silence. `S` is the
//! type of a meter's sum of squares.
use vstd::prelude::*;

use crate::pcm::MeterAccumulator;
use crate::stats::{SharedStats, PA_INPUT_OVERFLOW};

verus! {

/// The callback's stream goes on.
pub const PA_CONTINUE: i32 = 0;

/// The callback's stream is aborted.
pub const PA_ABORT: i32 = 2;

/// A part of a host block.
#[derive(Clone, Copy, Debug, PartialEq, Eq, Structural)]
pub struct Chunk {
    pub offset: usize,
    pub frames: usize,
}

/// The part that starts at `offset`: as much as is left, but no more than `maximum`.
pub open spec fn next_chunk(frame_count: usize, maximum: usize, offset: usize) -> Chunk {
    Chunk {
        offset,
        frames: if frame_count - offset < maximum {
            (frame_count - offset) as usize
        } else {
            maximum
        },
    }
}

/// The parts of a block from `offset` on, in the order in which they are processed.
pub open spec fn chunks_from(frame_count: usize, maximum: usize, offset: usize) -> Seq<Chunk>
    decreases frame_count - offset,
{
    if offset >= frame_count || maximum == 0 {
        Seq::empty()
    } else {
        let chunk = next_chunk(frame_count, maximum, offset);
        seq![chunk] + chunks_from(frame_count, maximum, (offset + chunk.frames) as usize)
    }
}

/// The samples of all `chunks` of `block`, one after the other.
pub open spec fn joined(block: Seq<u32>, chunks: Seq<Chunk>) -> Seq<u32>
    decreases chunks.len(),
{
    if chunks.len() == 0 {
        Seq::empty()
    } else {
        block.subrange(chunks[0].offset as int, chunks[0].offset + chunks[0].frames) + joined(
            block,
            chunks.skip(1),
        )
    }
}

/// Splitting loses nothing, repeats nothing and keeps the order; no part is empty or
/// larger than the prepared maximum.
pub proof fn law_chunks_partition_the_block(block: Seq<u32>, maximum: usize, offset: usize)
    requires
        maximum > 0,
        offset <= block.len() <= usize::MAX,
    ensures
        joined(block, chunks_from(block.len() as usize, maximum, offset)) == block.skip(
            offset as int,
        ),
        forall|i: int|
            0 <= i < chunks_from(block.len() as usize, maximum, offset).len() ==> 0 < (
            #[trigger] chunks_from(block.len() as usize, maximum, offset)[i]).frames <= maximum,
    decreases block.len() - offset,
{
    let frame_count = block.len() as usize;
    let chunks = chunks_from(frame_count, maximum, offset);
    if offset < frame_count {
        let chunk = next_chunk(frame_count, maximum, offset);
        let after = (offset + chunk.frames) as usize;
        let rest = chunks_from(frame_count, maximum, after);
        law_chunks_partition_the_block(block, maximum, after);
        assert(chunks.skip(1) =~= rest);
        assert(block.subrange(offset as int, after as int) + block.skip(after as int)
            =~= block.skip(offset as int));
        assert forall|i: int| 0 <= i < chunks.len() implies 0 < (#[trigger] chunks[i]).frames
            <= maximum by {
            if i > 0 {
                assert(chunks[i] == rest[i - 1]);
            }
        }
    } else {
        assert(block.skip(offset as int) =~= Seq::<u32>::empty());
    }
}

/// The state of the capture callback, the only producer of the ring.
#[derive(Clone, Copy, Debug, PartialEq, Eq)]
pub struct CaptureState<S> {
    pub maximum_frame_count: usize,
    pub input_meter: MeterAccumulator<S>,
}

/// Statistics with the input level of `meter` and the given mean level published.
pub open spec fn input_published<S>(
    stats: SharedStats,
    meter: MeterAccumulator<S>,
    rms: u32,
) -> SharedStats {
    SharedStats {
        input_peak_bits: meter.peak_bits,
        input_rms_bits: rms,
        input_clip_sample_count: meter.clip_sample_count,
        ..stats
    }
}

/// `rms` is the mean level of `meter`, as `root` computes it.
pub open spec fn is_mean_level<S, G: Fn(S, u64) -> u32>(
    meter: MeterAccumulator<S>,
    root: G,
    rms: u32,
) -> bool {
    if meter.sample_count == 0 {
        rms == 0
    } else {
        call_ensures(root, (meter.sum_squares, meter.sample_count), rms)
    }
}

/// `count` samples of silence.
pub open spec fn silent_samples(count: nat) -> Seq<u32> {
    Seq::new(count, |i: int| 0u32)
}

/// True when the host lost input samples before this callback.
pub fn input_overflowed(flags: u64) -> (overflowed: bool)
    ensures
        overflowed == (flags & PA_INPUT_OVERFLOW != 0),
{
    flags & PA_INPUT_OVERFLOW != 0
}

/// One capture callback: each part of the block is observed, then pushed to the ring.
#[derive(Clone, Copy, Debug, PartialEq, Eq)]
pub struct CaptureCallback {
    pub frame_count: usize,
    pub maximum: usize,
    pub offset: usize,
    pub aborted: bool,
}

impl CaptureCallback {
    /// The callback has not run past its block.
    pub open spec fn well_formed(self) -> bool {
        self.offset <= self.frame_count && self.maximum > 0
    }

    /// The part that is due, if any is left.
    pub open spec fn due(self) -> Option<Chunk> {
        if self.aborted || self.offset >= self.frame_count {
            None
        } else {
            Some(next_chunk(self.frame_count, self.maximum, self.offset))
        }
    }

    /// The samples of the part that is due, of a block that the device delivered or not.
    pub open spec fn part_of(self, block: Option<Seq<u32>>) -> Seq<u32> {
        match block {
            Some(block) => block.subrange(
                self.offset as int,
                self.offset + self.due()->0.frames,
            ),
            None => silent_samples(self.due()->0.frames as nat),
        }
    }

    /// The statistics after the callback arrived with `flags`; `now` dates an overflow.
    pub open spec fn arrived(stats: SharedStats, flags: u64, now: u64) -> SharedStats {
        let counted = SharedStats {
            capture_callback_count: crate::stats::counted(stats.capture_callback_count),
            ..stats
        };
        if flags & PA_INPUT_OVERFLOW != 0 {
            SharedStats {
                input_overflow_count: crate::stats::counted(stats.input_overflow_count),
                ..counted
            }.capture_overflow_dated(now)
        } else {
            counted
        }
    }

    /// Begins a callback. `now` is a clock reading, zero for a failed one; it is looked
    /// at only where the host lost input.
    pub fn begin<S>(
        state: &CaptureState<S>,
        stats: &mut SharedStats,
        frame_count: usize,
        flags: u64,
        now: u64,
    ) -> (callback: CaptureCallback)
        requires
            state.maximum_frame_count > 0,
        ensures
            callback.well_formed(),
            callback == (CaptureCallback {
                frame_count,
                maximum: state.maximum_frame_count,
                offset: 0,
                aborted: false,
            }),
            *final(stats) == CaptureCallback::arrived(*old(stats), flags, now),
    {
        stats.capture_callback_count = stats.capture_callback_count.wrapping_add(1);
        if input_overflowed(flags) {
            stats.input_overflow_count = stats.input_overflow_count.wrapping_add(1);
            stats.record_capture_overflow_timestamp(now);
        }
        CaptureCallback {
            frame_count,
            maximum: state.maximum_frame_count,
            offset: 0,
            aborted: false,
        }
    }

    /// The part that is to be taken and pushed next, or none when the block is done.
    pub fn chunk(&self) -> (chunk: Option<Chunk>)
        requires
            self.well_formed(),
        ensures
            chunk == self.due(),
    {
        if self.aborted || self.offset >= self.frame_count {
            None
        } else {
            let left: usize = self.frame_count - self.offset;
            let frames: usize = if left < self.maximum {
                left
            } else {
                self.maximum
            };
            Some(Chunk { offset: self.offset, frames })
        }
    }

    /// Takes the samples of the part that is due, and observes them. A device that
    /// delivered nothing is silent; `silence` is a prepared buffer of zeros.
    pub fn take<'a, S: Copy, F: Fn(S, u32) -> S>(
        &self,
        state: &mut CaptureState<S>,
        input: Option<&'a [u32]>,
        silence: &'a [u32],
        add_square: &F,
    ) -> (samples: &'a [u32])
        requires
            self.well_formed(),
            self.due() is Some,
            input matches Some(input) ==> input@.len() == self.frame_count,
            silence@.len() >= self.maximum,
            forall|i: int| 0 <= i < silence@.len() ==> silence@[i] == 0,
            forall|sum: S, sample: u32| call_requires(*add_square, (sum, sample)),
        ensures
            samples@ == self.part_of(
                match input {
                    Some(input) => Some(input@),
                    None => None,
                },
            ),
            final(state).maximum_frame_count == old(state).maximum_frame_count,
            final(state).input_meter.has_observed(old(state).input_meter, samples@, *add_square),
    {
        let left: usize = self.frame_count - self.offset;
        let frames: usize = if left < self.maximum {
            left
        } else {
            self.maximum
        };
        let samples: &'a [u32] = match input {
            Some(input) => vstd::slice::slice_subrange(input, self.offset, self.offset + frames),
            None => vstd::slice::slice_subrange(silence, 0, frames),
        };
        assert(input is None ==> samples@ =~= silent_samples(frames as nat));
        state.input_meter.observe(samples, add_square);
        samples
    }

    /// Takes the ring's answer for the part that was pushed. A failed push aborts the
    /// callback.
    pub fn pushed(&mut self, stats: &mut SharedStats, accepted: bool)
        requires
            old(self).well_formed(),
            old(self).due() is Some,
        ensures
            final(self).well_formed(),
            accepted ==> *final(stats) == *old(stats) && *final(self) == (CaptureCallback {
                offset: (old(self).offset + old(self).due()->0.frames) as usize,
                ..*old(self)
            }),
            !accepted ==> *final(stats) == old(stats).device_error_counted() && *final(self) == (
            CaptureCallback { aborted: true, ..*old(self) }),
    {
        if accepted {
            let left: usize = self.frame_count - self.offset;
            self.offset = if left < self.maximum {
                self.frame_count
            } else {
                self.offset + self.maximum
            };
        } else {
            stats.count_device_error();
            self.aborted = true;
        }
    }

    /// Publishes the input level and returns PortAudio's code.
    pub fn finish<S: Copy, G: Fn(S, u64) -> u32>(
        &self,
        state: &CaptureState<S>,
        stats: &mut SharedStats,
        root: &G,
    ) -> (code: i32)
        requires
            self.due() is None,
            forall|sum: S, count: u64| call_requires(*root, (sum, count)),
        ensures
            code == if self.aborted {
                PA_ABORT
            } else {
                PA_CONTINUE
            },
            exists|rms: u32|
                is_mean_level(state.input_meter, *root, rms) && *final(stats)
                    == #[trigger] input_published(*old(stats), state.input_meter, rms),
    {
        let rms: u32 = state.input_meter.rms(root);
        stats.input_peak_bits = state.input_meter.peak();
        stats.input_rms_bits = rms;
        stats.input_clip_sample_count = state.input_meter.clip_sample_count();
        assert(*stats == input_published(*old(stats), state.input_meter, rms));
        if self.aborted {
            PA_ABORT
        } else {
            PA_CONTINUE
        }
    }

    /// The callback after the first `chunks` parts of its block have been pushed.
    pub open spec fn after_pushes(self, chunks: nat) -> CaptureCallback
        decreases chunks,
    {
        if chunks == 0 || self.due() is None {
            self
        } else {
            CaptureCallback {
                offset: (self.offset + self.due()->0.frames) as usize,
                ..self
            }.after_pushes((chunks - 1) as nat)
        }
    }
}

/// A callback whose pushes all succeed goes through exactly the parts of its block, and
/// then has nothing left to do.
pub proof fn law_capture_visits_every_chunk(callback: CaptureCallback)
    requires
        callback.well_formed(),
        !callback.aborted,
    ensures
        ({
            let chunks = chunks_from(callback.frame_count, callback.maximum, callback.offset);
            &&& callback.after_pushes(chunks.len()).due() is None
            &&& forall|i: int|
                0 <= i < chunks.len() ==> callback.after_pushes(i as nat).due() == Some(
                    #[trigger] chunks[i],
                )
        }),
    decreases callback.frame_count - callback.offset,
{
    let chunks = chunks_from(callback.frame_count, callback.maximum, callback.offset);
    if callback.due() is Some {
        let chunk = callback.due()->0;
        let next = CaptureCallback {
            offset: (callback.offset + chunk.frames) as usize,
            ..callback
        };
        law_capture_visits_every_chunk(next);
        let rest = chunks_from(next.frame_count, next.maximum, next.offset);
        assert(chunks =~= seq![chunk] + rest);
        assert forall|i: int| 0 <= i < chunks.len() implies callback.after_pushes(i as nat).due()
            == Some(#[trigger] chunks[i]) by {
            if i > 0 {
                assert(chunks[i] == rest[i - 1]);
                assert(next.after_pushes((i - 1) as nat).due() == Some(rest[i - 1]));
            }
        }
    }
}

/// The callback after one more push.
proof fn lemma_one_more_push(callback: CaptureCallback, pushes: nat)
    ensures
        callback.after_pushes(pushes + 1) == callback.after_pushes(pushes).after_pushes(1),
        callback.after_pushes(pushes).frame_count == callback.frame_count,
        callback.after_pushes(pushes).maximum == callback.maximum,
        callback.after_pushes(pushes).aborted == callback.aborted,
        callback.well_formed() ==> callback.after_pushes(pushes).well_formed(),
    decreases pushes,
{
    reveal_with_fuel(CaptureCallback::after_pushes, 2);
    if pushes > 0 && callback.due() is Some {
        let next = CaptureCallback {
            offset: (callback.offset + callback.due()->0.frames) as usize,
            ..callback
        };
        lemma_one_more_push(next, (pushes - 1) as nat);
    }
}

/// The part after `k` pushes was due, and its samples were taken and observed.
pub open spec fn part_taken<S: Copy, F: Fn(S, u32) -> S>(
    callback: CaptureCallback,
    block: Option<Seq<u32>>,
    taken: Seq<Seq<u32>>,
    meters: Seq<MeterAccumulator<S>>,
    add_square: F,
    k: int,
) -> bool {
    let part = callback.after_pushes(k as nat);
    &&& part.due() is Some
    &&& taken[k] == part.part_of(block)
    &&& meters[k + 1].has_observed(meters[k], taken[k], add_square)
}

/// `taken` are the samples of the first parts of a block, each taken as
/// [`CaptureCallback::take`] does, and `meters` the meter before and after each of them.
pub open spec fn taken_in_parts<S: Copy, F: Fn(S, u32) -> S>(
    callback: CaptureCallback,
    block: Option<Seq<u32>>,
    taken: Seq<Seq<u32>>,
    meters: Seq<MeterAccumulator<S>>,
    add_square: F,
) -> bool {
    &&& meters.len() == taken.len() + 1
    &&& forall|k: int|
        0 <= k < taken.len() ==> #[trigger] part_taken(
            callback,
            block,
            taken,
            meters,
            add_square,
            k,
        )
}

/// The first `frames` frames of a block, or as much silence where there is none.
pub open spec fn block_or_silence(block: Option<Seq<u32>>, frames: int) -> Seq<u32> {
    match block {
        Some(block) => block.take(frames),
        None => silent_samples(frames as nat),
    }
}

/// What was taken before the last part was taken in parts too.
proof fn lemma_taken_before<S: Copy, F: Fn(S, u32) -> S>(
    callback: CaptureCallback,
    block: Option<Seq<u32>>,
    taken: Seq<Seq<u32>>,
    meters: Seq<MeterAccumulator<S>>,
    add_square: F,
)
    requires
        taken.len() > 0,
        taken_in_parts(callback, block, taken, meters, add_square),
    ensures
        taken_in_parts(callback, block, taken.drop_last(), meters.drop_last(), add_square),
{
    assert forall|k: int| 0 <= k < taken.drop_last().len() implies #[trigger] part_taken(
        callback,
        block,
        taken.drop_last(),
        meters.drop_last(),
        add_square,
        k,
    ) by {
        assert(part_taken(callback, block, taken, meters, add_square, k));
    }
}

/// The part after `pushes` pushes continues what was taken before it.
proof fn lemma_part_continues(
    callback: CaptureCallback,
    block: Option<Seq<u32>>,
    pushes: nat,
)
    requires
        callback.well_formed(),
        block matches Some(block) ==> block.len() == callback.frame_count,
        callback.after_pushes(pushes).due() is Some,
    ensures
        block_or_silence(block, callback.after_pushes(pushes).offset as int)
            + callback.after_pushes(pushes).part_of(block) == block_or_silence(
            block,
            callback.after_pushes(pushes + 1).offset as int,
        ),
{
    let part = callback.after_pushes(pushes);
    let end = callback.after_pushes(pushes + 1);
    lemma_one_more_push(callback, pushes);
    assert(end.offset == part.offset + part.due()->0.frames) by {
        reveal_with_fuel(CaptureCallback::after_pushes, 2);
    }
    assert(block_or_silence(block, part.offset as int) + part.part_of(block)
        =~= block_or_silence(block, end.offset as int));
}

/// What was taken so far, and that the meter has observed it.
proof fn lemma_taken_so_far<S: Copy, F: Fn(S, u32) -> S>(
    callback: CaptureCallback,
    block: Option<Seq<u32>>,
    taken: Seq<Seq<u32>>,
    meters: Seq<MeterAccumulator<S>>,
    add_square: F,
)
    requires
        callback.well_formed(),
        callback.offset == 0,
        block matches Some(block) ==> block.len() == callback.frame_count,
        taken_in_parts(callback, block, taken, meters, add_square),
    ensures
        taken.flatten() == block_or_silence(
            block,
            callback.after_pushes(taken.len()).offset as int,
        ),
        meters.last().has_observed(meters[0], taken.flatten(), add_square),
    decreases taken.len(),
{
    if taken.len() == 0 {
        assert(taken.flatten() =~= Seq::<u32>::empty());
        assert(block_or_silence(block, 0) =~= Seq::<u32>::empty());
        crate::pcm::lemma_observed_nothing(meters[0], add_square);
    } else {
        let earlier = taken.drop_last();
        let k = earlier.len();
        lemma_taken_before(callback, block, taken, meters, add_square);
        lemma_taken_so_far(callback, block, earlier, meters.drop_last(), add_square);
        assert(part_taken(callback, block, taken, meters, add_square, k as int));
        lemma_part_continues(callback, block, k);
        assert(taken =~= earlier.push(taken.last()));
        earlier.lemma_flatten_push(taken.last());
        crate::pcm::law_meters_observe_in_parts(
            meters[0],
            meters[k as int],
            meters.last(),
            earlier.flatten(),
            taken.last(),
            add_square,
        );
    }
}

/// What a capture callback comes to: the samples that it pushes, one part after the other,
/// are the device's block up to where it has come, or as much silence where the device
/// delivered none; the meter has observed just those; and once all parts are pushed, that
/// is the whole block.
pub proof fn law_capture_pushes_the_block<S: Copy, F: Fn(S, u32) -> S>(
    callback: CaptureCallback,
    block: Option<Seq<u32>>,
    taken: Seq<Seq<u32>>,
    meters: Seq<MeterAccumulator<S>>,
    add_square: F,
)
    requires
        callback.well_formed(),
        callback.offset == 0,
        !callback.aborted,
        block matches Some(block) ==> block.len() == callback.frame_count,
        taken_in_parts(callback, block, taken, meters, add_square),
    ensures
        callback.after_pushes(taken.len()).offset <= callback.frame_count,
        taken.flatten() == block_or_silence(
            block,
            callback.after_pushes(taken.len()).offset as int,
        ),
        meters.last().has_observed(meters[0], taken.flatten(), add_square),
        taken.len() == chunks_from(callback.frame_count, callback.maximum, 0).len() ==> {
            &&& callback.after_pushes(taken.len()).due() is None
            &&& taken.flatten() == match block {
                Some(block) => block,
                None => silent_samples(callback.frame_count as nat),
            }
        },
{
    let end = callback.after_pushes(taken.len());
    lemma_taken_so_far(callback, block, taken, meters, add_square);
    lemma_one_more_push(callback, taken.len());
    if taken.len() == chunks_from(callback.frame_count, callback.maximum, 0).len() {
        assert(end.due() is None) by {
            law_capture_visits_every_chunk(callback);
        }
        if block is Some {
            assert(block->0.take(end.offset as int) =~= block->0);
        }
    }
}

/// What the arrival of a capture callback records: one more capture callback, and where the
/// host lost input one more overflow, dated where the clock could be read.
pub proof fn law_capture_arrival(stats: SharedStats, flags: u64, now: u64)
    ensures
        ({
            let after = CaptureCallback::arrived(stats, flags, now);
            let lost = flags & 2 != 0;
            &&& after.capture_callback_count == (stats.capture_callback_count + 1)
                % 0x1_0000_0000_0000_0000
            &&& after.input_overflow_count == if lost {
                (stats.input_overflow_count + 1) % 0x1_0000_0000_0000_0000
            } else {
                stats.input_overflow_count as int
            }
            &&& after.last_input_xrun_monotonic_ns == if lost && now != 0 {
                now
            } else {
                stats.last_input_xrun_monotonic_ns
            }
            &&& after.callback_clock_error_count == if lost && now == 0 {
                (stats.callback_clock_error_count + 1) % 0x1_0000_0000_0000_0000
            } else {
                stats.callback_clock_error_count as int
            }
            &&& after == (SharedStats {
                capture_callback_count: after.capture_callback_count,
                input_overflow_count: after.input_overflow_count,
                last_input_xrun_monotonic_ns: after.last_input_xrun_monotonic_ns,
                callback_clock_error_count: after.callback_clock_error_count,
                ..stats
            })
        }),
{
}

/// The mean level of a meter is the root of its own sum over its own count, and nothing
/// before the first sample.
pub proof fn law_mean_level<S, G: Fn(S, u64) -> u32>(
    meter: MeterAccumulator<S>,
    root: G,
    rms: u32,
)
    ensures
        meter.sample_count == 0 ==> (is_mean_level(meter, root, rms) <==> rms == 0),
        meter.sample_count > 0 ==> (is_mean_level(meter, root, rms) <==> call_ensures(
            root,
            (meter.sum_squares, meter.sample_count),
            rms,
        )),
{
}

/// A part is as large as it may be: it has all frames that are left, or the prepared maximum
/// where more are left. It starts where the callback has come to, and an aborted or finished
/// callback has none.
pub proof fn law_parts_are_as_large_as_possible(callback: CaptureCallback)
    requires
        callback.well_formed(),
    ensures
        callback.due() is None <==> callback.aborted || callback.offset == callback.frame_count,
        callback.due() matches Some(chunk) ==> {
            &&& chunk.offset == callback.offset
            &&& chunk.frames <= callback.maximum
            &&& callback.offset + chunk.frames <= callback.frame_count
            &&& chunk.frames == callback.maximum || callback.offset + chunk.frames
                == callback.frame_count
        },
{
}

/// PortAudio goes on with a zero and aborts with a two.
pub proof fn law_callback_codes(code: i32)
    ensures
        code == PA_CONTINUE <==> code == 0,
        code == PA_ABORT <==> code == 2,
{
}

} // verus!
