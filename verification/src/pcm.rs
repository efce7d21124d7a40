//! Channel mapping between devices and canonical stereo, and level meters.
//!
//! Mapping copies samples of any type. Meters work on IEEE-754 binary32 bit patterns,
//! whose magnitudes are ordered as integers; what needs floating-point arithmetic is
//! handed in by the caller.
use vstd::prelude::*;

verus! {

/// Canonical PCM is interleaved stereo.
pub const CANONICAL_CHANNELS: usize = 2;

/// The bits of a sample that hold its magnitude.
pub const MAGNITUDE_MASK: u32 = 0x7fff_ffff;

/// The bit pattern of one, the full-scale magnitude.
pub const FULL_SCALE_BITS: u32 = 0x3f80_0000;

/// The bit pattern of infinity; larger magnitudes are no numbers.
pub const INFINITY_BITS: u32 = 0x7f80_0000;

/// Writes `value` to every place of `samples`.
pub fn fill<T: Copy>(samples: &mut [T], value: T)
    ensures
        final(samples)@ == Seq::new(old(samples)@.len(), |i: int| value),
{
    let length: usize = samples.len();
    let mut index: usize = 0;
    while index < length
        invariant
            index <= length,
            samples@.len() == length,
            forall|j: int| 0 <= j < index ==> samples@[j] == value,
        decreases length - index,
    {
        samples[index] = value;
        index = index + 1;
    }
    assert(samples@ =~= Seq::new(length as nat, |i: int| value));
}

/// What canonical stereo holds for a device's input: a mono sample twice, stereo as it
/// is, and silence where the device delivered nothing.
pub open spec fn canonical_of<T>(
    device_input: Option<Seq<T>>,
    device_channels: usize,
    length: nat,
    silence: T,
) -> Seq<T> {
    match device_input {
        Some(input) => if device_channels == 1 {
            Seq::new(length, |i: int| input[i / 2])
        } else {
            input
        },
        None => Seq::new(length, |i: int| silence),
    }
}

/// Maps device input to canonical stereo.
pub fn device_input_to_canonical<T: Copy>(
    device_input: Option<&[T]>,
    device_channels: usize,
    canonical_output: &mut [T],
    silence: T,
)
    requires
        device_channels == 1 || device_channels == CANONICAL_CHANNELS,
        old(canonical_output)@.len() % 2 == 0,
        device_input matches Some(input) ==> {
            &&& device_channels == 1 ==> input@.len() >= old(canonical_output)@.len() / 2
            &&& device_channels == 2 ==> input@.len() == old(canonical_output)@.len()
        },
    ensures
        final(canonical_output)@ == canonical_of(
            match device_input {
                Some(input) => Some(input@),
                None => None,
            },
            device_channels,
            old(canonical_output)@.len(),
            silence,
        ),
{
    let length: usize = canonical_output.len();
    match device_input {
        Some(input) => {
            let mut index: usize = 0;
            while index < length
                invariant
                    index <= length,
                    canonical_output@.len() == length,
                    device_channels == 1 || device_channels == 2,
                    device_channels == 1 ==> input@.len() >= length / 2,
                    length % 2 == 0,
                    device_channels == 2 ==> input@.len() == length,
                    forall|j: int|
                        0 <= j < index ==> canonical_output@[j] == canonical_of(
                            Some(input@),
                            device_channels,
                            length as nat,
                            silence,
                        )[j],
                decreases length - index,
            {
                let sample: T = if device_channels == 1 {
                    input[index / 2]
                } else {
                    input[index]
                };
                canonical_output[index] = sample;
                index = index + 1;
            }
            assert(canonical_output@ =~= canonical_of(
                Some(input@),
                device_channels,
                length as nat,
                silence,
            ));
        },
        None => {
            fill(canonical_output, silence);
        },
    }
}

/// `device` holds canonical stereo as a device takes it: the average of each pair for
/// mono, and stereo as it is.
pub open spec fn maps_to_device<T, F: Fn(T, T) -> T>(
    canonical: Seq<T>,
    device_channels: usize,
    before: Seq<T>,
    device: Seq<T>,
    average: F,
) -> bool {
    if device_channels == 1 {
        &&& device.len() == before.len()
        &&& forall|frame: int|
            0 <= frame < canonical.len() / 2 ==> call_ensures(
                average,
                (canonical[2 * frame], canonical[2 * frame + 1]),
                #[trigger] device[frame],
            )
        &&& forall|frame: int|
            canonical.len() / 2 <= frame < device.len() ==> #[trigger] device[frame]
                == before[frame]
    } else {
        device == canonical
    }
}

/// Maps canonical stereo to device output.
pub fn canonical_output_to_device<T: Copy, F: Fn(T, T) -> T>(
    canonical_input: &[T],
    device_channels: usize,
    device_output: &mut [T],
    average: &F,
)
    requires
        device_channels == 1 || device_channels == CANONICAL_CHANNELS,
        canonical_input@.len() % 2 == 0,
        device_channels == 1 ==> old(device_output)@.len() >= canonical_input@.len() / 2,
        device_channels == 2 ==> old(device_output)@.len() == canonical_input@.len(),
        forall|left: T, right: T| call_requires(*average, (left, right)),
    ensures
        final(device_output)@.len() == old(device_output)@.len(),
        maps_to_device(
            canonical_input@,
            device_channels,
            old(device_output)@,
            final(device_output)@,
            *average,
        ),
{
    if device_channels == 1 {
        let length: usize = canonical_input.len();
        let frames: usize = length / 2;
        let ghost before = device_output@;
        let mut frame: usize = 0;
        while frame < frames
            invariant
                frame <= frames,
                2 * frames == length,
                length == canonical_input@.len(),
                device_output@.len() == before.len(),
                frames <= before.len(),
                forall|left: T, right: T| call_requires(*average, (left, right)),
                forall|j: int|
                    0 <= j < frame ==> call_ensures(
                        *average,
                        (canonical_input@[2 * j], canonical_input@[2 * j + 1]),
                        #[trigger] device_output@[j],
                    ),
                forall|j: int|
                    frame <= j < before.len() ==> #[trigger] device_output@[j] == before[j],
            decreases frames - frame,
        {
            let left: T = canonical_input[2 * frame];
            let right: T = canonical_input[2 * frame + 1];
            let sample: T = average(left, right);
            device_output[frame] = sample;
            frame = frame + 1;
        }
    } else {
        let length: usize = canonical_input.len();
        let mut index: usize = 0;
        while index < length
            invariant
                index <= length,
                length == canonical_input@.len(),
                device_output@.len() == length,
                forall|j: int| 0 <= j < index ==> device_output@[j] == canonical_input@[j],
            decreases length - index,
        {
            device_output[index] = canonical_input[index];
            index = index + 1;
        }
        assert(device_output@ =~= canonical_input@);
    }
}

/// Channel mapping loses nothing: stereo comes back as it was, and so does mono where the
/// average of a sample with itself is that sample.
pub proof fn law_mapping_there_and_back<T, F: Fn(T, T) -> T>(
    input: Seq<T>,
    device_channels: usize,
    silence: T,
    before: Seq<T>,
    device: Seq<T>,
    average: F,
)
    requires
        device_channels == 1 || device_channels == CANONICAL_CHANNELS,
        before.len() == input.len(),
        maps_to_device(
            canonical_of(
                Some(input),
                device_channels,
                if device_channels == 1 {
                    2 * input.len()
                } else {
                    input.len()
                },
                silence,
            ),
            device_channels,
            before,
            device,
            average,
        ),
        device_channels == 1 ==> forall|i: int, mean: T|
            0 <= i < input.len() && #[trigger] call_ensures(
                average,
                (input[i], input[i]),
                mean,
            ) ==> mean == input[i],
    ensures
        device == input,
{
    if device_channels == 1 {
        let canonical = canonical_of(Some(input), device_channels, 2 * input.len(), silence);
        assert forall|frame: int| 0 <= frame < input.len() implies device[frame]
            == input[frame] by {
            assert(canonical[2 * frame] == input[frame]);
            assert(canonical[2 * frame + 1] == input[frame]);
            assert(call_ensures(average, (input[frame], input[frame]), device[frame]));
        }
        assert(device =~= input);
    }
}

/// The magnitude of a sample as an ordered bit pattern.
pub open spec fn magnitude(sample: u32) -> u32 {
    sample & MAGNITUDE_MASK
}

/// The sample reaches or exceeds full scale.
pub open spec fn is_clipped(sample: u32) -> bool {
    FULL_SCALE_BITS <= magnitude(sample) <= INFINITY_BITS
}

/// The largest magnitude among `peak` and the numbers in `samples`.
pub open spec fn peak_of(samples: Seq<u32>, peak: u32) -> u32
    decreases samples.len(),
{
    if samples.len() == 0 {
        peak
    } else {
        let before = peak_of(samples.drop_last(), peak);
        let last = magnitude(samples.last());
        if before < last && last <= INFINITY_BITS {
            last
        } else {
            before
        }
    }
}

/// How many of `samples` are clipped.
pub open spec fn clip_count(samples: Seq<u32>) -> nat
    decreases samples.len(),
{
    if samples.len() == 0 {
        0
    } else {
        clip_count(samples.drop_last()) + if is_clipped(samples.last()) {
            1nat
        } else {
            0nat
        }
    }
}

/// `count` after `more` events, held at `u64::MAX`.
pub open spec fn held_count(count: u64, more: nat) -> u64 {
    if count + more > u64::MAX {
        u64::MAX
    } else {
        (count + more) as u64
    }
}

/// `sums` are the running sums of the squares of `samples`, from `start` on.
pub open spec fn running_sums<S, F: Fn(S, u32) -> S>(
    add_square: F,
    start: S,
    samples: Seq<u32>,
    sums: Seq<S>,
) -> bool {
    &&& sums.len() == samples.len() + 1
    &&& sums[0] == start
    &&& forall|i: int|
        0 <= i < samples.len() ==> call_ensures(
            add_square,
            (#[trigger] sums[i], samples[i]),
            sums[i + 1],
        )
}

/// Peak, clipping and mean-square level of the samples observed so far.
///
/// `S` is the type of the sum of squares.
#[derive(Clone, Copy, Debug, PartialEq, Eq)]
pub struct MeterAccumulator<S> {
    pub sample_count: u64,
    pub clip_sample_count: u64,
    pub peak_bits: u32,
    pub sum_squares: S,
}

impl<S: Copy> MeterAccumulator<S> {
    /// `self` is `before` after it observed `samples`.
    pub open spec fn has_observed<F: Fn(S, u32) -> S>(
        self,
        before: MeterAccumulator<S>,
        samples: Seq<u32>,
        add_square: F,
    ) -> bool {
        &&& self.sample_count == held_count(before.sample_count, samples.len())
        &&& self.clip_sample_count == held_count(before.clip_sample_count, clip_count(samples))
        &&& self.peak_bits == peak_of(samples, before.peak_bits)
        &&& exists|sums: Seq<S>|
            running_sums(add_square, before.sum_squares, samples, sums) && self.sum_squares
                == #[trigger] sums.last()
    }

    /// A meter that has observed nothing; `zero` is the empty sum.
    pub fn new(zero: S) -> (meter: MeterAccumulator<S>)
        ensures
            meter == (MeterAccumulator {
                sample_count: 0,
                clip_sample_count: 0,
                peak_bits: 0,
                sum_squares: zero,
            }),
    {
        MeterAccumulator { sample_count: 0, clip_sample_count: 0, peak_bits: 0, sum_squares: zero }
    }

    /// Adds `samples` to the meter.
    pub fn observe<F: Fn(S, u32) -> S>(&mut self, samples: &[u32], add_square: &F)
        requires
            forall|sum: S, sample: u32| call_requires(*add_square, (sum, sample)),
        ensures
            final(self).has_observed(*old(self), samples@, *add_square),
    {
        let ghost before = *self;
        let ghost mut sums: Seq<S> = seq![self.sum_squares];
        let mut index: usize = 0;
        while index < samples.len()
            invariant
                index <= samples@.len(),
                forall|sum: S, sample: u32| call_requires(*add_square, (sum, sample)),
                self.sample_count == held_count(before.sample_count, index as nat),
                self.clip_sample_count == held_count(
                    before.clip_sample_count,
                    clip_count(samples@.take(index as int)),
                ),
                self.peak_bits == peak_of(samples@.take(index as int), before.peak_bits),
                running_sums(
                    *add_square,
                    before.sum_squares,
                    samples@.take(index as int),
                    sums,
                ),
                self.sum_squares == sums.last(),
            decreases samples@.len() - index,
        {
            let sample: u32 = samples[index];
            let size: u32 = sample & MAGNITUDE_MASK;
            let sum: S = add_square(self.sum_squares, sample);
            self.sample_count = self.sample_count.saturating_add(1);
            self.sum_squares = sum;
            if self.peak_bits < size && size <= INFINITY_BITS {
                self.peak_bits = size;
            }
            if FULL_SCALE_BITS <= size && size <= INFINITY_BITS {
                self.clip_sample_count = self.clip_sample_count.saturating_add(1);
            }
            proof {
                let seen = samples@.take(index as int);
                let more = samples@.take(index + 1);
                assert(more.drop_last() =~= seen);
                assert(more.last() == sample);
                let longer = sums.push(sum);
                assert forall|i: int| 0 <= i < more.len() implies call_ensures(
                    *add_square,
                    (#[trigger] longer[i], more[i]),
                    longer[i + 1],
                ) by {
                    if i < seen.len() {
                        assert(longer[i] == sums[i]);
                        assert(more[i] == seen[i]);
                    }
                }
                sums = longer;
            }
            index = index + 1;
        }
        assert(samples@.take(index as int) =~= samples@);
    }

    /// The largest observed magnitude.
    pub fn peak(&self) -> (peak: u32)
        ensures
            peak == self.peak_bits,
    {
        self.peak_bits
    }

    /// The root of the mean square, as `root` computes it from the sum and the count;
    /// the zero bit pattern before the first sample.
    pub fn rms<G: Fn(S, u64) -> u32>(&self, root: &G) -> (rms: u32)
        requires
            forall|sum: S, count: u64| call_requires(*root, (sum, count)),
        ensures
            self.sample_count == 0 ==> rms == 0,
            self.sample_count != 0 ==> call_ensures(
                *root,
                (self.sum_squares, self.sample_count),
                rms,
            ),
    {
        if self.sample_count == 0 {
            0
        } else {
            root(self.sum_squares, self.sample_count)
        }
    }

    /// How many observed samples were clipped.
    pub fn clip_sample_count(&self) -> (count: u64)
        ensures
            count == self.clip_sample_count,
    {
        self.clip_sample_count
    }
}

/// A meter does not depend on how a block is split: peak and clipping of two parts, one
/// after the other, are those of the whole.
pub proof fn law_splitting_keeps_the_meter(
    first: Seq<u32>,
    second: Seq<u32>,
    peak: u32,
    count: u64,
)
    ensures
        peak_of(first + second, peak) == peak_of(second, peak_of(first, peak)),
        clip_count(first + second) == clip_count(first) + clip_count(second),
        held_count(count, clip_count(first + second)) == held_count(
            held_count(count, clip_count(first)),
            clip_count(second),
        ),
        held_count(count, (first + second).len()) == held_count(
            held_count(count, first.len()),
            second.len(),
        ),
    decreases second.len(),
{
    if second.len() == 0 {
        assert(first + second =~= first);
    } else {
        law_splitting_keeps_the_meter(first, second.drop_last(), peak, count);
        assert((first + second).drop_last() =~= first + second.drop_last());
        assert((first + second).last() == second.last());
    }
}

/// Observing nothing changes nothing.
pub(crate) proof fn lemma_observed_nothing<S: Copy, F: Fn(S, u32) -> S>(
    meter: MeterAccumulator<S>,
    add_square: F,
)
    ensures
        meter.has_observed(meter, Seq::empty(), add_square),
{
    let sums = seq![meter.sum_squares];
    assert(running_sums(add_square, meter.sum_squares, Seq::empty(), sums));
    assert(sums.last() == meter.sum_squares);
}

/// A meter that observes two parts one after the other has observed the whole, the sum of
/// squares and the counts with the rest.
pub proof fn law_meters_observe_in_parts<S: Copy, F: Fn(S, u32) -> S>(
    before: MeterAccumulator<S>,
    between: MeterAccumulator<S>,
    after: MeterAccumulator<S>,
    first: Seq<u32>,
    second: Seq<u32>,
    add_square: F,
)
    requires
        between.has_observed(before, first, add_square),
        after.has_observed(between, second, add_square),
    ensures
        after.has_observed(before, first + second, add_square),
{
    law_splitting_keeps_the_meter(first, second, before.peak_bits, before.clip_sample_count);
    law_splitting_keeps_the_meter(first, second, before.peak_bits, before.sample_count);
    let start = choose|sums: Seq<S>|
        running_sums(add_square, before.sum_squares, first, sums) && between.sum_squares
            == #[trigger] sums.last();
    let end = choose|sums: Seq<S>|
        running_sums(add_square, between.sum_squares, second, sums) && after.sum_squares
            == #[trigger] sums.last();
    let whole = start + end.skip(1);
    assert forall|i: int| 0 <= i < (first + second).len() implies call_ensures(
        add_square,
        (#[trigger] whole[i], (first + second)[i]),
        whole[i + 1],
    ) by {
        if i < first.len() {
            assert(whole[i] == start[i] && whole[i + 1] == start[i + 1]);
        } else {
            let k = i - first.len();
            assert(whole[i] == end[k]);
            assert(whole[i + 1] == end[k + 1]);
        }
    }
    assert(running_sums(add_square, before.sum_squares, first + second, whole));
    assert(whole.last() == end.last());
}

/// The peak is the earlier peak or the magnitude of an observed number, and no observed
/// number exceeds it.
pub proof fn law_peak_bounds_every_sample(samples: Seq<u32>, peak: u32)
    ensures
        peak_of(samples, peak) >= peak,
        forall|i: int|
            0 <= i < samples.len() && magnitude(#[trigger] samples[i]) <= INFINITY_BITS
                ==> magnitude(samples[i]) <= peak_of(samples, peak),
        peak_of(samples, peak) == peak || exists|i: int|
            0 <= i < samples.len() && magnitude(#[trigger] samples[i]) == peak_of(samples, peak)
                && magnitude(samples[i]) <= INFINITY_BITS,
    decreases samples.len(),
{
    if samples.len() > 0 {
        let rest = samples.drop_last();
        law_peak_bounds_every_sample(rest, peak);
        assert forall|i: int|
            0 <= i < samples.len() && magnitude(#[trigger] samples[i])
                <= INFINITY_BITS implies magnitude(samples[i]) <= peak_of(samples, peak) by {
            if i < rest.len() {
                assert(rest[i] == samples[i]);
            }
        }
        if peak_of(samples, peak) != peak {
            if peak_of(samples, peak) == peak_of(rest, peak) {
                let i = choose|i: int|
                    0 <= i < rest.len() && magnitude(#[trigger] rest[i]) == peak_of(rest, peak)
                        && magnitude(rest[i]) <= INFINITY_BITS;
                assert(samples[i] == rest[i]);
            } else {
                assert(magnitude(samples[samples.len() - 1]) == peak_of(samples, peak));
            }
        }
    }
}

/// How many of `samples` are clipped, counted one by one.
proof fn lemma_clip_count_is_a_count(samples: Seq<u32>)
    ensures
        clip_count(samples) == samples.filter(
            |sample: u32| 0x3f80_0000 <= (sample & 0x7fff_ffff) <= 0x7f80_0000,
        ).len(),
    decreases samples.len(),
{
    reveal(Seq::filter);
    if samples.len() > 0 {
        lemma_clip_count_is_a_count(samples.drop_last());
    }
}

/// What a meter says of the samples that it observed, whatever their signs. The peak is at
/// least the magnitude of every observed number, and is one of those or the earlier peak;
/// what is no number does not count. A sample is clipped where its magnitude is at least
/// one, and each counter is the earlier one plus what was observed, held at its maximum.
pub proof fn law_meter_reads_magnitudes<S: Copy, F: Fn(S, u32) -> S>(
    before: MeterAccumulator<S>,
    after: MeterAccumulator<S>,
    samples: Seq<u32>,
    add_square: F,
)
    requires
        after.has_observed(before, samples, add_square),
    ensures
        after.peak_bits >= before.peak_bits,
        forall|i: int|
            0 <= i < samples.len() && (#[trigger] samples[i] & 0x7fff_ffff) <= 0x7f80_0000 ==> (
            samples[i] & 0x7fff_ffff) <= after.peak_bits,
        after.peak_bits == before.peak_bits || exists|i: int|
            0 <= i < samples.len() && (#[trigger] samples[i] & 0x7fff_ffff) == after.peak_bits
                && after.peak_bits <= 0x7f80_0000,
        ({
            let clipped = samples.filter(
                |sample: u32| 0x3f80_0000 <= (sample & 0x7fff_ffff) <= 0x7f80_0000,
            ).len();
            after.clip_sample_count == if before.clip_sample_count + clipped
                > 0xffff_ffff_ffff_ffff {
                0xffff_ffff_ffff_ffff
            } else {
                before.clip_sample_count + clipped
            }
        }),
        after.sample_count == if before.sample_count + samples.len() > 0xffff_ffff_ffff_ffff {
            0xffff_ffff_ffff_ffff
        } else {
            before.sample_count + samples.len()
        },
{
    law_peak_bounds_every_sample(samples, before.peak_bits);
    lemma_clip_count_is_a_count(samples);
    assert forall|i: int|
        0 <= i < samples.len() && (#[trigger] samples[i] & 0x7fff_ffff)
            <= 0x7f80_0000 implies (samples[i] & 0x7fff_ffff) <= after.peak_bits by {
        assert(magnitude(samples[i]) <= INFINITY_BITS);
    }
    if after.peak_bits != before.peak_bits {
        let i = choose|i: int|
            0 <= i < samples.len() && magnitude(#[trigger] samples[i]) == peak_of(
                samples,
                before.peak_bits,
            ) && magnitude(samples[i]) <= INFINITY_BITS;
        assert((samples[i] & 0x7fff_ffff) == after.peak_bits);
    }
}

proof fn lemma_signs_do_not_count(samples: Seq<u32>, mirrored: Seq<u32>, peak: u32)
    requires
        mirrored.len() == samples.len(),
        forall|i: int|
            0 <= i < samples.len() ==> #[trigger] mirrored[i] == samples[i] || mirrored[i]
                == samples[i] ^ 0x8000_0000,
    ensures
        peak_of(mirrored, peak) == peak_of(samples, peak),
        clip_count(mirrored) == clip_count(samples),
    decreases samples.len(),
{
    if samples.len() > 0 {
        assert forall|i: int| 0 <= i < samples.drop_last().len() implies (
        #[trigger] mirrored.drop_last()[i]) == samples.drop_last()[i]
            || mirrored.drop_last()[i] == samples.drop_last()[i] ^ 0x8000_0000 by {
            assert(mirrored[i] == samples[i] || mirrored[i] == samples[i] ^ 0x8000_0000);
        }
        lemma_signs_do_not_count(samples.drop_last(), mirrored.drop_last(), peak);
        let last = samples.last();
        let other = mirrored[samples.len() - 1];
        assert((last ^ 0x8000_0000) & 0x7fff_ffff == last & 0x7fff_ffff) by (bit_vector);
        assert(magnitude(other) == magnitude(last));
    }
}

/// Signs do not count: a block and the same block with any of its sign bits flipped leave
/// the same peak, and the same number of clipped and of observed samples.
pub proof fn law_meter_ignores_signs<S: Copy, F: Fn(S, u32) -> S>(
    before: MeterAccumulator<S>,
    after: MeterAccumulator<S>,
    other: MeterAccumulator<S>,
    samples: Seq<u32>,
    mirrored: Seq<u32>,
    add_square: F,
)
    requires
        after.has_observed(before, samples, add_square),
        other.has_observed(before, mirrored, add_square),
        mirrored.len() == samples.len(),
        forall|i: int|
            0 <= i < samples.len() ==> #[trigger] mirrored[i] == samples[i] || mirrored[i]
                == samples[i] ^ 0x8000_0000,
    ensures
        other.peak_bits == after.peak_bits,
        other.clip_sample_count == after.clip_sample_count,
        other.sample_count == after.sample_count,
{
    lemma_signs_do_not_count(samples, mirrored, before.peak_bits);
}

/// Channel by channel: a mono device feeds both sides of each frame, a stereo device each
/// side from its own, and a device that delivered nothing is silent.
pub proof fn law_canonical_channels<T>(
    input: Seq<T>,
    device_channels: usize,
    length: nat,
    silence: T,
    frame: int,
)
    requires
        length % 2 == 0,
        0 <= 2 * frame < length,
        device_channels == 1 ==> input.len() >= length / 2,
        device_channels == 2 ==> input.len() == length,
    ensures
        device_channels == 1 ==> {
            let canonical = canonical_of(Some(input), device_channels, length, silence);
            canonical.len() == length && canonical[2 * frame] == input[frame] && canonical[2 * frame
                + 1] == input[frame]
        },
        device_channels == 2 ==> {
            let canonical = canonical_of(Some(input), device_channels, length, silence);
            canonical.len() == length && canonical[2 * frame] == input[2 * frame] && canonical[2
                * frame + 1] == input[2 * frame + 1]
        },
        ({
            let canonical = canonical_of(None::<Seq<T>>, device_channels, length, silence);
            canonical.len() == length && canonical[2 * frame] == silence && canonical[2 * frame + 1]
                == silence
        }),
{
}

/// The sum of squares goes through every observed sample, in order and once: from the earlier
/// sum to the new one there is one addition for each sample.
pub proof fn law_meter_sums_every_sample<S: Copy, F: Fn(S, u32) -> S>(
    before: MeterAccumulator<S>,
    after: MeterAccumulator<S>,
    samples: Seq<u32>,
    add_square: F,
)
    requires
        after.has_observed(before, samples, add_square),
    ensures
        exists|sums: Seq<S>|
            {
                &&& sums.len() == samples.len() + 1
                &&& sums[0] == before.sum_squares
                &&& #[trigger] sums.last() == after.sum_squares
                &&& forall|i: int|
                    0 <= i < samples.len() ==> call_ensures(
                        add_square,
                        (#[trigger] sums[i], samples[i]),
                        sums[i + 1],
                    )
            },
        samples.len() == 1 ==> call_ensures(
            add_square,
            (before.sum_squares, samples[0]),
            after.sum_squares,
        ),
{
    let sums = choose|sums: Seq<S>|
        running_sums(add_square, before.sum_squares, samples, sums) && after.sum_squares
            == #[trigger] sums.last();
    assert(sums.last() == after.sum_squares);
    assert(sums[0] == before.sum_squares);
}

} // verus!
