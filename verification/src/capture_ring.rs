//! Mono capture clock recovery through a rate-adjusting ring.
//!
//! The ring itself, with its conversion and drift recovery, is a shared library. This
//! module holds the policy around it: how large it is, when playback may begin to draw
//! on it, and what its codes mean. Interleaved stereo is never taken for mono.
use vstd::prelude::*;

use crate::abi::{
    AUDIO_INVALID_ARGUMENT, AUDIO_NO_MEMORY, AUDIO_PORTAUDIO_ERROR, AUDIO_UNSUPPORTED,
    STREAM_SAMPLE_RATE_HZ,
};
use crate::pcm::fill;
use crate::text::{same_text, CText};

verus! {

/// Version of the ring library that streams are built on.
pub const RING_ABI: u32 = 2;

/// Diagnostic reserve, in samples, handed to every render.
pub const RING_RESERVE: u64 = 96;

/// The least capacity and the least priming of a ring, in samples.
pub const RING_MINIMUM: u64 = 512;

/// The best conversion quality that the ring offers.
pub const RING_QUALITY_BEST: u32 = 0;

/// The code by which the ring library reports a failed allocation.
pub const RING_NO_MEMORY: i32 = -2;

/// Size in bytes of the ring library's descriptor on the supported 64-bit platforms.
pub const RING_DESCRIPTOR_SIZE: u32 = 72;

/// The name of the capability that the descriptor has to carry.
pub const RING_CAPABILITY: &'static str = "rptadv.rate-adjusting-pcm-ring.f32";

/// The ring library's own description, with its entry points by type.
#[derive(Debug)]
pub struct RingDescriptor<'a, C, D, P, R, O> {
    pub struct_size: u32,
    pub abi_version: u32,
    pub capability_name: CText<'a>,
    pub create: Option<C>,
    pub destroy: Option<D>,
    pub push: Option<P>,
    pub render: Option<R>,
    pub observe: Option<O>,
}

/// Entry points of a descriptor that has been checked.
#[derive(Debug)]
pub struct RingFunctions<C, D, P, R, O> {
    pub create: C,
    pub destroy: D,
    pub push: P,
    pub render: R,
    pub observe: O,
}

impl<'a, C, D, P, R, O> RingDescriptor<'a, C, D, P, R, O> {
    /// The descriptor is of the right version and name, and offers what streams use.
    pub open spec fn acceptable(self) -> bool {
        &&& self.struct_size >= RING_DESCRIPTOR_SIZE
        &&& self.abi_version == RING_ABI
        &&& self.capability_name matches CText::Text(name) && name@ == RING_CAPABILITY@
        &&& self.create is Some
        &&& self.destroy is Some
        &&& self.push is Some
        &&& self.render is Some
        &&& self.observe is Some
    }
}

impl<C, D, P, R, O> RingFunctions<C, D, P, R, O> {
    /// Checks the ring library's descriptor; `None` stands for a missing one.
    pub fn from_descriptor<'a>(descriptor: Option<RingDescriptor<'a, C, D, P, R, O>>) -> (result:
        Result<Self, i32>)
        ensures
            match descriptor {
                Some(descriptor) if descriptor.acceptable() => result matches Ok(functions) && {
                    &&& descriptor.create == Some(functions.create)
                    &&& descriptor.destroy == Some(functions.destroy)
                    &&& descriptor.push == Some(functions.push)
                    &&& descriptor.render == Some(functions.render)
                    &&& descriptor.observe == Some(functions.observe)
                },
                _ => result matches Err(error) && error == AUDIO_UNSUPPORTED,
            },
    {
        let descriptor = match descriptor {
            Some(descriptor) => descriptor,
            None => return Err(AUDIO_UNSUPPORTED),
        };
        if descriptor.struct_size < RING_DESCRIPTOR_SIZE || descriptor.abi_version != RING_ABI {
            return Err(AUDIO_UNSUPPORTED);
        }
        match descriptor.capability_name {
            CText::Text(name) => {
                if !same_text(name, RING_CAPABILITY) {
                    return Err(AUDIO_UNSUPPORTED);
                }
            },
            _ => return Err(AUDIO_UNSUPPORTED),
        }
        match (
            descriptor.create,
            descriptor.destroy,
            descriptor.push,
            descriptor.render,
            descriptor.observe,
        ) {
            (Some(create), Some(destroy), Some(push), Some(render), Some(observe)) => Ok(
                RingFunctions { create, destroy, push, render, observe },
            ),
            _ => Err(AUDIO_UNSUPPORTED),
        }
    }
}

/// How a ring is to be created.
#[derive(Clone, Copy, Debug, PartialEq, Eq)]
pub struct RingConfig {
    pub abi_version: u32,
    pub capacity_samples: u64,
    pub input_rate_hz: u32,
    pub output_rate_hz: u32,
    pub quality: u32,
}

/// What became of the creation of a ring.
#[derive(Clone, Copy, Debug, PartialEq, Eq, Structural)]
pub enum RingCreation {
    /// The ring exists.
    Created,
    /// There is no ring to use. `destroy_stray` says that the failed call left a
    /// handle behind, which is to be destroyed.
    Refused { destroy_stray: bool, error: i32 },
}

/// Judges the reply to the creation of a ring: its code, and whether it gave a handle.
pub fn create_ring(code: i32, handle: bool) -> (creation: RingCreation)
    ensures
        creation is Created <==> code == 0 && handle,
        creation matches RingCreation::Refused { destroy_stray, error } ==> {
            &&& destroy_stray == (code != 0 && handle)
            &&& error == if code == RING_NO_MEMORY {
                AUDIO_NO_MEMORY
            } else {
                AUDIO_PORTAUDIO_ERROR
            }
        },
{
    if code != 0 {
        let error: i32 = if code == RING_NO_MEMORY {
            AUDIO_NO_MEMORY
        } else {
            AUDIO_PORTAUDIO_ERROR
        };
        return RingCreation::Refused { destroy_stray: handle, error };
    }
    if handle {
        RingCreation::Created
    } else {
        RingCreation::Refused { destroy_stray: false, error: AUDIO_PORTAUDIO_ERROR }
    }
}

/// Individually current mono-frame counters; startup silence is not an xrun.
#[derive(Clone, Copy, Debug, PartialEq, Eq)]
pub struct CaptureSnapshot {
    pub capacity_frames: u64,
    pub occupancy_frames: u64,
    pub target_frames: u64,
    pub dropped_frames: u64,
    pub shortfall_frames: u64,
    pub startup_silence_frames: u64,
    pub adapter_error_count: u64,
    pub ratio_correction_ppm: i32,
}

/// What the ring library reports of a ring, as far as it is used.
#[derive(Clone, Copy, Debug, PartialEq, Eq)]
pub struct RingObservation {
    pub capacity_samples: u64,
    pub available_samples: u64,
    pub discarded_samples: u64,
    pub missing_samples: u64,
    pub adapter_error_count: u64,
    pub ratio_correction_ppm: i32,
}

/// The larger of two sizes.
pub open spec fn at_least(size: int, least: int) -> int {
    if size < least {
        least
    } else {
        size
    }
}

/// A callback may process `maximum` frames at a time.
pub open spec fn ring_maximum_allowed(maximum: usize) -> bool {
    maximum != 0 && 4 * maximum <= u32::MAX
}

/// Four maximum blocks.
pub open spec fn ring_capacity(maximum: int) -> int {
    at_least(4 * maximum, RING_MINIMUM as int)
}

/// One maximum block and three fifths of another as headroom.
pub open spec fn ring_target(maximum: int) -> int {
    maximum + at_least(maximum * 3 / 5, RING_RESERVE as int)
}

/// The whole blocks that cover the target: playback must not start on a single
/// captured block.
pub open spec fn ring_prime(maximum: int) -> int {
    at_least((ring_target(maximum) + maximum - 1) / maximum * maximum, RING_MINIMUM as int)
}

/// The policy and the playback state of one mono ring, which exactly one capture and
/// one playback callback share.
#[derive(Clone, Copy, Debug, PartialEq, Eq)]
pub struct CaptureRing {
    pub maximum: usize,
    pub capacity: u64,
    pub target: u64,
    pub prime: u64,
    /// Playback has begun to draw on the ring.
    pub primed: bool,
    /// Frames of silence played before the ring was primed.
    pub startup_silence: u64,
}

impl CaptureRing {
    /// The sizes follow from the maximum block.
    pub open spec fn well_formed(self) -> bool {
        &&& ring_maximum_allowed(self.maximum)
        &&& self.capacity == ring_capacity(self.maximum as int)
        &&& self.target == ring_target(self.maximum as int)
        &&& self.prime == ring_prime(self.maximum as int)
    }

    /// The ring as it is before any playback.
    pub open spec fn restarted(self) -> CaptureRing {
        CaptureRing { primed: false, startup_silence: 0, ..self }
    }

    /// Chooses the sizes of a ring for blocks of at most `maximum` frames.
    pub fn new(maximum: usize) -> (result: Result<CaptureRing, i32>)
        ensures
            match result {
                Ok(ring) => ring.well_formed() && ring.maximum == maximum && !ring.primed
                    && ring.startup_silence == 0,
                Err(error) => error == AUDIO_INVALID_ARGUMENT && !ring_maximum_allowed(maximum),
            },
    {
        if maximum == 0 || maximum > 0x3fff_ffff {
            return Err(AUDIO_INVALID_ARGUMENT);
        }
        let block: u64 = maximum as u64;
        let capacity: u64 = if 4 * block < RING_MINIMUM {
            RING_MINIMUM
        } else {
            4 * block
        };
        let headroom: u64 = if block * 3 / 5 < RING_RESERVE {
            RING_RESERVE
        } else {
            block * 3 / 5
        };
        let target: u64 = block + headroom;
        let blocks: u64 = (target + block - 1) / block;
        proof {
            lemma_cover_bounds(target as int, block as int);
        }
        let cover: u64 = blocks * block;
        let prime: u64 = if cover < RING_MINIMUM {
            RING_MINIMUM
        } else {
            cover
        };
        Ok(
            CaptureRing { maximum, capacity, target, prime, primed: false, startup_silence: 0 },
        )
    }

    /// How the ring is to be created: at best quality, between two clocks of the same
    /// nominal rate.
    pub fn config(&self) -> (config: RingConfig)
        ensures
            config == (RingConfig {
                abi_version: RING_ABI,
                capacity_samples: self.capacity,
                input_rate_hz: STREAM_SAMPLE_RATE_HZ,
                output_rate_hz: STREAM_SAMPLE_RATE_HZ,
                quality: RING_QUALITY_BEST,
            }),
    {
        RingConfig {
            abi_version: RING_ABI,
            capacity_samples: self.capacity,
            input_rate_hz: STREAM_SAMPLE_RATE_HZ,
            output_rate_hz: STREAM_SAMPLE_RATE_HZ,
            quality: RING_QUALITY_BEST,
        }
    }

    /// What a push accepted, from the push's code and count.
    pub fn push(code: i32, accepted: u64) -> (result: Result<u64, i32>)
        ensures
            result == if code == 0 {
                Ok::<u64, i32>(accepted)
            } else {
                Err::<u64, i32>(AUDIO_PORTAUDIO_ERROR)
            },
    {
        if code == 0 {
            Ok(accepted)
        } else {
            Err(AUDIO_PORTAUDIO_ERROR)
        }
    }

    /// The counters that an observation of the ring gives.
    pub open spec fn observed(self, observation: RingObservation) -> CaptureSnapshot {
        CaptureSnapshot {
            capacity_frames: observation.capacity_samples,
            occupancy_frames: observation.available_samples,
            target_frames: self.target,
            dropped_frames: observation.discarded_samples,
            shortfall_frames: observation.missing_samples,
            startup_silence_frames: self.startup_silence,
            adapter_error_count: observation.adapter_error_count,
            ratio_correction_ppm: observation.ratio_correction_ppm,
        }
    }

    /// The counters of the ring, from the observation's code and content.
    pub fn snapshot(&self, code: i32, observation: RingObservation) -> (result: Result<
        CaptureSnapshot,
        i32,
    >)
        ensures
            result == if code == 0 {
                Ok::<CaptureSnapshot, i32>(self.observed(observation))
            } else {
                Err::<CaptureSnapshot, i32>(AUDIO_PORTAUDIO_ERROR)
            },
    {
        if code != 0 {
            return Err(AUDIO_PORTAUDIO_ERROR);
        }
        Ok(
            CaptureSnapshot {
                capacity_frames: observation.capacity_samples,
                occupancy_frames: observation.available_samples,
                target_frames: self.target,
                dropped_frames: observation.discarded_samples,
                shortfall_frames: observation.missing_samples,
                startup_silence_frames: self.startup_silence,
                adapter_error_count: observation.adapter_error_count,
                ratio_correction_ppm: observation.ratio_correction_ppm,
            },
        )
    }

    /// Forgets what was played, once a replacement of the ring was created; a refused
    /// replacement leaves the old ring in use.
    pub fn reset(&mut self, replacement: RingCreation) -> (result: Result<(), i32>)
        ensures
            match replacement {
                RingCreation::Created => result is Ok && *final(self) == old(self).restarted(),
                RingCreation::Refused { error, .. } => result == Err::<(), i32>(error)
                    && *final(self) == *old(self),
            },
    {
        match replacement {
            RingCreation::Created => {
                self.primed = false;
                self.startup_silence = 0;
                Ok(())
            },
            RingCreation::Refused { destroy_stray: _, error } => Err(error),
        }
    }
}

proof fn lemma_cover_bounds(target: int, block: int)
    requires
        block > 0,
        target >= 0,
    ensures
        target <= (target + block - 1) / block * block < target + block,
        0 <= (target + block - 1) / block,
{
    let sum = target + block - 1;
    vstd::arithmetic::div_mod::lemma_fundamental_div_mod(sum, block);
    assert(block * (sum / block) == sum / block * block) by (nonlinear_arith);
    assert(0 <= sum / block) by (nonlinear_arith)
        requires
            sum >= 0,
            block > 0,
    ;
}

/// A ring can always be primed: the whole blocks that playback waits for reach its
/// target and fit its capacity.
pub proof fn law_priming_is_reachable(maximum: usize)
    requires
        ring_maximum_allowed(maximum),
    ensures
        ring_target(maximum as int) <= ring_prime(maximum as int) <= ring_capacity(maximum as int),
        maximum < ring_target(maximum as int),
{
    let block = maximum as int;
    lemma_cover_bounds(ring_target(block), block);
    let blocks = (ring_target(block) + block - 1) / block;
    if block >= 160 {
        assert(blocks <= 2) by (nonlinear_arith)
            requires
                blocks * block < ring_target(block) + block,
                ring_target(block) <= 2 * block,
                block > 0,
        ;
        assert(blocks * block <= 2 * block) by (nonlinear_arith)
            requires
                blocks <= 2,
                block > 0,
        ;
    }
}

/// A call that drawing on the ring needs.
#[derive(Clone, Copy, Debug, PartialEq, Eq, Structural)]
pub enum PullCall {
    /// Observe the ring.
    Observe,
    /// Render `frames` samples with the given reserve and target.
    Render { frames: u64, reserve: u64, target: u64 },
}

/// Draws one block of mono samples from the ring, without ever waiting for capture.
#[derive(Clone, Copy, Debug, PartialEq, Eq)]
pub struct RingPull {
    /// The call to make next; none once the block is settled.
    pub next_call: Option<PullCall>,
    /// How many real samples the block holds, once it is settled.
    pub result: Result<u64, i32>,
    /// The length of the block.
    pub frames: usize,
}

impl RingPull {
    /// The call that renders a block of `frames` samples.
    pub open spec fn rendering(ring: CaptureRing, frames: usize) -> PullCall {
        PullCall::Render { frames: frames as u64, reserve: RING_RESERVE, target: ring.target }
    }

    /// Begins to fill `output`.
    ///
    /// A block that is too large is refused. Before the ring is primed the block is
    /// silent, and the ring is observed first.
    pub fn begin<T: Copy>(ring: &CaptureRing, output: &mut [T], silence: T) -> (pull: RingPull)
        ensures
            final(output)@.len() == old(output)@.len(),
            pull.frames == old(output)@.len(),
            pull.frames > ring.maximum || !ring.primed ==> final(output)@ == Seq::new(
                old(output)@.len(),
                |i: int| silence,
            ),
            pull.frames <= ring.maximum && ring.primed ==> final(output)@ == old(output)@,
            pull.next_call == if pull.frames > ring.maximum {
                None
            } else if !ring.primed {
                Some(PullCall::Observe)
            } else {
                Some(RingPull::rendering(*ring, pull.frames))
            },
            pull.result == if pull.frames > ring.maximum {
                Err::<u64, i32>(AUDIO_INVALID_ARGUMENT)
            } else {
                Ok::<u64, i32>(0)
            },
    {
        let frames: usize = output.len();
        if frames > ring.maximum {
            fill(output, silence);
            return RingPull { next_call: None, result: Err(AUDIO_INVALID_ARGUMENT), frames };
        }
        if !ring.primed {
            fill(output, silence);
            return RingPull { next_call: Some(PullCall::Observe), result: Ok(0), frames };
        }
        RingPull {
            next_call: Some(
                PullCall::Render {
                    frames: frames as u64,
                    reserve: RING_RESERVE,
                    target: ring.target,
                },
            ),
            result: Ok(0),
            frames,
        }
    }

    /// The call to make next, or none when the block is settled.
    pub fn call(&self) -> (call: Option<PullCall>)
        ensures
            call == self.next_call,
    {
        self.next_call
    }

    /// The operation and the ring after the observation that was due.
    pub open spec fn after_observe(
        self,
        ring: CaptureRing,
        code: i32,
        observation: RingObservation,
    ) -> (RingPull, CaptureRing) {
        if code != 0 {
            (
                RingPull { next_call: None, result: Err(AUDIO_PORTAUDIO_ERROR), ..self },
                ring,
            )
        } else if observation.available_samples < ring.prime {
            (
                RingPull { next_call: None, result: Ok(0), ..self },
                CaptureRing {
                    startup_silence: ring.startup_silence.wrapping_add(self.frames as u64),
                    ..ring
                },
            )
        } else {
            (
                RingPull { next_call: Some(RingPull::rendering(ring, self.frames)), ..self },
                CaptureRing { primed: true, ..ring },
            )
        }
    }

    /// Takes the observation that was due: playback waits in silence until the ring
    /// holds enough.
    pub fn observed(&mut self, ring: &mut CaptureRing, code: i32, observation: RingObservation)
        requires
            old(self).next_call == Some(PullCall::Observe),
        ensures
            (*final(self), *final(ring)) == old(self).after_observe(
                *old(ring),
                code,
                observation,
            ),
    {
        match ring.snapshot(code, observation) {
            Err(error) => {
                self.next_call = None;
                self.result = Err(error);
            },
            Ok(snapshot) => {
                if snapshot.occupancy_frames < ring.prime {
                    ring.startup_silence = ring.startup_silence.wrapping_add(self.frames as u64);
                    self.next_call = None;
                    self.result = Ok(0);
                } else {
                    ring.primed = true;
                    self.next_call = Some(
                        PullCall::Render {
                            frames: self.frames as u64,
                            reserve: RING_RESERVE,
                            target: ring.target,
                        },
                    );
                }
            },
        }
    }

    /// Takes the reply to the render that was due; a failed render leaves silence.
    pub fn rendered<T: Copy>(&mut self, output: &mut [T], silence: T, code: i32, rendered_frames: u64)
        requires
            old(self).next_call matches Some(PullCall::Render { .. }),
        ensures
            final(self).next_call is None,
            final(self).frames == old(self).frames,
            final(self).result == if code == 0 {
                Ok::<u64, i32>(rendered_frames)
            } else {
                Err::<u64, i32>(AUDIO_PORTAUDIO_ERROR)
            },
            final(output)@ == if code == 0 {
                old(output)@
            } else {
                Seq::new(old(output)@.len(), |i: int| silence)
            },
    {
        self.next_call = None;
        if code == 0 {
            self.result = Ok(rendered_frames);
        } else {
            fill(output, silence);
            self.result = Err(AUDIO_PORTAUDIO_ERROR);
        }
    }
}

/// The sizes of a ring, for every block size that is allowed. Its capacity is four blocks,
/// but no less than the minimum. Its target is a block and three fifths of one, rounded
/// down, but no less than the reserve. Playback begins at the fewest whole blocks that reach
/// the target, but no earlier than the minimum.
pub proof fn law_ring_sizes(maximum: usize)
    requires
        ring_maximum_allowed(maximum),
    ensures
        0 < maximum <= 0x3fff_ffff,
        ({
            let capacity = ring_capacity(maximum as int);
            &&& capacity >= 512 && capacity >= 4 * maximum
            &&& capacity == 512 || capacity == 4 * maximum
        }),
        ({
            let headroom = ring_target(maximum as int) - maximum;
            &&& headroom >= 96
            &&& 5 * headroom + 4 >= 3 * maximum
            &&& headroom == 96 || 5 * headroom <= 3 * maximum
        }),
        ({
            let prime = ring_prime(maximum as int);
            &&& prime >= 512 && prime >= ring_target(maximum as int)
            &&& prime == 512 || exists|blocks: int|
                prime == #[trigger] (blocks * maximum) && (blocks - 1) * maximum < ring_target(
                    maximum as int,
                )
        }),
{
    let block = maximum as int;
    let target = ring_target(block);
    lemma_cover_bounds(target, block);
    let blocks = (target + block - 1) / block;
    assert((blocks - 1) * block == blocks * block - block) by (nonlinear_arith);
    let prime = ring_prime(block);
    if prime != 512 {
        assert(prime == blocks * maximum);
    }
}

/// Every other block size is refused.
pub proof fn law_ring_refuses(maximum: usize)
    ensures
        ring_maximum_allowed(maximum) <==> 0 < maximum <= 0x3fff_ffff,
{
}

/// What a snapshot of the ring reports: the library's own counters, each in its place, and
/// the target and the startup silence of the policy.
pub proof fn law_snapshot_reads_each_counter(ring: CaptureRing, observation: RingObservation)
    ensures
        ({
            let snapshot = ring.observed(observation);
            &&& snapshot.capacity_frames == observation.capacity_samples
            &&& snapshot.occupancy_frames == observation.available_samples
            &&& snapshot.target_frames == ring.target
            &&& snapshot.dropped_frames == observation.discarded_samples
            &&& snapshot.shortfall_frames == observation.missing_samples
            &&& snapshot.startup_silence_frames == ring.startup_silence
            &&& snapshot.adapter_error_count == observation.adapter_error_count
            &&& snapshot.ratio_correction_ppm == observation.ratio_correction_ppm
        }),
{
}

/// Playback waits in silence until the ring holds enough, and counts the frames that it
/// waited; the first observation with enough in the ring ends the wait for good, and the same
/// block is then rendered, as are all later ones, towards the ring's target and with the
/// fixed reserve.
pub proof fn law_playback_waits_for_the_ring(
    pull: RingPull,
    ring: CaptureRing,
    code: i32,
    observation: RingObservation,
)
    ensures
        ({
            let (next, after) = pull.after_observe(ring, code, observation);
            &&& after == (CaptureRing {
                primed: after.primed,
                startup_silence: after.startup_silence,
                ..ring
            })
            &&& next.frames == pull.frames
            &&& next.next_call is Some <==> code == 0 && observation.available_samples >= ring.prime
            &&& code == 0 && observation.available_samples >= ring.prime ==> {
                &&& after.primed
                &&& after.startup_silence == ring.startup_silence
                &&& next.next_call == Some(
                    PullCall::Render {
                        frames: pull.frames as u64,
                        reserve: 96,
                        target: ring.target,
                    },
                )
            }
            &&& code == 0 && observation.available_samples < ring.prime ==> {
                &&& after.primed == ring.primed
                &&& next.result == Ok::<u64, i32>(0)
                &&& after.startup_silence == ring.startup_silence + pull.frames
                    || after.startup_silence == ring.startup_silence + pull.frames
                    - 0x1_0000_0000_0000_0000
            }
            &&& code != 0 ==> after == ring && next.result == Err::<u64, i32>(
                AUDIO_PORTAUDIO_ERROR,
            )
        }),
        RingPull::rendering(ring, pull.frames) == (PullCall::Render {
            frames: pull.frames as u64,
            reserve: 96,
            target: ring.target,
        }),
        ({
            let fresh = ring.restarted();
            &&& !fresh.primed && fresh.startup_silence == 0
            &&& fresh == (CaptureRing { primed: false, startup_silence: 0, ..ring })
        }),
{
}

/// What the ring library has to describe itself as: at least the known size, the known
/// version and name, and all five entry points.
pub proof fn law_acceptable_descriptor<'a, C, D, P, R, O>(
    descriptor: RingDescriptor<'a, C, D, P, R, O>,
)
    ensures
        descriptor.acceptable() <==> {
            &&& descriptor.struct_size >= 72
            &&& descriptor.abi_version == 2
            &&& descriptor.capability_name matches CText::Text(name) && name@
                == "rptadv.rate-adjusting-pcm-ring.f32"@
            &&& descriptor.create is Some && descriptor.destroy is Some
            &&& descriptor.push is Some && descriptor.render is Some
            &&& descriptor.observe is Some
        },
{
}

} // verus!
