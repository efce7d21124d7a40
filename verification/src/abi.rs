//! Result codes, fixed ABI sizes and stream configuration.
use vstd::prelude::*;

verus! {

/// Version that every versioned ABI structure carries.
pub const ABI_VERSION: u32 = 1;

/// The operation succeeded.
pub const AUDIO_OK: i32 = 0;

/// A caller-supplied argument or structure is malformed.
pub const AUDIO_INVALID_ARGUMENT: i32 = -1;

/// An allocation inside a hardware library failed.
pub const AUDIO_NO_MEMORY: i32 = -2;

/// PortAudio, the capture ring or the scheduler reported a failure.
pub const AUDIO_PORTAUDIO_ERROR: i32 = -3;

/// ALSA reported a failure.
pub const AUDIO_ALSA_ERROR: i32 = -4;

/// The request is well formed, but the hardware cannot serve it unambiguously.
pub const AUDIO_UNSUPPORTED: i32 = -5;

/// Another stream already owns one of the requested devices.
pub const AUDIO_DEVICE_BUSY: i32 = -6;

/// Configured index that selects the host's default device.
pub const DEFAULT_DEVICE: i32 = -1;

/// The only sample rate at which the capture ring bridges the two device clocks.
pub const STREAM_SAMPLE_RATE_HZ: u32 = 48_000;

/// Size in bytes of the C `StreamConfig` on the supported 64-bit platforms.
pub const STREAM_CONFIG_SIZE: u32 = 48;

/// One stream request, as a caller writes it.
///
/// `T` is the native tick function and `C` the context handed back to it; the
/// library only carries both.
#[derive(Clone, Copy, Debug)]
pub struct StreamConfig<T, C> {
    pub struct_size: u32,
    pub abi_version: u32,
    pub native_sample_rate_hz: u32,
    pub maximum_frame_count: u32,
    pub input_device_index: i32,
    pub output_device_index: i32,
    pub input_device_channels: u32,
    pub output_device_channels: u32,
    pub native_tick: Option<T>,
    pub native_tick_context: C,
}

/// True when a device channel count is mono or stereo.
pub open spec fn mono_or_stereo(channels: u32) -> bool {
    channels == 1 || channels == 2
}

impl<T, C> StreamConfig<T, C> {
    /// The fields a stream request must get right before any device is touched.
    pub open spec fn acceptable(self) -> bool {
        &&& self.struct_size >= STREAM_CONFIG_SIZE
        &&& self.abi_version == ABI_VERSION
        &&& self.native_sample_rate_hz != 0
        &&& self.maximum_frame_count != 0
        &&& mono_or_stereo(self.input_device_channels)
        &&& mono_or_stereo(self.output_device_channels)
        &&& self.input_device_index >= DEFAULT_DEVICE
        &&& self.output_device_index >= DEFAULT_DEVICE
        &&& self.native_tick is Some
    }
}

/// A stream request whose every field has been checked.
#[derive(Clone, Copy, Debug)]
pub struct ValidatedStreamConfig<T, C> {
    pub sample_rate_hz: u32,
    pub maximum_frame_count: usize,
    pub input_device_index: i32,
    pub output_device_index: i32,
    pub input_channels: usize,
    pub output_channels: usize,
    pub native_tick: T,
    pub native_tick_context: C,
}

impl<T, C> ValidatedStreamConfig<T, C> {
    /// `self` carries exactly the values of `config`.
    pub open spec fn describes(self, config: StreamConfig<T, C>) -> bool {
        &&& self.sample_rate_hz == config.native_sample_rate_hz
        &&& self.maximum_frame_count == config.maximum_frame_count
        &&& self.input_device_index == config.input_device_index
        &&& self.output_device_index == config.output_device_index
        &&& self.input_channels == config.input_device_channels
        &&& self.output_channels == config.output_device_channels
        &&& config.native_tick == Some(self.native_tick)
        &&& self.native_tick_context == config.native_tick_context
    }

    /// Checks a stream request; `None` stands for a missing one.
    pub fn from_ffi(config: Option<StreamConfig<T, C>>) -> (result: Result<Self, i32>)
        ensures
            match config {
                Some(config) if config.acceptable() => result matches Ok(validated)
                    && validated.describes(config),
                _ => result == Err::<Self, i32>(AUDIO_INVALID_ARGUMENT),
            },
    {
        let config = match config {
            Some(config) => config,
            None => return Err(AUDIO_INVALID_ARGUMENT),
        };
        if config.struct_size < STREAM_CONFIG_SIZE || config.abi_version != ABI_VERSION
            || config.native_sample_rate_hz == 0 || config.maximum_frame_count == 0 || !(
        config.input_device_channels == 1 || config.input_device_channels == 2) || !(
        config.output_device_channels == 1 || config.output_device_channels == 2)
            || config.input_device_index < DEFAULT_DEVICE || config.output_device_index
            < DEFAULT_DEVICE {
            return Err(AUDIO_INVALID_ARGUMENT);
        }
        match config.native_tick {
            Some(native_tick) => Ok(
                ValidatedStreamConfig {
                    sample_rate_hz: config.native_sample_rate_hz,
                    maximum_frame_count: config.maximum_frame_count as usize,
                    input_device_index: config.input_device_index,
                    output_device_index: config.output_device_index,
                    input_channels: config.input_device_channels as usize,
                    output_channels: config.output_device_channels as usize,
                    native_tick,
                    native_tick_context: config.native_tick_context,
                },
            ),
            None => Err(AUDIO_INVALID_ARGUMENT),
        }
    }
}

/// What a stream request must get right, in numbers: its size, its version, a rate and a
/// block size above zero, one or two channels in each direction, a device index from minus
/// one on in each direction, and a tick.
pub proof fn law_acceptable_request<T, C>(config: StreamConfig<T, C>)
    ensures
        config.acceptable() <==> {
            &&& config.struct_size >= 48
            &&& config.abi_version == 1
            &&& config.native_sample_rate_hz > 0
            &&& config.maximum_frame_count > 0
            &&& 1 <= config.input_device_channels <= 2
            &&& 1 <= config.output_device_channels <= 2
            &&& config.input_device_index >= -1
            &&& config.output_device_index >= -1
            &&& config.native_tick is Some
        },
{
}

/// A checked request keeps each direction apart: device and channels of the input are the
/// input's, those of the output the output's.
pub proof fn law_checked_request_keeps_the_fields<T, C>(
    config: StreamConfig<T, C>,
    validated: ValidatedStreamConfig<T, C>,
)
    requires
        validated.describes(config),
    ensures
        validated.input_device_index == config.input_device_index,
        validated.output_device_index == config.output_device_index,
        validated.input_channels == config.input_device_channels,
        validated.output_channels == config.output_device_channels,
        validated.sample_rate_hz == config.native_sample_rate_hz,
        validated.maximum_frame_count == config.maximum_frame_count,
        config.native_tick == Some(validated.native_tick),
        validated.native_tick_context == config.native_tick_context,
{
}

/// The results of the C interface are the numbers from zero down to minus six, each for one
/// cause.
pub proof fn law_results_are_numbered(code: i32)
    ensures
        code == AUDIO_OK <==> code == 0,
        code == AUDIO_INVALID_ARGUMENT <==> code == -1,
        code == AUDIO_NO_MEMORY <==> code == -2,
        code == AUDIO_PORTAUDIO_ERROR <==> code == -3,
        code == AUDIO_ALSA_ERROR <==> code == -4,
        code == AUDIO_UNSUPPORTED <==> code == -5,
        code == AUDIO_DEVICE_BUSY <==> code == -6,
        ABI_VERSION == 1,
        DEFAULT_DEVICE == -1,
{
}

} // verus!
