//! Choosing PortAudio devices from the host's device inventory.
//!
//! `L` is the type of a latency; the library only copies latencies.
use vstd::prelude::*;

use crate::abi::{AUDIO_PORTAUDIO_ERROR, AUDIO_UNSUPPORTED, DEFAULT_DEVICE};
use crate::text::raw_alsa_device_from_portaudio_name;
use crate::text::RawAlsaDevice;

verus! {

/// The only sample format that streams use: 32-bit floating point.
pub const PA_FLOAT_32: u64 = 1;

/// A device name as the host API reports it.
#[derive(Debug, PartialEq, Eq)]
pub enum DeviceName {
    /// The host API reports no name at all.
    Missing,
    /// The name is no UTF-8 text.
    NotUtf8,
    Text(String),
}

/// What PortAudio reports of one device.
#[derive(Debug)]
pub struct DeviceInfo<L> {
    pub name: DeviceName,
    pub max_input_channels: i32,
    pub max_output_channels: i32,
    pub default_low_input_latency: L,
    pub default_low_output_latency: L,
}

/// What PortAudio reports of the host.
///
/// A negative `device_count` is an error code; otherwise there is one entry per
/// device, empty where PortAudio has no description.
#[derive(Debug)]
pub struct DeviceInventory<L> {
    pub default_input_device: i32,
    pub default_output_device: i32,
    pub device_count: i32,
    pub devices: Vec<Option<DeviceInfo<L>>>,
}

impl<L> DeviceInfo<L> {
    /// How many channels the device has in one direction.
    pub open spec fn channels(self, input: bool) -> i32 {
        if input {
            self.max_input_channels
        } else {
            self.max_output_channels
        }
    }

    /// The device's default low latency in one direction.
    pub open spec fn low_latency(self, input: bool) -> L {
        if input {
            self.default_low_input_latency
        } else {
            self.default_low_output_latency
        }
    }

    /// The raw ALSA device that the name spells, if it spells one.
    pub open spec fn raw_device(self) -> Option<RawAlsaDevice> {
        match self.name {
            DeviceName::Text(name) => crate::text::first_native_token(name@),
            _ => None,
        }
    }
}

impl<L> DeviceInventory<L> {
    /// There is one entry for each reported device.
    pub open spec fn complete(self) -> bool {
        self.device_count >= 0 ==> self.devices@.len() == self.device_count
    }

    /// The host's default device in one direction.
    pub open spec fn default_device(self, input: bool) -> i32 {
        if input {
            self.default_input_device
        } else {
            self.default_output_device
        }
    }

    /// The device that a configured index asks for.
    pub open spec fn requested(self, configured_index: i32, input: bool) -> i32 {
        if configured_index == DEFAULT_DEVICE {
            self.default_device(input)
        } else {
            configured_index
        }
    }

    /// The entry at `device` cannot be described, so no unique match can be trusted.
    pub open spec fn broken(self, device: int) -> bool {
        match self.devices@[device] {
            Some(info) => info.name is Missing,
            None => true,
        }
    }

    /// The entry at `device` is a raw ALSA endpoint of the wanted card, PCM device,
    /// direction and channel count.
    pub open spec fn serves(
        self,
        device: int,
        card_index: u32,
        pcm_device: Option<u32>,
        channels: usize,
        input: bool,
    ) -> bool {
        match self.devices@[device] {
            Some(info) => match info.raw_device() {
                Some(raw) => {
                    &&& info.channels(input) >= channels
                    &&& raw.card_index == card_index
                    &&& pcm_device is None || pcm_device == Some(raw.pcm_device)
                },
                None => false,
            },
            None => false,
        }
    }

    /// Two of the first `limit` devices serve the request.
    pub open spec fn ambiguous_before(
        self,
        limit: int,
        card_index: u32,
        pcm_device: Option<u32>,
        channels: usize,
        input: bool,
    ) -> bool {
        exists|first: int, second: int|
            0 <= first < second < limit && #[trigger] self.serves(
                first,
                card_index,
                pcm_device,
                channels,
                input,
            ) && #[trigger] self.serves(second, card_index, pcm_device, channels, input)
    }

    /// The search meets a broken entry before it meets two endpoints that serve.
    pub open spec fn unreadable(
        self,
        card_index: u32,
        pcm_device: Option<u32>,
        channels: usize,
        input: bool,
    ) -> bool {
        ||| self.device_count < 0
        ||| exists|device: int|
            0 <= device < self.device_count && #[trigger] self.broken(device)
                && !self.ambiguous_before(device, card_index, pcm_device, channels, input)
    }

    /// `device` is the one device that serves the request, in an inventory without
    /// broken entries.
    pub open spec fn only_endpoint(
        self,
        device: int,
        card_index: u32,
        pcm_device: Option<u32>,
        channels: usize,
        input: bool,
    ) -> bool {
        &&& 0 <= device < self.device_count
        &&& self.serves(device, card_index, pcm_device, channels, input)
        &&& forall|other: int|
            0 <= other < self.device_count && #[trigger] self.serves(
                other,
                card_index,
                pcm_device,
                channels,
                input,
            ) ==> other == device
        &&& forall|other: int| 0 <= other < self.device_count ==> !#[trigger] self.broken(other)
    }

    /// The device index that serves the request, or why there is none.
    pub open spec fn endpoint(
        self,
        card_index: u32,
        pcm_device: Option<u32>,
        channels: usize,
        input: bool,
    ) -> Result<i32, i32> {
        if self.unreadable(card_index, pcm_device, channels, input) {
            Err(AUDIO_PORTAUDIO_ERROR)
        } else if exists|device: i32|
            self.only_endpoint(device as int, card_index, pcm_device, channels, input) {
            Ok(
                choose|device: i32|
                    self.only_endpoint(device as int, card_index, pcm_device, channels, input),
            )
        } else {
            Err(AUDIO_UNSUPPORTED)
        }
    }
}

/// The search names a device exactly when that device is the only one that serves the
/// request and every entry of the inventory could be read.
pub proof fn law_endpoint_is_exact<L>(
    inventory: DeviceInventory<L>,
    device: i32,
    card_index: u32,
    pcm_device: Option<u32>,
    channels: usize,
    input: bool,
)
    ensures
        inventory.endpoint(card_index, pcm_device, channels, input) == Ok::<i32, i32>(device)
            <==> inventory.only_endpoint(device as int, card_index, pcm_device, channels, input),
{
    if inventory.only_endpoint(device as int, card_index, pcm_device, channels, input) {
        let chosen = choose|device: i32|
            inventory.only_endpoint(device as int, card_index, pcm_device, channels, input);
        assert(inventory.only_endpoint(chosen as int, card_index, pcm_device, channels, input));
        assert(chosen == device);
    }
}

/// How one direction of a stream is opened.
#[derive(Clone, Copy, Debug, PartialEq, Eq)]
pub struct StreamParameters<L> {
    pub device: i32,
    pub channel_count: i32,
    pub sample_format: u64,
    pub suggested_latency: L,
}

/// How a configured device is opened, or why it cannot be.
pub open spec fn resolved_device<L>(
    inventory: DeviceInventory<L>,
    configured_index: i32,
    channels: usize,
    input: bool,
) -> Result<StreamParameters<L>, i32> {
    let device = inventory.requested(configured_index, input);
    if inventory.device_count < 0 {
        Err(AUDIO_PORTAUDIO_ERROR)
    } else if !(0 <= device < inventory.device_count) {
        Err(AUDIO_UNSUPPORTED)
    } else {
        match inventory.devices@[device as int] {
            None => Err(AUDIO_PORTAUDIO_ERROR),
            Some(info) => if info.channels(input) < channels {
                Err(AUDIO_UNSUPPORTED)
            } else {
                Ok(
                    StreamParameters {
                        device,
                        channel_count: channels as i32,
                        sample_format: PA_FLOAT_32,
                        suggested_latency: info.low_latency(input),
                    },
                )
            },
        }
    }
}

/// Resolves a configured or default device to the parameters it is opened with.
pub fn resolve_device<L: Copy>(
    inventory: &DeviceInventory<L>,
    configured_index: i32,
    channels: usize,
    input: bool,
) -> (resolved: Result<StreamParameters<L>, i32>)
    requires
        inventory.complete(),
        channels <= i32::MAX,
    ensures
        resolved == resolved_device(*inventory, configured_index, channels, input),
{
    let device: i32 = if configured_index == DEFAULT_DEVICE {
        if input {
            inventory.default_input_device
        } else {
            inventory.default_output_device
        }
    } else {
        configured_index
    };
    if inventory.device_count < 0 {
        return Err(AUDIO_PORTAUDIO_ERROR);
    }
    if device < 0 || device >= inventory.device_count {
        return Err(AUDIO_UNSUPPORTED);
    }
    match &inventory.devices[device as usize] {
        None => Err(AUDIO_PORTAUDIO_ERROR),
        Some(info) => {
            let supported: i32 = if input {
                info.max_input_channels
            } else {
                info.max_output_channels
            };
            if supported < channels as i32 {
                return Err(AUDIO_UNSUPPORTED);
            }
            let latency: L = if input {
                info.default_low_input_latency
            } else {
                info.default_low_output_latency
            };
            Ok(
                StreamParameters {
                    device,
                    channel_count: channels as i32,
                    sample_format: PA_FLOAT_32,
                    suggested_latency: latency,
                },
            )
        },
    }
}

/// True when one readable entry serves the request.
fn entry_serves<L>(
    info: &DeviceInfo<L>,
    name: &str,
    card_index: u32,
    pcm_device: Option<u32>,
    channels: usize,
    input: bool,
) -> (serves: bool)
    requires
        channels <= i32::MAX,
    ensures
        serves == match crate::text::first_native_token(name@) {
            Some(raw) => {
                &&& info.channels(input) >= channels
                &&& raw.card_index == card_index
                &&& pcm_device is None || pcm_device == Some(raw.pcm_device)
            },
            None => false,
        },
{
    let supported: i32 = if input {
        info.max_input_channels
    } else {
        info.max_output_channels
    };
    match raw_alsa_device_from_portaudio_name(name) {
        None => false,
        Some(raw) => {
            let pcm_agrees: bool = match pcm_device {
                Some(expected) => raw.pcm_device == expected,
                None => true,
            };
            supported >= channels as i32 && raw.card_index == card_index && pcm_agrees
        },
    }
}

/// Resolves the one raw PortAudio ALSA endpoint that serves a request.
///
/// No match and several matches are unsupported; an entry without a description or
/// a name is an error, unless two matches came before it.
pub fn resolve_portaudio_device_for_alsa_endpoint<L>(
    inventory: &DeviceInventory<L>,
    card_index: u32,
    pcm_device: Option<u32>,
    channels: usize,
    input: bool,
) -> (resolved: Result<i32, i32>)
    requires
        inventory.complete(),
        channels <= i32::MAX,
    ensures
        resolved == inventory.endpoint(card_index, pcm_device, channels, input),
{
    if inventory.device_count < 0 {
        return Err(AUDIO_PORTAUDIO_ERROR);
    }
    let mut result: Option<i32> = None;
    let mut device: i32 = 0;
    while device < inventory.device_count
        invariant
            inventory.complete(),
            channels <= i32::MAX,
            0 <= device <= inventory.device_count,
            forall|d: int| 0 <= d < device ==> !#[trigger] inventory.broken(d),
            match result {
                Some(found) => 0 <= found < device && inventory.serves(
                    found as int,
                    card_index,
                    pcm_device,
                    channels,
                    input,
                ) && forall|d: int|
                    0 <= d < device && #[trigger] inventory.serves(
                        d,
                        card_index,
                        pcm_device,
                        channels,
                        input,
                    ) ==> d == found,
                None => forall|d: int|
                    0 <= d < device ==> !#[trigger] inventory.serves(
                        d,
                        card_index,
                        pcm_device,
                        channels,
                        input,
                    ),
            },
        decreases inventory.device_count - device,
    {
        match &inventory.devices[device as usize] {
            None => {
                assert(inventory.broken(device as int));
                return Err(AUDIO_PORTAUDIO_ERROR);
            },
            Some(info) => match &info.name {
                DeviceName::Missing => {
                    assert(inventory.broken(device as int));
                    return Err(AUDIO_PORTAUDIO_ERROR);
                },
                DeviceName::NotUtf8 => {},
                DeviceName::Text(name) => {
                    if entry_serves(info, name.as_str(), card_index, pcm_device, channels, input) {
                        assert(inventory.serves(
                            device as int,
                            card_index,
                            pcm_device,
                            channels,
                            input,
                        ));
                        if result.is_some() {
                            assert(inventory.ambiguous_before(
                                device + 1,
                                card_index,
                                pcm_device,
                                channels,
                                input,
                            ));
                            return Err(AUDIO_UNSUPPORTED);
                        }
                        result = Some(device);
                    }
                },
            },
        }
        device = device + 1;
    }
    match result {
        Some(found) => {
            proof {
                law_endpoint_is_exact(*inventory, found, card_index, pcm_device, channels, input);
            }
            Ok(found)
        },
        None => Err(AUDIO_UNSUPPORTED),
    }
}

/// Resolves the one raw PortAudio ALSA device of a card in one direction.
pub fn resolve_portaudio_device_for_alsa_card<L>(
    inventory: &DeviceInventory<L>,
    card_index: u32,
    channels: usize,
    input: bool,
) -> (resolved: Result<i32, i32>)
    requires
        inventory.complete(),
        channels <= i32::MAX,
    ensures
        resolved == inventory.endpoint(card_index, None, channels, input),
{
    resolve_portaudio_device_for_alsa_endpoint(inventory, card_index, None, channels, input)
}

/// A configured device is opened exactly where the inventory could be counted, the device is
/// the configured one, or the host's default for that direction, it is there and described,
/// and has enough channels in that direction. It is opened with the channels asked for and
/// its own low latency for that direction.
pub proof fn law_device_is_opened_in_its_direction<L>(
    inventory: DeviceInventory<L>,
    configured_index: i32,
    channels: usize,
    input: bool,
)
    requires
        channels <= i32::MAX,
    ensures
        ({
            let wanted = if configured_index != -1 {
                configured_index
            } else if input {
                inventory.default_input_device
            } else {
                inventory.default_output_device
            };
            let entry = inventory.devices@[wanted as int];
            let resolved = resolved_device(inventory, configured_index, channels, input);
            &&& resolved is Ok <==> {
                &&& 0 <= wanted < inventory.device_count
                &&& entry matches Some(info) && if input {
                    info.max_input_channels >= channels
                } else {
                    info.max_output_channels >= channels
                }
            }
            &&& resolved matches Ok(parameters) ==> {
                &&& parameters.device == wanted
                &&& parameters.channel_count == channels
                &&& parameters.sample_format == 1
                &&& parameters.suggested_latency == if input {
                    entry->0.default_low_input_latency
                } else {
                    entry->0.default_low_output_latency
                }
            }
            &&& resolved matches Err(error) ==> error == if inventory.device_count < 0 || (0
                <= wanted < inventory.device_count && entry is None) {
                AUDIO_PORTAUDIO_ERROR
            } else {
                AUDIO_UNSUPPORTED
            }
        }),
{
}

/// The search fails on the inventory itself exactly where the count is an error, or where it
/// comes to an entry without a description or a name before it has seen two devices that
/// would serve; where it sees two, the request is unsupported.
pub proof fn law_unreadable_inventory<L>(
    inventory: DeviceInventory<L>,
    card_index: u32,
    pcm_device: Option<u32>,
    channels: usize,
    input: bool,
)
    ensures
        inventory.endpoint(card_index, pcm_device, channels, input) == Err::<i32, i32>(
            AUDIO_PORTAUDIO_ERROR,
        ) <==> inventory.device_count < 0 || exists|device: int|
            {
                &&& 0 <= device < inventory.device_count
                &&& match #[trigger] inventory.devices@[device] {
                    None => true,
                    Some(info) => info.name is Missing,
                }
                &&& forall|first: int, second: int|
                    0 <= first < second < device ==> !(#[trigger] inventory.serves(
                        first,
                        card_index,
                        pcm_device,
                        channels,
                        input,
                    ) && #[trigger] inventory.serves(
                        second,
                        card_index,
                        pcm_device,
                        channels,
                        input,
                    ))
            },
        forall|device: int|
            #![trigger inventory.serves(device, card_index, pcm_device, channels, input)]
            inventory.serves(device, card_index, pcm_device, channels, input) <==> (
            inventory.devices@[device] matches Some(info) && (info.name matches DeviceName::Text(
                name,
            ) && (crate::text::first_native_token(name@) matches Some(raw) && {
                &&& raw.card_index == card_index
                &&& pcm_device matches Some(wanted) ==> raw.pcm_device == wanted
                &&& input ==> info.max_input_channels >= channels
                &&& !input ==> info.max_output_channels >= channels
            }))),
{
    if inventory.unreadable(card_index, pcm_device, channels, input) && inventory.device_count
        >= 0 {
        let device = choose|device: int|
            0 <= device < inventory.device_count && #[trigger] inventory.broken(device)
                && !inventory.ambiguous_before(device, card_index, pcm_device, channels, input);
        let entry = inventory.devices@[device];
    }
    assert forall|device: int|
        {
            &&& 0 <= device < inventory.device_count
            &&& match #[trigger] inventory.devices@[device] {
                None => true,
                Some(info) => info.name is Missing,
            }
        } implies inventory.broken(device) by {}
}

} // verus!
