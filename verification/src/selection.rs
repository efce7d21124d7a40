//! Selecting a USB sound device by its stable identity.
use vstd::prelude::*;

use crate::abi::{AUDIO_INVALID_ARGUMENT, AUDIO_UNSUPPORTED};
use crate::devices::{resolve_portaudio_device_for_alsa_endpoint, DeviceInfo, DeviceInventory};
use crate::sysfs::{
    resolve_alsa_card_index_from_sysfs_identity, resolve_usb_card_from_alsa_card, CardIdentity,
    ResolvedUsbCard, SoundEntry,
};
use crate::text::{
    parse_legacy_hw_selector, same_text, starts_with_hw, valid_usb_interface_path,
    valid_usb_serial, CText, LegacyHwSelector,
};

verus! {

/// Size in bytes of the C `UsbDeviceIdentity`.
pub const USB_DEVICE_IDENTITY_SIZE: u32 = 32;

/// Size in bytes of the C `UsbDeviceSelection`.
pub const USB_DEVICE_SELECTION_SIZE: u32 = 20;

/// Size in bytes of the C `UsbDeviceSelector`.
pub const USB_DEVICE_SELECTOR_SIZE: u32 = 32;

/// Size in bytes of the C `UsbDeviceMatch`.
pub const USB_DEVICE_MATCH_SIZE: u32 = 540;

/// Bytes that a USB interface path and its terminator may take.
pub const USB_INTERFACE_PATH_CAPACITY: usize = 256;

/// Bytes that a USB serial number and its terminator may take.
pub const USB_SERIAL_CAPACITY: usize = 256;

/// Selection policy: exactly the device that the selector names.
pub const USB_SELECTION_EXACT: u32 = 0;

/// Selection policy: the usable USB device with the lowest ALSA card number.
pub const USB_SELECTION_AUTOMATIC_LOWEST_ALSA_CARD: u32 = 1;

/// What an optional C string says, or none where it is no text.
pub open spec fn c_text(value: CText) -> Result<Option<Seq<char>>, i32> {
    match value {
        CText::Null => Ok(None),
        CText::NotUtf8 => Err(AUDIO_INVALID_ARGUMENT),
        CText::Text(text) => Ok(Some(text@)),
    }
}

/// Reads an optional C string.
pub fn optional_utf8_c_string<'a>(value: CText<'a>) -> (result: Result<Option<&'a str>, i32>)
    ensures
        match result {
            Ok(text) => c_text(value) == Ok::<Option<Seq<char>>, i32>(crate::sysfs::str_of(text)),
            Err(error) => c_text(value) == Err::<Option<Seq<char>>, i32>(error),
        },
{
    match value {
        CText::Null => Ok(None),
        CText::NotUtf8 => Err(AUDIO_INVALID_ARGUMENT),
        CText::Text(text) => Ok(Some(text)),
    }
}

/// The stable identity of a device, as a caller writes it.
#[derive(Clone, Copy, Debug)]
pub struct UsbDeviceIdentity<'a> {
    pub struct_size: u32,
    pub usb_interface_path: CText<'a>,
    pub usb_serial: CText<'a>,
    pub input_device_channels: u32,
    pub output_device_channels: u32,
}

impl<'a> UsbDeviceIdentity<'a> {
    /// The identity is complete and well formed.
    pub open spec fn acceptable(self) -> bool {
        &&& self.struct_size >= USB_DEVICE_IDENTITY_SIZE
        &&& crate::abi::mono_or_stereo(self.input_device_channels)
        &&& crate::abi::mono_or_stereo(self.output_device_channels)
        &&& match (c_text(self.usb_interface_path), c_text(self.usb_serial)) {
            (Ok(path), Ok(serial)) => {
                &&& path is Some || serial is Some
                &&& path matches Some(path) ==> crate::text::usb_interface_path_allowed(path)
                &&& serial matches Some(serial) ==> crate::text::usb_serial_allowed(serial)
            },
            _ => false,
        }
    }
}

/// A stable identity whose every field has been checked.
#[derive(Clone, Copy, Debug)]
pub struct ValidatedUsbDeviceIdentity<'a> {
    pub usb_interface_path: Option<&'a str>,
    pub usb_serial: Option<&'a str>,
    pub input_channels: usize,
    pub output_channels: usize,
}

impl<'a> ValidatedUsbDeviceIdentity<'a> {
    /// `self` carries exactly the values of `identity`.
    pub open spec fn describes(self, identity: UsbDeviceIdentity<'a>) -> bool {
        &&& c_text(identity.usb_interface_path) == Ok::<Option<Seq<char>>, i32>(
            crate::sysfs::str_of(self.usb_interface_path),
        )
        &&& c_text(identity.usb_serial) == Ok::<Option<Seq<char>>, i32>(
            crate::sysfs::str_of(self.usb_serial),
        )
        &&& self.input_channels == identity.input_device_channels
        &&& self.output_channels == identity.output_device_channels
    }

    /// Checks a stable identity; `None` stands for a missing one.
    pub fn from_ffi(identity: Option<UsbDeviceIdentity<'a>>) -> (result: Result<Self, i32>)
        ensures
            match identity {
                Some(identity) if identity.acceptable() => result matches Ok(validated)
                    && validated.describes(identity),
                _ => result matches Err(error) && error == AUDIO_INVALID_ARGUMENT,
            },
    {
        let identity = match identity {
            Some(identity) => identity,
            None => return Err(AUDIO_INVALID_ARGUMENT),
        };
        if identity.struct_size < USB_DEVICE_IDENTITY_SIZE || !(identity.input_device_channels == 1
            || identity.input_device_channels == 2) || !(identity.output_device_channels == 1
            || identity.output_device_channels == 2) {
            return Err(AUDIO_INVALID_ARGUMENT);
        }
        let usb_interface_path = match optional_utf8_c_string(identity.usb_interface_path) {
            Ok(path) => path,
            Err(error) => return Err(error),
        };
        let usb_serial = match optional_utf8_c_string(identity.usb_serial) {
            Ok(serial) => serial,
            Err(error) => return Err(error),
        };
        if usb_interface_path.is_none() && usb_serial.is_none() {
            return Err(AUDIO_INVALID_ARGUMENT);
        }
        match usb_interface_path {
            Some(path) => {
                if !valid_usb_interface_path(path) {
                    return Err(AUDIO_INVALID_ARGUMENT);
                }
            },
            None => {},
        }
        match usb_serial {
            Some(serial) => {
                if !valid_usb_serial(serial) {
                    return Err(AUDIO_INVALID_ARGUMENT);
                }
            },
            None => {},
        }
        Ok(
            ValidatedUsbDeviceIdentity {
                usb_interface_path,
                usb_serial,
                input_channels: identity.input_device_channels as usize,
                output_channels: identity.output_device_channels as usize,
            },
        )
    }
}

/// A selection request, as a caller writes it.
#[derive(Clone, Copy, Debug)]
pub struct UsbDeviceSelector<'a> {
    pub struct_size: u32,
    pub selection_policy: u32,
    pub device_identifier: CText<'a>,
    pub usb_serial: CText<'a>,
    pub input_device_channels: u32,
    pub output_device_channels: u32,
}

/// The forms of a device identifier.
#[derive(Clone, Copy, Debug)]
pub enum UsbDeviceIdentifier<'a> {
    UsbTopology(&'a str),
    LegacyHw(LegacyHwSelector),
}

/// What a device identifier means.
pub enum Identifier {
    Topology(Seq<char>),
    Hw(LegacyHwSelector),
}

/// The meaning of an identifier: what starts with `hw:` is a native selector and must
/// be an exact one, anything else is one component of a USB topology.
pub open spec fn meaning_of(text: Seq<char>) -> Option<Identifier> {
    if crate::text::hw_prefix_at(text, 0) {
        match crate::text::legacy_selector(text) {
            Some(selector) => Some(Identifier::Hw(selector)),
            None => None,
        }
    } else if crate::text::usb_interface_path_allowed(text) {
        Some(Identifier::Topology(text))
    } else {
        None
    }
}

impl<'a> UsbDeviceIdentifier<'a> {
    /// What the identifier means.
    pub open spec fn meaning(self) -> Identifier {
        match self {
            UsbDeviceIdentifier::UsbTopology(topology) => Identifier::Topology(topology@),
            UsbDeviceIdentifier::LegacyHw(selector) => Identifier::Hw(selector),
        }
    }
}

impl<'a> UsbDeviceSelector<'a> {
    /// The request is complete, well formed and free of contradictions: an exact
    /// selection names something, an automatic one names nothing.
    pub open spec fn acceptable(self) -> bool {
        &&& self.struct_size >= USB_DEVICE_SELECTOR_SIZE
        &&& self.selection_policy == USB_SELECTION_EXACT || self.selection_policy
            == USB_SELECTION_AUTOMATIC_LOWEST_ALSA_CARD
        &&& crate::abi::mono_or_stereo(self.input_device_channels)
        &&& crate::abi::mono_or_stereo(self.output_device_channels)
        &&& match (c_text(self.device_identifier), c_text(self.usb_serial)) {
            (Ok(identifier), Ok(serial)) => {
                &&& identifier matches Some(identifier) ==> meaning_of(identifier) is Some
                &&& serial matches Some(serial) ==> crate::text::usb_serial_allowed(serial)
                &&& self.selection_policy == USB_SELECTION_EXACT <==> identifier is Some
                    || serial is Some
            },
            _ => false,
        }
    }
}

/// A selection request whose every field has been checked.
#[derive(Clone, Copy, Debug)]
pub struct ValidatedUsbDeviceSelector<'a> {
    pub selection_policy: u32,
    pub identifier: Option<UsbDeviceIdentifier<'a>>,
    pub usb_serial: Option<&'a str>,
    pub input_channels: usize,
    pub output_channels: usize,
}

impl<'a> ValidatedUsbDeviceSelector<'a> {
    /// `self` carries exactly the values of `selector`.
    pub open spec fn describes(self, selector: UsbDeviceSelector<'a>) -> bool {
        &&& self.selection_policy == selector.selection_policy
        &&& match self.identifier {
            Some(identifier) => c_text(selector.device_identifier) matches Ok(Some(text))
                && meaning_of(text) == Some(identifier.meaning()),
            None => c_text(selector.device_identifier) == Ok::<Option<Seq<char>>, i32>(None),
        }
        &&& c_text(selector.usb_serial) == Ok::<Option<Seq<char>>, i32>(
            crate::sysfs::str_of(self.usb_serial),
        )
        &&& self.input_channels == selector.input_device_channels
        &&& self.output_channels == selector.output_device_channels
    }

    /// The channel counts are mono or stereo, and the policy is a known one.
    pub open spec fn well_formed(self) -> bool {
        &&& 1 <= self.input_channels <= 2
        &&& 1 <= self.output_channels <= 2
        &&& self.selection_policy == USB_SELECTION_EXACT || self.selection_policy
            == USB_SELECTION_AUTOMATIC_LOWEST_ALSA_CARD
    }

    /// Checks a selection request before anything of the host is read; `None` stands
    /// for a missing one.
    pub fn from_ffi(selector: Option<UsbDeviceSelector<'a>>) -> (result: Result<Self, i32>)
        ensures
            match selector {
                Some(selector) if selector.acceptable() => result matches Ok(validated)
                    && validated.describes(selector) && validated.well_formed(),
                _ => result matches Err(error) && error == AUDIO_INVALID_ARGUMENT,
            },
    {
        let selector = match selector {
            Some(selector) => selector,
            None => return Err(AUDIO_INVALID_ARGUMENT),
        };
        if selector.struct_size < USB_DEVICE_SELECTOR_SIZE || !(selector.selection_policy
            == USB_SELECTION_EXACT || selector.selection_policy
            == USB_SELECTION_AUTOMATIC_LOWEST_ALSA_CARD) || !(selector.input_device_channels == 1
            || selector.input_device_channels == 2) || !(selector.output_device_channels == 1
            || selector.output_device_channels == 2) {
            return Err(AUDIO_INVALID_ARGUMENT);
        }
        let identifier = match optional_utf8_c_string(selector.device_identifier) {
            Ok(identifier) => identifier,
            Err(error) => return Err(error),
        };
        let identifier: Option<UsbDeviceIdentifier<'a>> = match identifier {
            Some(value) => {
                if starts_with_hw(value) {
                    match parse_legacy_hw_selector(value) {
                        Ok(parsed) => Some(UsbDeviceIdentifier::LegacyHw(parsed)),
                        Err(error) => return Err(error),
                    }
                } else if valid_usb_interface_path(value) {
                    Some(UsbDeviceIdentifier::UsbTopology(value))
                } else {
                    return Err(AUDIO_INVALID_ARGUMENT);
                }
            },
            None => None,
        };
        let usb_serial = match optional_utf8_c_string(selector.usb_serial) {
            Ok(serial) => serial,
            Err(error) => return Err(error),
        };
        match usb_serial {
            Some(serial) => {
                if !valid_usb_serial(serial) {
                    return Err(AUDIO_INVALID_ARGUMENT);
                }
            },
            None => {},
        }
        let named: bool = identifier.is_some() || usb_serial.is_some();
        if named != (selector.selection_policy == USB_SELECTION_EXACT) {
            return Err(AUDIO_INVALID_ARGUMENT);
        }
        Ok(
            ValidatedUsbDeviceSelector {
                selection_policy: selector.selection_policy,
                identifier,
                usb_serial,
                input_channels: selector.input_device_channels as usize,
                output_channels: selector.output_device_channels as usize,
            },
        )
    }
}

/// The meaning of an optional identifier.
pub open spec fn meaning_of_identifier(identifier: Option<UsbDeviceIdentifier>) -> Option<
    Identifier,
> {
    match identifier {
        Some(identifier) => Some(identifier.meaning()),
        None => None,
    }
}

/// The card number that an exact selector names.
pub open spec fn exact_number(
    listing: Option<Seq<SoundEntry>>,
    identifier: Option<Identifier>,
    serial: Option<Seq<char>>,
) -> Result<u32, i32> {
    match identifier {
        Some(Identifier::Topology(topology)) => crate::sysfs::card_of_identity(
            listing,
            Some(topology),
            serial,
        ),
        Some(Identifier::Hw(selector)) => Ok(selector.card_index),
        None => crate::sysfs::card_of_identity(listing, None, serial),
    }
}

/// The PCM device that an exact selector asks for.
pub open spec fn exact_pcm(identifier: Option<Identifier>) -> Option<u32> {
    match identifier {
        Some(Identifier::Hw(selector)) => selector.pcm_device,
        _ => None,
    }
}

/// The USB sound card that an exact selector names. Identifier and serial number have to
/// name the same card.
pub open spec fn exact_card(
    listing: Option<Seq<SoundEntry>>,
    identifier: Option<Identifier>,
    serial: Option<Seq<char>>,
) -> Result<CardIdentity, i32> {
    match exact_number(listing, identifier, serial) {
        Err(error) => Err(error),
        Ok(number) => match crate::sysfs::usb_card_with_number(listing, number) {
            Err(error) => Err(error),
            Ok(card) => if serial is Some && card.usb_serial != serial {
                Err(AUDIO_UNSUPPORTED)
            } else {
                Ok(card)
            },
        },
    }
}

/// Resolves an exact selector to a card and the PCM device it asks for.
pub fn resolve_exact_usb_card(
    listing: Option<&Vec<SoundEntry>>,
    selector: &ValidatedUsbDeviceSelector<'_>,
) -> (result: Result<(ResolvedUsbCard, Option<u32>), i32>)
    ensures
        match result {
            Ok((card, pcm_device)) => {
                &&& exact_card(
                    crate::sysfs::entries_of(listing),
                    meaning_of_identifier(selector.identifier),
                    crate::sysfs::str_of(selector.usb_serial),
                ) == Ok::<CardIdentity, i32>(card@)
                &&& pcm_device == exact_pcm(meaning_of_identifier(selector.identifier))
            },
            Err(error) => exact_card(
                crate::sysfs::entries_of(listing),
                meaning_of_identifier(selector.identifier),
                crate::sysfs::str_of(selector.usb_serial),
            ) == Err::<CardIdentity, i32>(error),
        },
{
    let (number, pcm_device): (Result<u32, i32>, Option<u32>) = match &selector.identifier {
        Some(UsbDeviceIdentifier::UsbTopology(topology)) => (
            resolve_alsa_card_index_from_sysfs_identity(
                listing,
                Some(*topology),
                selector.usb_serial,
            ),
            None,
        ),
        Some(UsbDeviceIdentifier::LegacyHw(hw)) => (Ok(hw.card_index), hw.pcm_device),
        None => (
            resolve_alsa_card_index_from_sysfs_identity(listing, None, selector.usb_serial),
            None,
        ),
    };
    let number: u32 = match number {
        Ok(number) => number,
        Err(error) => return Err(error),
    };
    let card = match resolve_usb_card_from_alsa_card(listing, number) {
        Ok(card) => card,
        Err(error) => return Err(error),
    };
    match selector.usb_serial {
        Some(expected) => match &card.usb_serial {
            Some(serial) => {
                if !same_text(serial.as_str(), expected) {
                    return Err(AUDIO_UNSUPPORTED);
                }
            },
            None => return Err(AUDIO_UNSUPPORTED),
        },
        None => {},
    }
    Ok((card, pcm_device))
}

/// The input and output device indexes of a card, or why there are none.
pub open spec fn selected_devices<L>(
    inventory: DeviceInventory<L>,
    card_index: u32,
    pcm_device: Option<u32>,
    input_channels: usize,
    output_channels: usize,
) -> Result<(i32, i32), i32> {
    match inventory.endpoint(card_index, pcm_device, input_channels, true) {
        Err(error) => Err(error),
        Ok(input) => match inventory.endpoint(card_index, pcm_device, output_channels, false) {
            Err(error) => Err(error),
            Ok(output) => Ok((input, output)),
        },
    }
}

/// Resolves both PortAudio directions of one selected USB card.
pub fn resolve_selected_portaudio_devices<L>(
    inventory: &DeviceInventory<L>,
    card: &ResolvedUsbCard,
    pcm_device: Option<u32>,
    selector: &ValidatedUsbDeviceSelector<'_>,
) -> (result: Result<(i32, i32), i32>)
    requires
        inventory.complete(),
        selector.well_formed(),
    ensures
        result == selected_devices(
            *inventory,
            card.card_index,
            pcm_device,
            selector.input_channels,
            selector.output_channels,
        ),
{
    let input: i32 = match resolve_portaudio_device_for_alsa_endpoint(
        inventory,
        card.card_index,
        pcm_device,
        selector.input_channels,
        true,
    ) {
        Ok(input) => input,
        Err(error) => return Err(error),
    };
    let output: i32 = match resolve_portaudio_device_for_alsa_endpoint(
        inventory,
        card.card_index,
        pcm_device,
        selector.output_channels,
        false,
    ) {
        Ok(output) => output,
        Err(error) => return Err(error),
    };
    Ok((input, output))
}

/// A selected card with its input and output device indexes.
pub struct UsableCard {
    pub card: CardIdentity,
    pub input_device_index: i32,
    pub output_device_index: i32,
}

/// The first of `cards` that PortAudio can open in both directions. A card that it
/// cannot serve is passed over; an inventory that cannot be read ends the search.
pub open spec fn first_usable<L>(
    inventory: DeviceInventory<L>,
    cards: Seq<CardIdentity>,
    pcm_device: Option<u32>,
    input_channels: usize,
    output_channels: usize,
) -> Result<UsableCard, i32>
    decreases cards.len(),
{
    if cards.len() == 0 {
        Err(AUDIO_UNSUPPORTED)
    } else {
        match selected_devices(
            inventory,
            cards[0].card_index,
            pcm_device,
            input_channels,
            output_channels,
        ) {
            Ok((input_device_index, output_device_index)) => Ok(
                UsableCard { card: cards[0], input_device_index, output_device_index },
            ),
            Err(error) => if error == AUDIO_UNSUPPORTED {
                first_usable(
                    inventory,
                    cards.skip(1),
                    pcm_device,
                    input_channels,
                    output_channels,
                )
            } else {
                Err(error)
            },
        }
    }
}

/// The candidates of a selection: the one card that an exact selector names, or every
/// USB sound card in numerical order.
pub open spec fn candidates(
    listing: Option<Seq<SoundEntry>>,
    policy: u32,
    identifier: Option<Identifier>,
    serial: Option<Seq<char>>,
) -> Result<Seq<CardIdentity>, i32> {
    if policy == USB_SELECTION_AUTOMATIC_LOWEST_ALSA_CARD {
        match listing {
            Some(entries) => Ok(crate::sysfs::usb_cards(entries)),
            None => Err(AUDIO_UNSUPPORTED),
        }
    } else {
        match exact_card(listing, identifier, serial) {
            Ok(card) => Ok(seq![card]),
            Err(error) => Err(error),
        }
    }
}

/// The name of a device spells a raw device of the card, and of the PCM device if one is
/// asked for.
pub open spec fn spells_raw_device<L>(
    info: DeviceInfo<L>,
    card_index: u32,
    pcm_device: Option<u32>,
) -> bool {
    info.name matches crate::devices::DeviceName::Text(name) && (
    crate::text::first_native_token(name@) matches Some(raw) && raw.card_index == card_index && (
    pcm_device is None || pcm_device == Some(raw.pcm_device)))
}

/// Every entry of the inventory can be read: the count is no error, and each device has a
/// description with a name.
pub open spec fn readable<L>(inventory: DeviceInventory<L>) -> bool {
    &&& inventory.device_count >= 0
    &&& forall|device: int|
        0 <= device < inventory.device_count ==> (#[trigger] inventory.devices@[device] matches Some(
            info,
        ) && !(info.name is Missing))
}

/// `input` is the only raw device of the card with at least `input_channels` input channels,
/// and `output` the only one with at least `output_channels` output channels.
pub open spec fn is_the_pair<L>(
    inventory: DeviceInventory<L>,
    card_index: u32,
    pcm_device: Option<u32>,
    input_channels: int,
    output_channels: int,
    input: i32,
    output: i32,
) -> bool {
    &&& readable(inventory)
    &&& 0 <= input < inventory.device_count
    &&& 0 <= output < inventory.device_count
    &&& forall|device: int|
        0 <= device < inventory.device_count ==> {
            let info = (#[trigger] inventory.devices@[device])->0;
            &&& device == input <==> spells_raw_device(info, card_index, pcm_device)
                && info.max_input_channels >= input_channels
            &&& device == output <==> spells_raw_device(info, card_index, pcm_device)
                && info.max_output_channels >= output_channels
        }
}

/// A pair of devices is selected exactly where every entry of the inventory can be read, the
/// input is the only raw device of the card, and of the PCM device if one is asked for, that
/// has enough input channels, and the output the only one that has enough output channels.
/// A readable inventory without such a pair is unsupported.
pub proof fn law_selected_pair_is_exact<L>(
    inventory: DeviceInventory<L>,
    card_index: u32,
    pcm_device: Option<u32>,
    input_channels: usize,
    output_channels: usize,
    input: i32,
    output: i32,
)
    ensures
        selected_devices(inventory, card_index, pcm_device, input_channels, output_channels) == Ok::<
            (i32, i32),
            i32,
        >((input, output)) <==> is_the_pair(
            inventory,
            card_index,
            pcm_device,
            input_channels as int,
            output_channels as int,
            input,
            output,
        ),
        selected_devices(
            inventory,
            card_index,
            pcm_device,
            input_channels,
            output_channels,
        ) matches Err(error) ==> error == AUDIO_UNSUPPORTED || error
            == crate::abi::AUDIO_PORTAUDIO_ERROR && !readable(inventory),
        inventory.device_count < 0 ==> selected_devices(
            inventory,
            card_index,
            pcm_device,
            input_channels,
            output_channels,
        ) == Err::<(i32, i32), i32>(crate::abi::AUDIO_PORTAUDIO_ERROR),
{
    crate::devices::law_endpoint_is_exact(
        inventory,
        input,
        card_index,
        pcm_device,
        input_channels,
        true,
    );
    crate::devices::law_endpoint_is_exact(
        inventory,
        output,
        card_index,
        pcm_device,
        output_channels,
        false,
    );
    let selected = selected_devices(
        inventory,
        card_index,
        pcm_device,
        input_channels,
        output_channels,
    );
    if selected == Ok::<(i32, i32), i32>((input, output)) {
        assert forall|device: int| 0 <= device < inventory.device_count implies (
        #[trigger] inventory.devices@[device] matches Some(info) && !(info.name is Missing)
            && ((device == input) <==> inventory.serves(
            device,
            card_index,
            pcm_device,
            input_channels,
            true,
        )) && ((device == output) <==> inventory.serves(
            device,
            card_index,
            pcm_device,
            output_channels,
            false,
        ))) by {
            assert(!inventory.broken(device));
        }
    }
    if readable(inventory) {
        assert forall|device: int| 0 <= device < inventory.device_count implies !(
        #[trigger] inventory.broken(device)) by {
            assert(inventory.devices@[device] is Some);
        }
    }
}

/// The search through several cards ends with the first that has a pair. In a readable
/// inventory it fails only where no card has one.
pub proof fn law_search_finds_the_first_pair<L>(
    inventory: DeviceInventory<L>,
    cards: Seq<CardIdentity>,
    pcm_device: Option<u32>,
    input_channels: usize,
    output_channels: usize,
)
    ensures
        match first_usable(inventory, cards, pcm_device, input_channels, output_channels) {
            Ok(usable) => exists|place: int|
                {
                    &&& 0 <= place < cards.len()
                    &&& #[trigger] cards[place] == usable.card
                    &&& is_the_pair(
                        inventory,
                        usable.card.card_index,
                        pcm_device,
                        input_channels as int,
                        output_channels as int,
                        usable.input_device_index,
                        usable.output_device_index,
                    )
                    &&& forall|earlier: int, input: i32, output: i32|
                        0 <= earlier < place ==> !#[trigger] is_the_pair(
                            inventory,
                            cards[earlier].card_index,
                            pcm_device,
                            input_channels as int,
                            output_channels as int,
                            input,
                            output,
                        )
                },
            Err(error) => {
                &&& error == AUDIO_UNSUPPORTED || error == crate::abi::AUDIO_PORTAUDIO_ERROR
                    && !readable(inventory)
                &&& forall|place: int, input: i32, output: i32|
                    0 <= place < cards.len() ==> !#[trigger] is_the_pair(
                        inventory,
                        cards[place].card_index,
                        pcm_device,
                        input_channels as int,
                        output_channels as int,
                        input,
                        output,
                    )
            },
        },
    decreases cards.len(),
{
    if cards.len() > 0 {
        let rest = cards.skip(1);
        let first = selected_devices(
            inventory,
            cards[0].card_index,
            pcm_device,
            input_channels,
            output_channels,
        );
        law_search_finds_the_first_pair(
            inventory,
            rest,
            pcm_device,
            input_channels,
            output_channels,
        );
        assert forall|input: i32, output: i32|
            #![trigger is_the_pair(
                inventory,
                cards[0].card_index,
                pcm_device,
                input_channels as int,
                output_channels as int,
                input,
                output,
            )]
            {
                &&& is_the_pair(
                    inventory,
                    cards[0].card_index,
                    pcm_device,
                    input_channels as int,
                    output_channels as int,
                    input,
                    output,
                ) <==> first == Ok::<(i32, i32), i32>((input, output))
                &&& first matches Err(error) ==> error == AUDIO_UNSUPPORTED || !readable(inventory)
            } by {
            law_selected_pair_is_exact(
                inventory,
                cards[0].card_index,
                pcm_device,
                input_channels,
                output_channels,
                input,
                output,
            );
        }
        law_selected_pair_is_exact(
            inventory,
            cards[0].card_index,
            pcm_device,
            input_channels,
            output_channels,
            0,
            0,
        );
        match first {
            Ok((input, output)) => {
                assert(cards[0] == cards[0]);
                assert(is_the_pair(
                    inventory,
                    cards[0].card_index,
                    pcm_device,
                    input_channels as int,
                    output_channels as int,
                    input,
                    output,
                ));
            },
            Err(error) => {
                assert forall|place: int| 0 < place < cards.len() implies #[trigger] cards[place]
                    == rest[place - 1] by {}
                if error == AUDIO_UNSUPPORTED {
                    if let Ok(usable) = first_usable(
                        inventory,
                        rest,
                        pcm_device,
                        input_channels,
                        output_channels,
                    ) {
                        let place = choose|place: int|
                            {
                                &&& 0 <= place < rest.len()
                                &&& #[trigger] rest[place] == usable.card
                                &&& forall|earlier: int, input: i32, output: i32|
                                    0 <= earlier < place ==> !#[trigger] is_the_pair(
                                        inventory,
                                        rest[earlier].card_index,
                                        pcm_device,
                                        input_channels as int,
                                        output_channels as int,
                                        input,
                                        output,
                                    )
                            };
                        assert(cards[place + 1] == usable.card);
                        assert forall|earlier: int, input: i32, output: i32|
                            0 <= earlier < place + 1 implies !#[trigger] is_the_pair(
                            inventory,
                            cards[earlier].card_index,
                            pcm_device,
                            input_channels as int,
                            output_channels as int,
                            input,
                            output,
                        ) by {
                            if earlier > 0 {
                                assert(!is_the_pair(
                                    inventory,
                                    rest[earlier - 1].card_index,
                                    pcm_device,
                                    input_channels as int,
                                    output_channels as int,
                                    input,
                                    output,
                                ));
                            }
                        }
                    } else {
                        assert forall|place: int, input: i32, output: i32|
                            0 <= place < cards.len() implies !#[trigger] is_the_pair(
                            inventory,
                            cards[place].card_index,
                            pcm_device,
                            input_channels as int,
                            output_channels as int,
                            input,
                            output,
                        ) by {
                            if place > 0 {
                                assert(!is_the_pair(
                                    inventory,
                                    rest[place - 1].card_index,
                                    pcm_device,
                                    input_channels as int,
                                    output_channels as int,
                                    input,
                                    output,
                                ));
                            }
                        }
                    }
                }
            },
        }
    }
}

/// A stable identity is well formed exactly where it has the known size, one or two channels
/// in each direction, and a topology component or a serial number, each well formed where it
/// is there.
pub proof fn law_acceptable_identity(identity: UsbDeviceIdentity)
    ensures
        identity.acceptable() <==> {
            &&& identity.struct_size >= 32
            &&& 1 <= identity.input_device_channels <= 2
            &&& 1 <= identity.output_device_channels <= 2
            &&& identity.usb_interface_path is Text || identity.usb_serial is Text
            &&& match identity.usb_interface_path {
                CText::Null => true,
                CText::NotUtf8 => false,
                CText::Text(path) => crate::text::usb_interface_path_allowed(path@),
            }
            &&& match identity.usb_serial {
                CText::Null => true,
                CText::NotUtf8 => false,
                CText::Text(serial) => crate::text::usb_serial_allowed(serial@),
            }
        },
{
}

/// A selection is well formed exactly where it has the known size, one or two channels in
/// each direction, and either names a device exactly, by an identifier, a serial number or
/// both, or names nothing and leaves the choice to the lowest card. An identifier that starts
/// with `hw:` has to be a native selector; any other one is a topology component.
pub proof fn law_acceptable_selector(selector: UsbDeviceSelector)
    ensures
        selector.acceptable() <==> {
            &&& selector.struct_size >= 32
            &&& 1 <= selector.input_device_channels <= 2
            &&& 1 <= selector.output_device_channels <= 2
            &&& match selector.device_identifier {
                CText::Null => true,
                CText::NotUtf8 => false,
                CText::Text(text) => if text@.len() >= 3 && text@[0] == 'h' && text@[1] == 'w'
                    && text@[2] == ':' {
                    crate::text::legacy_selector(text@) is Some
                } else {
                    crate::text::usb_interface_path_allowed(text@)
                },
            }
            &&& match selector.usb_serial {
                CText::Null => true,
                CText::NotUtf8 => false,
                CText::Text(serial) => crate::text::usb_serial_allowed(serial@),
            }
            &&& selector.selection_policy == 0 && (selector.device_identifier is Text
                || selector.usb_serial is Text) || selector.selection_policy == 1
                && selector.device_identifier is Null && selector.usb_serial is Null
        },
{
}

} // verus!
