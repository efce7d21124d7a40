//! Opening a hardware mixer control, and the names by which cards are opened.
use vstd::prelude::*;

use crate::abi::{
    AUDIO_ALSA_ERROR, AUDIO_INVALID_ARGUMENT, AUDIO_NO_MEMORY, AUDIO_OK, AUDIO_UNSUPPORTED,
};
use crate::sysfs::{resolve_alsa_card_index_from_sysfs, SoundEntry};
use crate::text::{valid_usb_interface_path, CText};

verus! {

/// Size in bytes of the C mixer configuration structures.
pub const MIXER_CONFIG_SIZE: u32 = 40;

/// The side of a mixer element.
#[derive(Clone, Copy, Debug, PartialEq, Eq, Structural)]
pub enum MixerDirection {
    Capture,
    Playback,
}

impl MixerDirection {
    /// The number that stands for the direction in the C interface.
    pub open spec fn number(self) -> u32 {
        match self {
            MixerDirection::Capture => 0,
            MixerDirection::Playback => 1,
        }
    }

    /// Reads a direction from its number.
    pub fn from_ffi(value: u32) -> (result: Result<MixerDirection, i32>)
        ensures
            match result {
                Ok(direction) => direction.number() == value,
                Err(error) => error == AUDIO_INVALID_ARGUMENT && value > 1,
            },
    {
        match value {
            0 => Ok(MixerDirection::Capture),
            1 => Ok(MixerDirection::Playback),
            _ => Err(AUDIO_INVALID_ARGUMENT),
        }
    }

    /// The direction's number.
    pub fn as_ffi(self) -> (value: u32)
        ensures
            value == self.number(),
    {
        match self {
            MixerDirection::Capture => 0,
            MixerDirection::Playback => 1,
        }
    }
}

/// A channel of a mixer element. ALSA's own channel numbers stay private.
#[derive(Clone, Copy, Debug, PartialEq, Eq, Structural)]
pub enum MixerChannel {
    Left,
    Right,
}

impl MixerChannel {
    /// The number that stands for the channel in the C interface.
    pub open spec fn number(self) -> u32 {
        match self {
            MixerChannel::Left => 0,
            MixerChannel::Right => 1,
        }
    }

    /// Reads a channel from its number.
    pub fn from_ffi(value: u32) -> (result: Result<MixerChannel, i32>)
        ensures
            match result {
                Ok(channel) => channel.number() == value,
                Err(error) => error == AUDIO_INVALID_ARGUMENT && value > 1,
            },
    {
        match value {
            0 => Ok(MixerChannel::Left),
            1 => Ok(MixerChannel::Right),
            _ => Err(AUDIO_INVALID_ARGUMENT),
        }
    }

    /// ALSA's number of the channel.
    pub fn as_alsa_channel(self) -> (channel: i32)
        ensures
            channel == match self {
                MixerChannel::Left => 0i32,
                MixerChannel::Right => 1i32,
            },
    {
        match self {
            MixerChannel::Left => 0,
            MixerChannel::Right => 1,
        }
    }

    /// The channel's number.
    pub fn as_ffi(self) -> (value: u32)
        ensures
            value == self.number(),
    {
        match self {
            MixerChannel::Left => 0,
            MixerChannel::Right => 1,
        }
    }
}

/// Directions and channels are told apart by their numbers.
pub proof fn law_mixer_numbers_are_distinct(
    direction: MixerDirection,
    other_direction: MixerDirection,
    channel: MixerChannel,
    other_channel: MixerChannel,
)
    ensures
        direction.number() == other_direction.number() ==> direction == other_direction,
        channel.number() == other_channel.number() ==> channel == other_channel,
{
}

/// A mixer control, as a caller names it by card. Strings are bytes without their
/// terminator, absent where the pointer is null.
#[derive(Clone, Copy, Debug)]
pub struct MixerConfig<'a> {
    pub struct_size: u32,
    pub card: Option<&'a [u8]>,
    pub element: Option<&'a [u8]>,
    pub element_index: u32,
    pub channel: u32,
    pub direction: u32,
}

/// A mixer control, as a caller names it by USB interface.
#[derive(Clone, Copy, Debug)]
pub struct UsbMixerConfig<'a> {
    pub struct_size: u32,
    pub usb_interface_path: CText<'a>,
    pub element: Option<&'a [u8]>,
    pub element_index: u32,
    pub channel: u32,
    pub direction: u32,
}

/// The C string is there and not empty.
pub open spec fn has_text(value: Option<&[u8]>) -> bool {
    value matches Some(bytes) && bytes@.len() > 0
}

impl<'a> MixerConfig<'a> {
    /// Every field is well formed.
    pub open spec fn acceptable(self) -> bool {
        &&& self.struct_size >= MIXER_CONFIG_SIZE
        &&& self.direction <= 1
        &&& self.channel <= 1
        &&& has_text(self.card)
        &&& has_text(self.element)
    }
}

impl<'a> UsbMixerConfig<'a> {
    /// Every field is well formed.
    pub open spec fn acceptable(self) -> bool {
        &&& self.struct_size >= MIXER_CONFIG_SIZE
        &&& self.direction <= 1
        &&& self.channel <= 1
        &&& self.usb_interface_path matches CText::Text(path)
            && crate::text::usb_interface_path_allowed(path@)
        &&& has_text(self.element)
    }
}

/// Returns card and element name of a configuration, where both are there.
pub fn mixer_config_strings<'a>(config: &MixerConfig<'a>) -> (result: Result<
    (&'a [u8], &'a [u8]),
    i32,
>)
    ensures
        has_text(config.card) && has_text(config.element) ==> (result matches Ok((card, element))
            && config.card == Some(card) && config.element == Some(element)),
        !(has_text(config.card) && has_text(config.element)) ==> (result matches Err(error)
            && error == AUDIO_INVALID_ARGUMENT),
{
    match (config.card, config.element) {
        (Some(card), Some(element)) => {
            if card.len() == 0 || element.len() == 0 {
                Err(AUDIO_INVALID_ARGUMENT)
            } else {
                Ok((card, element))
            }
        },
        _ => Err(AUDIO_INVALID_ARGUMENT),
    }
}

/// Returns interface path and element name of a configuration, where both are well
/// formed.
pub fn usb_mixer_config_strings<'a>(config: &UsbMixerConfig<'a>) -> (result: Result<
    (&'a str, &'a [u8]),
    i32,
>)
    ensures
        match config.usb_interface_path {
            CText::Text(path) if crate::text::usb_interface_path_allowed(path@) && has_text(
                config.element,
            ) => result matches Ok((text, element)) && text == path && config.element == Some(
                element,
            ),
            _ => result matches Err(error) && error == AUDIO_INVALID_ARGUMENT,
        },
{
    match (config.usb_interface_path, config.element) {
        (CText::Text(path), Some(element)) => {
            if !valid_usb_interface_path(path) || element.len() == 0 {
                Err(AUDIO_INVALID_ARGUMENT)
            } else {
                Ok((path, element))
            }
        },
        _ => Err(AUDIO_INVALID_ARGUMENT),
    }
}

/// The decimal digits of a number.
pub open spec fn digits_of(number: nat) -> Seq<u8>
    decreases number,
{
    if number < 10 {
        seq![(48 + number) as u8]
    } else {
        digits_of(number / 10).push((48 + number % 10) as u8)
    }
}

/// The bytes of the native name of an ALSA card.
pub open spec fn hw_name(card_index: u32) -> Seq<u8> {
    seq![104u8, 119u8, 58u8] + digits_of(card_index as nat)
}

fn push_digits(name: &mut Vec<u8>, number: u32)
    ensures
        final(name)@ == old(name)@ + digits_of(number as nat),
    decreases number,
{
    if number >= 10 {
        push_digits(name, number / 10);
    }
    name.push(48u8 + (number % 10) as u8);
    assert(name@ =~= old(name)@ + digits_of(number as nat));
}

/// Spells the native name `hw:<card>` of an ALSA card.
pub fn card_name(card_index: u32) -> (name: Vec<u8>)
    ensures
        name@ == hw_name(card_index),
{
    let mut name: Vec<u8> = Vec::new();
    name.push(104u8);
    name.push(119u8);
    name.push(58u8);
    push_digits(&mut name, card_index);
    assert(name@ =~= hw_name(card_index));
    name
}

/// The characters of ASCII bytes.
pub open spec fn ascii_text(bytes: Seq<u8>) -> Seq<char> {
    bytes.map_values(|byte: u8| byte as char)
}

proof fn lemma_digits_read_back(number: nat)
    ensures
        digits_of(number).len() > 0,
        forall|i: int|
            0 <= i < digits_of(number).len() ==> crate::text::is_digit(
                #[trigger] digits_of(number)[i] as char,
            ),
        crate::text::decimal_value(ascii_text(digits_of(number))) == number,
    decreases number,
{
    let digits = digits_of(number);
    if number < 10 {
        assert(ascii_text(digits).drop_last() =~= Seq::<char>::empty());
        assert(crate::text::decimal_value(Seq::<char>::empty()) == 0);
    } else {
        let front = digits_of(number / 10);
        lemma_digits_read_back(number / 10);
        assert(ascii_text(digits).drop_last() =~= ascii_text(front));
        assert forall|i: int| 0 <= i < digits.len() implies crate::text::is_digit(
            #[trigger] digits[i] as char,
        ) by {
            if i < front.len() {
                assert(digits[i] == front[i]);
            }
        }
    }
}

/// The native name of a card reads back as that card and no particular PCM device.
pub proof fn law_card_name_reads_back(card_index: u32)
    ensures
        crate::text::legacy_selector(ascii_text(hw_name(card_index))) == Some(
            crate::text::LegacyHwSelector { card_index, pcm_device: None },
        ),
{
    let text = ascii_text(hw_name(card_index));
    let digits = ascii_text(digits_of(card_index as nat));
    lemma_digits_read_back(card_index as nat);
    assert(text[0] == 'h' && text[1] == 'w' && text[2] == ':');
    assert(text.skip(3) =~= digits);
    assert forall|i: int| 0 <= i < digits.len() implies crate::text::is_digit(
        #[trigger] digits[i],
    ) by {
        assert(crate::text::is_digit(digits_of(card_index as nat)[i] as char));
    }
    crate::text::lemma_digit_run_is(digits, digits.len() as int);
    assert(digits.take(digits.len() as int) =~= digits);
    assert(digits.skip(digits.len() as int) =~= Seq::<char>::empty());
}

/// A checked request for one mixer control.
#[derive(Debug)]
pub struct MixerRequest<'a> {
    /// The name by which the card is attached.
    pub card: Vec<u8>,
    pub element: &'a [u8],
    pub element_index: u32,
    pub channel: MixerChannel,
    pub direction: MixerDirection,
}

/// Checks a request by card; `None` stands for a missing one.
pub fn mixer_create<'a>(config: Option<MixerConfig<'a>>) -> (result: Result<MixerRequest<'a>, i32>)
    ensures
        match config {
            Some(config) if config.acceptable() => result matches Ok(request) && {
                &&& request.card@ == config.card->0@
                &&& config.element == Some(request.element)
                &&& request.element_index == config.element_index
                &&& request.channel.number() == config.channel
                &&& request.direction.number() == config.direction
            },
            _ => result matches Err(error) && error == AUDIO_INVALID_ARGUMENT,
        },
{
    let config = match config {
        Some(config) => config,
        None => return Err(AUDIO_INVALID_ARGUMENT),
    };
    if config.struct_size < MIXER_CONFIG_SIZE {
        return Err(AUDIO_INVALID_ARGUMENT);
    }
    let direction = match MixerDirection::from_ffi(config.direction) {
        Ok(direction) => direction,
        Err(error) => return Err(error),
    };
    let channel = match MixerChannel::from_ffi(config.channel) {
        Ok(channel) => channel,
        Err(error) => return Err(error),
    };
    let (card, element) = match mixer_config_strings(&config) {
        Ok(strings) => strings,
        Err(error) => return Err(error),
    };
    Ok(
        MixerRequest {
            card: vstd::slice::slice_to_vec(card),
            element,
            element_index: config.element_index,
            channel,
            direction,
        },
    )
}

/// Checks a request by USB interface, up to the card, which is not known yet; `None`
/// stands for a missing one.
pub fn mixer_create_for_usb_interface<'a>(config: Option<UsbMixerConfig<'a>>) -> (result: Result<
    (&'a str, MixerRequest<'a>),
    i32,
>)
    ensures
        match config {
            Some(config) if config.acceptable() => result matches Ok((path, request)) && {
                &&& config.usb_interface_path == CText::Text(path)
                &&& request.card@.len() == 0
                &&& config.element == Some(request.element)
                &&& request.element_index == config.element_index
                &&& request.channel.number() == config.channel
                &&& request.direction.number() == config.direction
            },
            _ => result matches Err(error) && error == AUDIO_INVALID_ARGUMENT,
        },
{
    let config = match config {
        Some(config) => config,
        None => return Err(AUDIO_INVALID_ARGUMENT),
    };
    if config.struct_size < MIXER_CONFIG_SIZE {
        return Err(AUDIO_INVALID_ARGUMENT);
    }
    let direction = match MixerDirection::from_ffi(config.direction) {
        Ok(direction) => direction,
        Err(error) => return Err(error),
    };
    let channel = match MixerChannel::from_ffi(config.channel) {
        Ok(channel) => channel,
        Err(error) => return Err(error),
    };
    let (path, element) = match usb_mixer_config_strings(&config) {
        Ok(strings) => strings,
        Err(error) => return Err(error),
    };
    Ok(
        (
            path,
            MixerRequest {
                card: Vec::new(),
                element,
                element_index: config.element_index,
                channel,
                direction,
            },
        ),
    )
}

impl<'a> MixerRequest<'a> {
    /// Finds the card of a USB interface in a listing, and sets its name.
    pub fn attach_usb_interface(
        &mut self,
        listing: Option<&Vec<SoundEntry>>,
        usb_interface_path: &str,
    ) -> (result: Result<u32, i32>)
        ensures
            result == crate::sysfs::card_of_identity(
                crate::sysfs::entries_of(listing),
                Some(usb_interface_path@),
                None,
            ),
            final(self).element == old(self).element,
            final(self).element_index == old(self).element_index,
            final(self).channel == old(self).channel,
            final(self).direction == old(self).direction,
            match result {
                Ok(card_index) => final(self).card@ == hw_name(card_index),
                Err(_) => final(self).card == old(self).card,
            },
    {
        match resolve_alsa_card_index_from_sysfs(listing, usb_interface_path) {
            Ok(card_index) => {
                self.card = card_name(card_index);
                Ok(card_index)
            },
            Err(error) => Err(error),
        }
    }
}

/// A call that opening a mixer control needs. Each replies with a code: negative for
/// failure, and otherwise zero for no and anything else for yes.
#[derive(Clone, Copy, Debug, PartialEq, Eq, Structural)]
pub enum OpenCall {
    Open,
    Attach,
    Register,
    Load,
    AllocateId,
    /// Look the element up by name and index, and free the identifier. Zero for none.
    Find,
    HasVolume,
    HasSwitch,
    /// Close the mixer. The reply does not matter.
    Close,
}

/// Opens one mixer control.
///
/// A mixer that was opened and cannot be used is closed again, with the first error
/// kept.
#[derive(Clone, Copy, Debug, PartialEq, Eq, Structural)]
pub struct MixerOpen {
    /// The call to make next; none once the operation is over.
    pub next_call: Option<OpenCall>,
    /// The result, once the operation is over.
    pub status: i32,
}

impl MixerOpen {
    /// The operation goes on with `call`.
    pub open spec fn calling(self, call: OpenCall) -> MixerOpen {
        MixerOpen { next_call: Some(call), ..self }
    }

    /// The operation closes the mixer and fails with `status`.
    pub open spec fn closing(self, status: i32) -> MixerOpen {
        MixerOpen { next_call: Some(OpenCall::Close), status }
    }

    /// The operation after the next call replied `code`.
    pub open spec fn after(self, code: i32) -> MixerOpen {
        match self.next_call {
            Some(OpenCall::Open) => if code < 0 {
                MixerOpen { next_call: None, status: AUDIO_ALSA_ERROR }
            } else {
                self.calling(OpenCall::Attach)
            },
            Some(OpenCall::Attach) => if code < 0 {
                self.closing(AUDIO_ALSA_ERROR)
            } else {
                self.calling(OpenCall::Register)
            },
            Some(OpenCall::Register) => if code < 0 {
                self.closing(AUDIO_ALSA_ERROR)
            } else {
                self.calling(OpenCall::Load)
            },
            Some(OpenCall::Load) => if code < 0 {
                self.closing(AUDIO_ALSA_ERROR)
            } else {
                self.calling(OpenCall::AllocateId)
            },
            Some(OpenCall::AllocateId) => if code < 0 {
                self.closing(AUDIO_NO_MEMORY)
            } else {
                self.calling(OpenCall::Find)
            },
            Some(OpenCall::Find) => if code == 0 {
                self.closing(AUDIO_UNSUPPORTED)
            } else {
                self.calling(OpenCall::HasVolume)
            },
            Some(OpenCall::HasVolume) => if code == 0 {
                self.calling(OpenCall::HasSwitch)
            } else {
                MixerOpen { next_call: None, status: AUDIO_OK }
            },
            Some(OpenCall::HasSwitch) => if code == 0 {
                self.closing(AUDIO_UNSUPPORTED)
            } else {
                MixerOpen { next_call: None, status: AUDIO_OK }
            },
            Some(OpenCall::Close) => MixerOpen { next_call: None, ..self },
            None => self,
        }
    }

    /// The operation before its first call.
    pub open spec fn initial() -> MixerOpen {
        MixerOpen { next_call: Some(OpenCall::Open), status: AUDIO_ALSA_ERROR }
    }

    /// Begins to open a mixer control.
    pub fn begin() -> (open: MixerOpen)
        ensures
            open == MixerOpen::initial(),
    {
        MixerOpen { next_call: Some(OpenCall::Open), status: AUDIO_ALSA_ERROR }
    }

    /// The call to make next, or none when the operation is over.
    pub fn call(&self) -> (call: Option<OpenCall>)
        ensures
            call == self.next_call,
    {
        self.next_call
    }

    fn close(&mut self, status: i32)
        ensures
            *final(self) == old(self).closing(status),
    {
        self.next_call = Some(OpenCall::Close);
        self.status = status;
    }

    /// Takes the reply to the call that was due.
    pub fn reply(&mut self, code: i32)
        ensures
            *final(self) == old(self).after(code),
    {
        match self.next_call {
            Some(OpenCall::Open) => {
                if code < 0 {
                    self.next_call = None;
                    self.status = AUDIO_ALSA_ERROR;
                } else {
                    self.next_call = Some(OpenCall::Attach);
                }
            },
            Some(OpenCall::Attach) => {
                if code < 0 {
                    self.close(AUDIO_ALSA_ERROR);
                } else {
                    self.next_call = Some(OpenCall::Register);
                }
            },
            Some(OpenCall::Register) => {
                if code < 0 {
                    self.close(AUDIO_ALSA_ERROR);
                } else {
                    self.next_call = Some(OpenCall::Load);
                }
            },
            Some(OpenCall::Load) => {
                if code < 0 {
                    self.close(AUDIO_ALSA_ERROR);
                } else {
                    self.next_call = Some(OpenCall::AllocateId);
                }
            },
            Some(OpenCall::AllocateId) => {
                if code < 0 {
                    self.close(AUDIO_NO_MEMORY);
                } else {
                    self.next_call = Some(OpenCall::Find);
                }
            },
            Some(OpenCall::Find) => {
                if code == 0 {
                    self.close(AUDIO_UNSUPPORTED);
                } else {
                    self.next_call = Some(OpenCall::HasVolume);
                }
            },
            Some(OpenCall::HasVolume) => {
                if code == 0 {
                    self.next_call = Some(OpenCall::HasSwitch);
                } else {
                    self.next_call = None;
                    self.status = AUDIO_OK;
                }
            },
            Some(OpenCall::HasSwitch) => {
                if code == 0 {
                    self.close(AUDIO_UNSUPPORTED);
                } else {
                    self.next_call = None;
                    self.status = AUDIO_OK;
                }
            },
            Some(OpenCall::Close) => {
                self.next_call = None;
            },
            None => {},
        }
    }

    /// An upper bound on the calls that are still to be made.
    pub open spec fn calls_left(self) -> nat {
        match self.next_call {
            Some(OpenCall::Open) => 9,
            Some(OpenCall::Attach) => 8,
            Some(OpenCall::Register) => 7,
            Some(OpenCall::Load) => 6,
            Some(OpenCall::AllocateId) => 5,
            Some(OpenCall::Find) => 4,
            Some(OpenCall::HasVolume) => 3,
            Some(OpenCall::HasSwitch) => 2,
            Some(OpenCall::Close) => 1,
            None => 0,
        }
    }

    /// The operation, and whether it closed the mixer, once every call has been replied
    /// to as `codes` says.
    pub open spec fn run(self, codes: spec_fn(OpenCall) -> i32) -> (MixerOpen, bool)
        decreases self.calls_left(),
    {
        match self.next_call {
            Some(call) => {
                let (end, closed) = self.after(codes(call)).run(codes);
                (end, closed || call == OpenCall::Close)
            },
            None => (self, false),
        }
    }
}

/// Opening ends with the first failure, and with success exactly when there is none: the
/// element exists and has a volume or a switch. A mixer that was opened is closed again
/// exactly where opening fails.
pub proof fn law_open_outcome(codes: spec_fn(OpenCall) -> i32)
    ensures
        ({
            let (end, closed) = MixerOpen::initial().run(codes);
            &&& end.next_call is None
            &&& end.status == if codes(OpenCall::Open) < 0 || codes(OpenCall::Attach) < 0 || codes(
                OpenCall::Register,
            ) < 0 || codes(OpenCall::Load) < 0 {
                AUDIO_ALSA_ERROR
            } else if codes(OpenCall::AllocateId) < 0 {
                AUDIO_NO_MEMORY
            } else if codes(OpenCall::Find) == 0 || (codes(OpenCall::HasVolume) == 0 && codes(
                OpenCall::HasSwitch,
            ) == 0) {
                AUDIO_UNSUPPORTED
            } else {
                AUDIO_OK
            }
            &&& closed == (codes(OpenCall::Open) >= 0 && end.status != AUDIO_OK)
        }),
{
    reveal_with_fuel(MixerOpen::run, 10);
}

/// The numbers of the C interface: capture is zero and playback one, left is zero and right
/// one.
pub proof fn law_mixer_numbers_are_fixed(direction: MixerDirection, channel: MixerChannel)
    ensures
        direction.number() == 0 <==> direction is Capture,
        direction.number() == 1 <==> direction is Playback,
        channel.number() == 0 <==> channel is Left,
        channel.number() == 1 <==> channel is Right,
{
}

/// A request for a control is well formed exactly where it has the known size, a direction
/// and a channel of zero or one, an element name, and a card name or a USB interface.
pub proof fn law_acceptable_mixer_requests(card: MixerConfig, usb: UsbMixerConfig)
    ensures
        card.acceptable() <==> {
            &&& card.struct_size >= 40
            &&& card.direction == 0 || card.direction == 1
            &&& card.channel == 0 || card.channel == 1
            &&& card.card matches Some(name) && name@.len() > 0
            &&& card.element matches Some(name) && name@.len() > 0
        },
        usb.acceptable() <==> {
            &&& usb.struct_size >= 40
            &&& usb.direction == 0 || usb.direction == 1
            &&& usb.channel == 0 || usb.channel == 1
            &&& usb.usb_interface_path matches CText::Text(path)
                && crate::text::usb_interface_path_allowed(path@)
            &&& usb.element matches Some(name) && name@.len() > 0
        },
{
}

/// As long as nothing fails, the mixer is opened, attached to the card, registered and
/// loaded, in this order, before the element is looked up; only then is it asked for a
/// volume, and for a switch where it has no volume.
pub proof fn law_open_order(codes: Seq<i32>)
    requires
        codes.len() == 7,
        forall|i: int| 0 <= i < 5 ==> #[trigger] codes[i] >= 0,
        codes[5] != 0,
    ensures
        ({
            let opening = MixerOpen::initial();
            let attaching = opening.after(codes[0]);
            let registering = attaching.after(codes[1]);
            let loading = registering.after(codes[2]);
            let allocating = loading.after(codes[3]);
            let finding = allocating.after(codes[4]);
            let asking = finding.after(codes[5]);
            let asked = asking.after(codes[6]);
            &&& opening.next_call == Some(OpenCall::Open)
            &&& attaching.next_call == Some(OpenCall::Attach)
            &&& registering.next_call == Some(OpenCall::Register)
            &&& loading.next_call == Some(OpenCall::Load)
            &&& allocating.next_call == Some(OpenCall::AllocateId)
            &&& finding.next_call == Some(OpenCall::Find)
            &&& asking.next_call == Some(OpenCall::HasVolume)
            &&& codes[6] != 0 ==> asked.next_call is None && asked.status == 0
            &&& codes[6] == 0 ==> asked.next_call == Some(OpenCall::HasSwitch)
        }),
{
}

} // verus!
