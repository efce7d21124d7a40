//! Resolving and selecting USB devices: from a stable identity to device indexes.
//!
//! Both operations borrow the PortAudio runtime for one look at its inventory, and give
//! it back on every path.
use vstd::prelude::*;

use crate::abi::{
    ABI_VERSION, AUDIO_INVALID_ARGUMENT, AUDIO_OK, AUDIO_PORTAUDIO_ERROR, AUDIO_UNSUPPORTED,
};
use crate::devices::{resolve_portaudio_device_for_alsa_card, DeviceInventory};
use crate::runtime::{portaudio_acquire, portaudio_release, PortAudioRuntime};
use crate::selection::{
    resolve_exact_usb_card, resolve_selected_portaudio_devices, UsableCard, UsbDeviceIdentity,
    UsbDeviceSelector, ValidatedUsbDeviceIdentity, ValidatedUsbDeviceSelector,
    USB_DEVICE_MATCH_SIZE, USB_DEVICE_SELECTION_SIZE, USB_SELECTION_AUTOMATIC_LOWEST_ALSA_CARD,
};
use crate::stats::PA_NO_ERROR;
use crate::sysfs::{
    enumerate_usb_cards_from_sysfs, resolve_alsa_card_index_from_sysfs_identity, CardIdentity,
    ResolvedUsbCard, SoundEntry,
};
use crate::text::copy_usb_identity_component;

verus! {

/// A call that looking a device up needs.
#[derive(Clone, Copy, Debug, PartialEq, Eq, Structural)]
pub enum QueryCall {
    /// Read the listing of the sound class.
    ReadListing,
    /// Initialize PortAudio.
    Initialize,
    /// Read the device inventory.
    ReadInventory,
    /// Terminate PortAudio. The reply does not matter.
    Terminate,
}

/// The progress of a look-up that borrows the runtime.
#[derive(Clone, Copy, Debug, PartialEq, Eq, Structural)]
pub struct Query {
    /// The call to make next; none once the look-up is over.
    pub next_call: Option<QueryCall>,
    /// The result, once the look-up is over.
    pub status: i32,
    pub functions: usize,
}

impl Query {
    /// The look-up goes on with `call`.
    pub open spec fn calling(self, call: QueryCall) -> Query {
        Query { next_call: Some(call), ..self }
    }

    /// The look-up is over with `status`.
    pub open spec fn over(self, status: i32) -> Query {
        Query { next_call: None, status, ..self }
    }

    /// The runtime is borrowed, unless initializing it failed or another table owns it.
    pub open spec fn entered(self, runtime: PortAudioRuntime, code: i32, next: QueryCall) -> (
        Query,
        PortAudioRuntime,
    ) {
        if runtime.compatible(self.functions) && (runtime.references == 0 ==> code
            == PA_NO_ERROR) {
            (self.calling(next), runtime.acquired(self.functions))
        } else {
            (self.over(AUDIO_PORTAUDIO_ERROR), runtime)
        }
    }

    /// The runtime is to be borrowed before `next`.
    pub open spec fn entering(self, runtime: PortAudioRuntime, next: QueryCall) -> (
        Query,
        PortAudioRuntime,
    ) {
        if runtime.references == 0 {
            (self.calling(QueryCall::Initialize), runtime)
        } else {
            self.entered(runtime, PA_NO_ERROR, next)
        }
    }

    /// The runtime is given back, and the look-up ends with `status`.
    pub open spec fn leaving(self, runtime: PortAudioRuntime, status: i32) -> (
        Query,
        PortAudioRuntime,
    ) {
        if runtime.references == 1 && runtime.functions == Some(self.functions) {
            (
                Query { status, ..self }.calling(QueryCall::Terminate),
                runtime.released(self.functions),
            )
        } else {
            (self.over(status), runtime.released(self.functions))
        }
    }

    fn enter(&mut self, runtime: &mut PortAudioRuntime, code: i32, next: QueryCall)
        requires
            old(runtime).well_formed(),
            old(runtime).references < usize::MAX,
        ensures
            final(runtime).well_formed(),
            (*final(self), *final(runtime)) == old(self).entered(*old(runtime), code, next),
    {
        match portaudio_acquire(runtime, self.functions, code) {
            Ok(()) => {
                self.next_call = Some(next);
            },
            Err(error) => {
                self.next_call = None;
                self.status = error;
            },
        }
    }

    fn start_entering(&mut self, runtime: &mut PortAudioRuntime, next: QueryCall)
        requires
            old(runtime).well_formed(),
            old(runtime).references < usize::MAX,
        ensures
            final(runtime).well_formed(),
            (*final(self), *final(runtime)) == old(self).entering(*old(runtime), next),
    {
        if runtime.needs_initialize() {
            self.next_call = Some(QueryCall::Initialize);
        } else {
            self.enter(runtime, PA_NO_ERROR, next);
        }
    }

    fn leave(&mut self, runtime: &mut PortAudioRuntime, status: i32)
        requires
            old(runtime).well_formed(),
        ensures
            final(runtime).well_formed(),
            (*final(self), *final(runtime)) == old(self).leaving(*old(runtime), status),
    {
        self.status = status;
        if portaudio_release(runtime, self.functions) {
            self.next_call = Some(QueryCall::Terminate);
        } else {
            self.next_call = None;
        }
    }
}

/// Device indexes for one stream, in the field order of the C structure.
#[derive(Clone, Copy, Debug, PartialEq, Eq)]
pub struct UsbDeviceSelection {
    pub struct_size: u32,
    pub abi_version: u32,
    pub alsa_card_index: u32,
    pub input_device_index: i32,
    pub output_device_index: i32,
}

impl UsbDeviceSelection {
    /// A structure of which only the caller's size is set.
    pub open spec fn cleared(struct_size: u32) -> UsbDeviceSelection {
        UsbDeviceSelection {
            struct_size,
            abi_version: 0,
            alsa_card_index: 0,
            input_device_index: 0,
            output_device_index: 0,
        }
    }
}

/// Resolves a stable identity to the exact raw ALSA devices of its card.
#[derive(Clone, Copy, Debug)]
pub struct UsbResolve<'a> {
    pub query: Query,
    pub identity: ValidatedUsbDeviceIdentity<'a>,
    pub card_index: u32,
}

impl<'a> UsbResolve<'a> {
    /// The channel counts are mono or stereo.
    pub open spec fn well_formed(self) -> bool {
        1 <= self.identity.input_channels <= 2 && 1 <= self.identity.output_channels <= 2
    }

    /// Begins to resolve `identity`: clears the caller's structure, and refuses a
    /// malformed request with an error.
    pub fn begin(
        functions: usize,
        identity: Option<UsbDeviceIdentity<'a>>,
        selection: &mut UsbDeviceSelection,
    ) -> (result: Result<UsbResolve<'a>, i32>)
        ensures
            *final(selection) == UsbDeviceSelection::cleared(old(selection).struct_size),
            match identity {
                Some(identity) if old(selection).struct_size >= USB_DEVICE_SELECTION_SIZE
                    && identity.acceptable() => result matches Ok(resolve) && {
                    &&& resolve.well_formed()
                    &&& resolve.identity.describes(identity)
                    &&& resolve.query == (Query {
                        next_call: Some(QueryCall::ReadListing),
                        status: AUDIO_UNSUPPORTED,
                        functions,
                    })
                },
                _ => result matches Err(error) && error == AUDIO_INVALID_ARGUMENT,
            },
    {
        let struct_size: u32 = selection.struct_size;
        *selection = UsbDeviceSelection {
            struct_size,
            abi_version: 0,
            alsa_card_index: 0,
            input_device_index: 0,
            output_device_index: 0,
        };
        if struct_size < USB_DEVICE_SELECTION_SIZE {
            return Err(AUDIO_INVALID_ARGUMENT);
        }
        match ValidatedUsbDeviceIdentity::from_ffi(identity) {
            Ok(identity) => Ok(
                UsbResolve {
                    query: Query {
                        next_call: Some(QueryCall::ReadListing),
                        status: AUDIO_UNSUPPORTED,
                        functions,
                    },
                    identity,
                    card_index: 0,
                },
            ),
            Err(error) => Err(error),
        }
    }

    /// The card that the identity names.
    pub open spec fn named_card(self, listing: Option<Seq<SoundEntry>>) -> Result<u32, i32> {
        crate::sysfs::card_of_identity(
            listing,
            crate::sysfs::str_of(self.identity.usb_interface_path),
            crate::sysfs::str_of(self.identity.usb_serial),
        )
    }

    /// The operation and the runtime after the listing has been read.
    pub open spec fn after_listing(
        self,
        runtime: PortAudioRuntime,
        listing: Option<Seq<SoundEntry>>,
    ) -> (UsbResolve<'a>, PortAudioRuntime) {
        match self.named_card(listing) {
            Ok(card_index) => {
                let (query, next_runtime) = self.query.entering(
                    runtime,
                    QueryCall::ReadInventory,
                );
                (UsbResolve { query, card_index, ..self }, next_runtime)
            },
            Err(error) => (UsbResolve { query: self.query.over(error), ..self }, runtime),
        }
    }

    /// Takes the listing that was due; `None` stands for an unreadable sound class.
    pub fn listing(
        &mut self,
        runtime: &mut PortAudioRuntime,
        listing: Option<&Vec<SoundEntry>>,
    )
        requires
            old(self).well_formed(),
            old(self).query.next_call == Some(QueryCall::ReadListing),
            old(runtime).well_formed(),
            old(runtime).references < usize::MAX,
        ensures
            final(self).well_formed(),
            final(runtime).well_formed(),
            (*final(self), *final(runtime)) == old(self).after_listing(
                *old(runtime),
                crate::sysfs::entries_of(listing),
            ),
    {
        match resolve_alsa_card_index_from_sysfs_identity(
            listing,
            self.identity.usb_interface_path,
            self.identity.usb_serial,
        ) {
            Ok(card_index) => {
                self.card_index = card_index;
                self.query.start_entering(runtime, QueryCall::ReadInventory);
            },
            Err(error) => {
                self.query.next_call = None;
                self.query.status = error;
            },
        }
    }

    /// The operation and the runtime after a call that replies with a code.
    pub open spec fn after(self, runtime: PortAudioRuntime, code: i32) -> (
        UsbResolve<'a>,
        PortAudioRuntime,
    ) {
        if self.query.next_call == Some(QueryCall::Initialize) {
            let (query, next_runtime) = self.query.entered(
                runtime,
                code,
                QueryCall::ReadInventory,
            );
            (UsbResolve { query, ..self }, next_runtime)
        } else {
            (UsbResolve { query: self.query.over(self.query.status), ..self }, runtime)
        }
    }

    /// Takes the reply to the initialization or the termination that was due.
    pub fn reply(&mut self, runtime: &mut PortAudioRuntime, code: i32)
        requires
            old(self).well_formed(),
            old(self).query.next_call == Some(QueryCall::Initialize) || old(self).query.next_call
                == Some(QueryCall::Terminate),
            old(runtime).well_formed(),
            old(self).query.next_call == Some(QueryCall::Initialize) ==> old(runtime).references
                < usize::MAX,
        ensures
            final(self).well_formed(),
            final(runtime).well_formed(),
            (*final(self), *final(runtime)) == old(self).after(*old(runtime), code),
    {
        match self.query.next_call {
            Some(QueryCall::Initialize) => {
                self.query.enter(runtime, code, QueryCall::ReadInventory);
            },
            _ => {
                self.query.next_call = None;
            },
        }
    }

    /// The devices of the named card, or why there are none.
    pub open spec fn devices<L>(self, inventory: DeviceInventory<L>) -> Result<(i32, i32), i32> {
        crate::selection::selected_devices(
            inventory,
            self.card_index,
            None,
            self.identity.input_channels,
            self.identity.output_channels,
        )
    }

    /// The operation, the runtime and the caller's structure after the inventory has
    /// been read.
    pub open spec fn after_inventory<L>(
        self,
        runtime: PortAudioRuntime,
        selection: UsbDeviceSelection,
        inventory: DeviceInventory<L>,
    ) -> (UsbResolve<'a>, PortAudioRuntime, UsbDeviceSelection) {
        match self.devices(inventory) {
            Ok((input_device_index, output_device_index)) => {
                let (query, next_runtime) = self.query.leaving(runtime, AUDIO_OK);
                (
                    UsbResolve { query, ..self },
                    next_runtime,
                    UsbDeviceSelection {
                        struct_size: selection.struct_size,
                        abi_version: ABI_VERSION,
                        alsa_card_index: self.card_index,
                        input_device_index,
                        output_device_index,
                    },
                )
            },
            Err(error) => {
                let (query, next_runtime) = self.query.leaving(runtime, error);
                (UsbResolve { query, ..self }, next_runtime, selection)
            },
        }
    }

    /// Takes the inventory that was due.
    pub fn inventory<L>(
        &mut self,
        runtime: &mut PortAudioRuntime,
        selection: &mut UsbDeviceSelection,
        inventory: &DeviceInventory<L>,
    )
        requires
            old(self).well_formed(),
            old(self).query.next_call == Some(QueryCall::ReadInventory),
            old(runtime).well_formed(),
            inventory.complete(),
        ensures
            final(self).well_formed(),
            final(runtime).well_formed(),
            (*final(self), *final(runtime), *final(selection)) == old(self).after_inventory(
                *old(runtime),
                *old(selection),
                *inventory,
            ),
    {
        let input = resolve_portaudio_device_for_alsa_card(
            inventory,
            self.card_index,
            self.identity.input_channels,
            true,
        );
        let output = resolve_portaudio_device_for_alsa_card(
            inventory,
            self.card_index,
            self.identity.output_channels,
            false,
        );
        match (input, output) {
            (Err(error), _) => {
                self.query.leave(runtime, error);
            },
            (_, Err(error)) => {
                self.query.leave(runtime, error);
            },
            (Ok(input_device_index), Ok(output_device_index)) => {
                self.query.leave(runtime, AUDIO_OK);
                selection.abi_version = ABI_VERSION;
                selection.alsa_card_index = self.card_index;
                selection.input_device_index = input_device_index;
                selection.output_device_index = output_device_index;
            },
        }
    }

    /// An upper bound on the calls that are still to be made.
    pub open spec fn calls_left(self) -> nat {
        match self.query.next_call {
            Some(QueryCall::ReadListing) => 4,
            Some(QueryCall::Initialize) => 3,
            Some(QueryCall::ReadInventory) => 2,
            Some(QueryCall::Terminate) => 1,
            None => 0,
        }
    }

    /// The operation, the runtime and the caller's structure, once every call has been
    /// replied to; `code` is the reply to initializing PortAudio.
    pub open spec fn run<L>(
        self,
        runtime: PortAudioRuntime,
        selection: UsbDeviceSelection,
        listing: Option<Seq<SoundEntry>>,
        code: i32,
        inventory: DeviceInventory<L>,
    ) -> (UsbResolve<'a>, PortAudioRuntime, UsbDeviceSelection)
        decreases self.calls_left(),
    {
        match self.query.next_call {
            Some(QueryCall::ReadListing) => {
                let (next, next_runtime) = self.after_listing(runtime, listing);
                next.run(next_runtime, selection, listing, code, inventory)
            },
            Some(QueryCall::ReadInventory) => {
                let (next, next_runtime, next_selection) = self.after_inventory(
                    runtime,
                    selection,
                    inventory,
                );
                next.run(next_runtime, next_selection, listing, code, inventory)
            },
            Some(_) => {
                let (next, next_runtime) = self.after(runtime, code);
                next.run(next_runtime, selection, listing, code, inventory)
            },
            None => (self, runtime, selection),
        }
    }
}

/// What resolving an identity comes to. It borrows the runtime and gives it back, so
/// that the runtime is afterwards as it was before. The indexes are published only where
/// the identity names one card, PortAudio can be used and one raw device serves each
/// direction; any failure leaves the caller's structure cleared.
pub proof fn law_resolve_outcome<L>(
    resolve: UsbResolve,
    runtime: PortAudioRuntime,
    struct_size: u32,
    listing: Option<Seq<SoundEntry>>,
    code: i32,
    inventory: DeviceInventory<L>,
)
    requires
        runtime.well_formed(),
        runtime.references < usize::MAX,
        resolve.query.next_call == Some(QueryCall::ReadListing),
    ensures
        ({
            let cleared = UsbDeviceSelection::cleared(struct_size);
            let (end, end_runtime, selection) = resolve.run(
                runtime,
                cleared,
                listing,
                code,
                inventory,
            );
            let card = resolve.named_card(listing);
            let acquires = runtime.compatible(resolve.query.functions) && (runtime.references == 0
                ==> code == PA_NO_ERROR);
            let devices = UsbResolve { card_index: card->Ok_0, ..resolve }.devices(inventory);
            &&& end.query.next_call is None
            &&& end_runtime == runtime
            &&& end.query.status == if card is Err {
                card->Err_0
            } else if !acquires {
                AUDIO_PORTAUDIO_ERROR
            } else if devices is Err {
                devices->Err_0
            } else {
                AUDIO_OK
            }
            &&& card is Ok && acquires && devices is Ok ==> selection == UsbDeviceSelection {
                struct_size,
                abi_version: ABI_VERSION,
                alsa_card_index: card->Ok_0,
                input_device_index: devices->Ok_0.0,
                output_device_index: devices->Ok_0.1,
            }
            &&& !(card is Ok && acquires && devices is Ok) ==> selection == cleared
        }),
{
    reveal_with_fuel(UsbResolve::run, 5);
    if runtime.compatible(resolve.query.functions) {
        crate::runtime::law_release_undoes_acquire(runtime, resolve.query.functions);
    }
}

/// A selected device, in the field order of the C structure.
#[derive(Debug)]
pub struct UsbDeviceMatch {
    pub struct_size: u32,
    pub abi_version: u32,
    pub usb_interface_path: [u8; 256],
    pub usb_serial: [u8; 256],
    pub selection: UsbDeviceSelection,
}

impl UsbDeviceMatch {
    /// Only the caller's size is set.
    pub open spec fn is_cleared(self, struct_size: u32) -> bool {
        &&& self.struct_size == struct_size
        &&& self.abi_version == 0
        &&& self.usb_interface_path@ == crate::text::padded(Seq::empty(), 256)
        &&& self.usb_serial@ == crate::text::padded(Seq::empty(), 256)
        &&& self.selection == UsbDeviceSelection::cleared(0)
    }

    /// The structure names `usable`.
    pub open spec fn names(self, struct_size: u32, usable: UsableCard) -> bool {
        &&& self.struct_size == struct_size
        &&& self.abi_version == ABI_VERSION
        &&& self.usb_interface_path@ == crate::text::padded(
            vstd::utf8::encode_utf8(usable.card.usb_interface_path),
            256,
        )
        &&& self.usb_serial@ == crate::text::padded(serial_bytes(usable.card), 256)
        &&& self.selection == UsbDeviceSelection {
            struct_size: USB_DEVICE_SELECTION_SIZE,
            abi_version: ABI_VERSION,
            alsa_card_index: usable.card.card_index,
            input_device_index: usable.input_device_index,
            output_device_index: usable.output_device_index,
        }
    }

    /// A structure of which only the caller's size is set.
    pub fn cleared(struct_size: u32) -> (device_match: UsbDeviceMatch)
        ensures
            device_match.is_cleared(struct_size),
    {
        let device_match = UsbDeviceMatch {
            struct_size,
            abi_version: 0,
            usb_interface_path: [0u8; 256],
            usb_serial: [0u8; 256],
            selection: UsbDeviceSelection {
                struct_size: 0,
                abi_version: 0,
                alsa_card_index: 0,
                input_device_index: 0,
                output_device_index: 0,
            },
        };
        assert(device_match.usb_interface_path@ =~= crate::text::padded(Seq::empty(), 256));
        assert(device_match.usb_serial@ =~= crate::text::padded(Seq::empty(), 256));
        device_match
    }
}

/// The bytes of a card's serial number; none for a card without one.
pub open spec fn serial_bytes(card: CardIdentity) -> Seq<u8> {
    match card.usb_serial {
        Some(serial) => vstd::utf8::encode_utf8(serial),
        None => Seq::empty(),
    }
}

/// The card's interface path fits its buffer, as every file name of the host does.
pub open spec fn path_fits(card: CardIdentity) -> bool {
    vstd::utf8::encode_utf8(card.usb_interface_path).len() < 256
}

/// Every path component of the listing is short enough to be a file name.
pub open spec fn components_fit(listing: Option<Seq<SoundEntry>>) -> bool {
    listing matches Some(entries) ==> forall|i: int, k: int|
        0 <= i < entries.len() && entries[i].device_path is Some && 0 <= k
            < entries[i].device_path->0@.len() && (
        #[trigger] entries[i].device_path->0@[k]) is Some ==> vstd::utf8::encode_utf8(
            entries[i].device_path->0@[k]->0@,
        ).len() < 256
}

proof fn lemma_inventory_paths_fit(entries: Seq<SoundEntry>)
    requires
        components_fit(Some(entries)),
    ensures
        forall|i: int|
            0 <= i < crate::sysfs::usb_cards(entries).len() ==> path_fits(
                #[trigger] crate::sysfs::usb_cards(entries)[i],
            ),
{
    let cards = crate::sysfs::usb_cards(entries);
    assert forall|i: int| 0 <= i < cards.len() implies path_fits(#[trigger] cards[i]) by {
        crate::sysfs::law_inventory_is_complete(entries, cards[i]);
        assert(cards.contains(cards[i]));
        let k = choose|k: int|
            0 <= k < entries.len() && (#[trigger] entries[k]).identity() == Some(cards[i]);
        let path = entries[k].device_path->0@;
        crate::sysfs::law_nearest_interface_is_the_last(path);
        let index = crate::sysfs::nearest_interface(path)->0;
        assert(path[index] is Some);
    }
}

proof fn lemma_first_with_number_is_listed(cards: Seq<CardIdentity>, card_index: u32)
    ensures
        crate::sysfs::first_with_number(cards, card_index) matches Some(card) ==> exists|i: int|
            0 <= i < cards.len() && #[trigger] cards[i] == card,
    decreases cards.len(),
{
    if cards.len() != 0 && cards[0].card_index != card_index {
        lemma_first_with_number_is_listed(cards.skip(1), card_index);
        if let Some(card) = crate::sysfs::first_with_number(cards.skip(1), card_index) {
            let i = choose|i: int|
                0 <= i < cards.skip(1).len() && #[trigger] cards.skip(1)[i] == card;
            assert(cards[i + 1] == card);
        }
    } else if cards.len() != 0 {
        assert(cards[0] == cards[0]);
    }
}

/// Selects a device by exact identity or by policy.
#[derive(Debug)]
pub struct UsbSelect<'a> {
    pub query: Query,
    pub selector: ValidatedUsbDeviceSelector<'a>,
    /// The cards that may be selected, best first.
    pub cards: Vec<ResolvedUsbCard>,
    pub pcm_device: Option<u32>,
}

impl<'a> UsbSelect<'a> {
    /// The request is a checked one, and every candidate can be published.
    pub open spec fn well_formed(self) -> bool {
        &&& self.selector.well_formed()
        &&& forall|i: int| 0 <= i < self.cards@.len() ==> path_fits((#[trigger] self.cards@[i])@)
    }

    /// The candidates that the request has in a listing.
    pub open spec fn candidates(self, listing: Option<Seq<SoundEntry>>) -> Result<
        Seq<CardIdentity>,
        i32,
    > {
        crate::selection::candidates(
            listing,
            self.selector.selection_policy,
            crate::selection::meaning_of_identifier(self.selector.identifier),
            crate::sysfs::str_of(self.selector.usb_serial),
        )
    }

    /// The PCM device that the request asks for.
    pub open spec fn wanted_pcm(self) -> Option<u32> {
        if self.selector.selection_policy == USB_SELECTION_AUTOMATIC_LOWEST_ALSA_CARD {
            None
        } else {
            crate::selection::exact_pcm(
                crate::selection::meaning_of_identifier(self.selector.identifier),
            )
        }
    }

    /// Begins to select a device: clears the caller's structure, and refuses a malformed
    /// request with an error.
    pub fn begin(
        runtime: &mut PortAudioRuntime,
        functions: usize,
        selector: Option<UsbDeviceSelector<'a>>,
        device_match: &mut UsbDeviceMatch,
    ) -> (result: Result<UsbSelect<'a>, i32>)
        requires
            old(runtime).well_formed(),
            old(runtime).references < usize::MAX,
        ensures
            final(runtime).well_formed(),
            final(device_match).is_cleared(old(device_match).struct_size),
            match selector {
                Some(selector) if old(device_match).struct_size >= USB_DEVICE_MATCH_SIZE
                    && selector.acceptable() => result matches Ok(select) && {
                    &&& select.well_formed()
                    &&& select.selector.describes(selector)
                    &&& select.cards@.len() == 0
                    &&& select.pcm_device is None
                    &&& (select.query, *final(runtime)) == (Query {
                        next_call: None,
                        status: AUDIO_UNSUPPORTED,
                        functions,
                    }).entering(*old(runtime), QueryCall::ReadListing)
                },
                _ => {
                    &&& result matches Err(error) && error == AUDIO_INVALID_ARGUMENT
                    &&& *final(runtime) == *old(runtime)
                },
            },
    {
        let struct_size: u32 = device_match.struct_size;
        *device_match = UsbDeviceMatch::cleared(struct_size);
        if struct_size < USB_DEVICE_MATCH_SIZE {
            return Err(AUDIO_INVALID_ARGUMENT);
        }
        let selector = match ValidatedUsbDeviceSelector::from_ffi(selector) {
            Ok(selector) => selector,
            Err(error) => return Err(error),
        };
        let mut query = Query { next_call: None, status: AUDIO_UNSUPPORTED, functions };
        query.start_entering(runtime, QueryCall::ReadListing);
        Ok(UsbSelect { query, selector, cards: Vec::new(), pcm_device: None })
    }

    /// Takes the reply to the initialization or the termination that was due.
    pub fn reply(&mut self, runtime: &mut PortAudioRuntime, code: i32)
        requires
            old(self).well_formed(),
            old(self).query.next_call == Some(QueryCall::Initialize) || old(self).query.next_call
                == Some(QueryCall::Terminate),
            old(runtime).well_formed(),
            old(self).query.next_call == Some(QueryCall::Initialize) ==> old(runtime).references
                < usize::MAX,
        ensures
            final(self).well_formed(),
            final(runtime).well_formed(),
            final(self).selector == old(self).selector,
            final(self).cards == old(self).cards,
            final(self).pcm_device == old(self).pcm_device,
            (final(self).query, *final(runtime)) == if old(self).query.next_call == Some(
                QueryCall::Initialize,
            ) {
                old(self).query.entered(*old(runtime), code, QueryCall::ReadListing)
            } else {
                (old(self).query.over(old(self).query.status), *old(runtime))
            },
    {
        match self.query.next_call {
            Some(QueryCall::Initialize) => {
                self.query.enter(runtime, code, QueryCall::ReadListing);
            },
            _ => {
                self.query.next_call = None;
            },
        }
    }

    /// Takes the listing that was due; `None` stands for an unreadable sound class.
    pub fn listing(&mut self, runtime: &mut PortAudioRuntime, listing: Option<&Vec<SoundEntry>>)
        requires
            old(self).well_formed(),
            old(self).query.next_call == Some(QueryCall::ReadListing),
            old(runtime).well_formed(),
            components_fit(crate::sysfs::entries_of(listing)),
        ensures
            final(self).well_formed(),
            final(runtime).well_formed(),
            final(self).selector == old(self).selector,
            match old(self).candidates(crate::sysfs::entries_of(listing)) {
                Ok(cards) => {
                    &&& crate::sysfs::identities(final(self).cards@) == cards
                    &&& final(self).pcm_device == old(self).wanted_pcm()
                    &&& final(self).query == old(self).query.calling(QueryCall::ReadInventory)
                    &&& *final(runtime) == *old(runtime)
                },
                Err(error) => (final(self).query, *final(runtime)) == old(self).query.leaving(
                    *old(runtime),
                    error,
                ),
            },
    {
        if self.selector.selection_policy == USB_SELECTION_AUTOMATIC_LOWEST_ALSA_CARD {
            match enumerate_usb_cards_from_sysfs(listing) {
                Ok(cards) => {
                    proof {
                        let entries = listing->0@;
                        lemma_inventory_paths_fit(entries);
                        assert forall|i: int| 0 <= i < cards@.len() implies path_fits(
                            (#[trigger] cards@[i])@,
                        ) by {
                            assert(crate::sysfs::usb_cards(entries)[i] == cards@[i]@);
                        }
                    }
                    self.cards = cards;
                    self.pcm_device = None;
                    self.query.next_call = Some(QueryCall::ReadInventory);
                },
                Err(error) => {
                    self.query.leave(runtime, error);
                },
            }
        } else {
            match resolve_exact_usb_card(listing, &self.selector) {
                Ok((card, pcm_device)) => {
                    proof {
                        assert(listing is Some);
                        let entries = listing->0@;
                        let cards = crate::sysfs::usb_cards(entries);
                        lemma_inventory_paths_fit(entries);
                        lemma_first_with_number_is_listed(cards, card@.card_index);
                        lemma_first_with_number_has_it(cards, exact_card_number(*self, listing));
                    }
                    let mut cards: Vec<ResolvedUsbCard> = Vec::new();
                    cards.push(card);
                    assert(crate::sysfs::identities(cards@) =~= seq![card@]);
                    self.cards = cards;
                    self.pcm_device = pcm_device;
                    self.query.next_call = Some(QueryCall::ReadInventory);
                },
                Err(error) => {
                    self.query.leave(runtime, error);
                },
            }
        }
    }

    /// What the candidates come to in an inventory.
    pub open spec fn chosen<L>(
        self,
        cards: Seq<CardIdentity>,
        pcm_device: Option<u32>,
        inventory: DeviceInventory<L>,
    ) -> Result<UsableCard, i32> {
        match crate::selection::first_usable(
            inventory,
            cards,
            pcm_device,
            self.selector.input_channels,
            self.selector.output_channels,
        ) {
            Ok(usable) => if serial_bytes(usable.card).len() < 256 {
                Ok(usable)
            } else {
                Err(AUDIO_UNSUPPORTED)
            },
            Err(error) => Err(error),
        }
    }

    /// Takes the inventory that was due. The caller's structure is written only once the
    /// whole identity is known to fit.
    pub fn inventory<L>(
        &mut self,
        runtime: &mut PortAudioRuntime,
        device_match: &mut UsbDeviceMatch,
        inventory: &DeviceInventory<L>,
    )
        requires
            old(self).well_formed(),
            old(self).query.next_call == Some(QueryCall::ReadInventory),
            old(runtime).well_formed(),
            inventory.complete(),
        ensures
            final(self).well_formed(),
            final(runtime).well_formed(),
            final(self).selector == old(self).selector,
            match old(self).chosen(
                crate::sysfs::identities(old(self).cards@),
                old(self).pcm_device,
                *inventory,
            ) {
                Ok(usable) => {
                    &&& (final(self).query, *final(runtime)) == old(self).query.leaving(
                        *old(runtime),
                        AUDIO_OK,
                    )
                    &&& final(device_match).names(old(device_match).struct_size, usable)
                },
                Err(error) => {
                    &&& (final(self).query, *final(runtime)) == old(self).query.leaving(
                        *old(runtime),
                        error,
                    )
                    &&& *final(device_match) == *old(device_match)
                },
            },
    {
        match self.first_usable(inventory) {
            Ok((index, input_device_index, output_device_index)) => {
                let mut resolved = UsbDeviceMatch::cleared(device_match.struct_size);
                let card: &ResolvedUsbCard = &self.cards[index];
                let path = copy_usb_identity_component(
                    &mut resolved.usb_interface_path,
                    card.usb_interface_path.as_str(),
                );
                match &card.usb_serial {
                    Some(serial) => {
                        match copy_usb_identity_component(
                            &mut resolved.usb_serial,
                            serial.as_str(),
                        ) {
                            Ok(()) => {},
                            Err(error) => {
                                self.query.leave(runtime, error);
                                return ;
                            },
                        }
                    },
                    None => {},
                }
                resolved.abi_version = ABI_VERSION;
                resolved.selection = UsbDeviceSelection {
                    struct_size: USB_DEVICE_SELECTION_SIZE,
                    abi_version: ABI_VERSION,
                    alsa_card_index: card.card_index,
                    input_device_index,
                    output_device_index,
                };
                *device_match = resolved;
                self.query.leave(runtime, AUDIO_OK);
            },
            Err(error) => {
                self.query.leave(runtime, error);
            },
        }
    }

    /// The place of the first usable candidate, with its device indexes.
    fn first_usable<L>(&self, inventory: &DeviceInventory<L>) -> (result: Result<
        (usize, i32, i32),
        i32,
    >)
        requires
            self.well_formed(),
            inventory.complete(),
        ensures
            match crate::selection::first_usable(
                *inventory,
                crate::sysfs::identities(self.cards@),
                self.pcm_device,
                self.selector.input_channels,
                self.selector.output_channels,
            ) {
                Ok(usable) => result matches Ok((index, input, output)) && {
                    &&& index < self.cards@.len()
                    &&& usable.card == self.cards@[index as int]@
                    &&& usable.input_device_index == input
                    &&& usable.output_device_index == output
                },
                Err(error) => result matches Err(reported) && reported == error,
            },
    {
        let ghost all = crate::sysfs::identities(self.cards@);
        let ghost whole = crate::selection::first_usable(
            *inventory,
            all,
            self.pcm_device,
            self.selector.input_channels,
            self.selector.output_channels,
        );
        let mut index: usize = 0;
        assert(all.skip(0) =~= all);
        while index < self.cards.len()
            invariant
                index <= self.cards@.len(),
                self.well_formed(),
                inventory.complete(),
                all == crate::sysfs::identities(self.cards@),
                whole == crate::selection::first_usable(
                    *inventory,
                    all,
                    self.pcm_device,
                    self.selector.input_channels,
                    self.selector.output_channels,
                ),
                whole == crate::selection::first_usable(
                    *inventory,
                    all.skip(index as int),
                    self.pcm_device,
                    self.selector.input_channels,
                    self.selector.output_channels,
                ),
            decreases self.cards@.len() - index,
        {
            assert(all.skip(index as int)[0] == self.cards@[index as int]@);
            match resolve_selected_portaudio_devices(
                inventory,
                &self.cards[index],
                self.pcm_device,
                &self.selector,
            ) {
                Ok((input, output)) => {
                    return Ok((index, input, output));
                },
                Err(error) => {
                    if error != AUDIO_UNSUPPORTED {
                        return Err(error);
                    }
                },
            }
            assert(all.skip(index as int).skip(1) =~= all.skip(index + 1));
            index = index + 1;
        }
        Err(AUDIO_UNSUPPORTED)
    }
}

/// The card number that an exact request names.
spec fn exact_card_number(select: UsbSelect, listing: Option<&Vec<SoundEntry>>) -> u32 {
    crate::selection::exact_number(
        crate::sysfs::entries_of(listing),
        crate::selection::meaning_of_identifier(select.selector.identifier),
        crate::sysfs::str_of(select.selector.usb_serial),
    )->Ok_0
}

proof fn lemma_first_with_number_has_it(cards: Seq<CardIdentity>, card_index: u32)
    ensures
        crate::sysfs::first_with_number(cards, card_index) matches Some(card) ==> card.card_index
            == card_index,
    decreases cards.len(),
{
    if cards.len() != 0 && cards[0].card_index != card_index {
        lemma_first_with_number_has_it(cards.skip(1), card_index);
    }
}

/// A selection in progress, as its callers see it.
pub struct SelectProgress {
    pub query: Query,
    pub runtime: PortAudioRuntime,
    pub cards: Seq<CardIdentity>,
    pub pcm_device: Option<u32>,
    /// What has been written to the caller's structure; none while it is cleared.
    pub published: Option<UsableCard>,
}

/// What a selection is replied: by the host, by initializing PortAudio, by PortAudio.
pub struct SelectReplies<L> {
    pub listing: Option<Seq<SoundEntry>>,
    pub code: i32,
    pub inventory: DeviceInventory<L>,
}

impl<'a> UsbSelect<'a> {
    /// The selection after one more call.
    pub open spec fn after<L>(
        self,
        progress: SelectProgress,
        replies: SelectReplies<L>,
    ) -> SelectProgress {
        match progress.query.next_call {
            Some(QueryCall::Initialize) => {
                let (query, runtime) = progress.query.entered(
                    progress.runtime,
                    replies.code,
                    QueryCall::ReadListing,
                );
                SelectProgress { query, runtime, ..progress }
            },
            Some(QueryCall::ReadListing) => match self.candidates(replies.listing) {
                Ok(cards) => SelectProgress {
                    query: progress.query.calling(QueryCall::ReadInventory),
                    cards,
                    pcm_device: self.wanted_pcm(),
                    ..progress
                },
                Err(error) => {
                    let (query, runtime) = progress.query.leaving(progress.runtime, error);
                    SelectProgress { query, runtime, ..progress }
                },
            },
            Some(QueryCall::ReadInventory) => match self.chosen(
                progress.cards,
                progress.pcm_device,
                replies.inventory,
            ) {
                Ok(usable) => {
                    let (query, runtime) = progress.query.leaving(progress.runtime, AUDIO_OK);
                    SelectProgress { query, runtime, published: Some(usable), ..progress }
                },
                Err(error) => {
                    let (query, runtime) = progress.query.leaving(progress.runtime, error);
                    SelectProgress { query, runtime, ..progress }
                },
            },
            Some(QueryCall::Terminate) => SelectProgress {
                query: progress.query.over(progress.query.status),
                ..progress
            },
            None => progress,
        }
    }

    /// The selection once every call has been made.
    pub open spec fn run<L>(
        self,
        progress: SelectProgress,
        replies: SelectReplies<L>,
    ) -> SelectProgress
        decreases
            match progress.query.next_call {
                Some(QueryCall::Initialize) => 4nat,
                Some(QueryCall::ReadListing) => 3nat,
                Some(QueryCall::ReadInventory) => 2nat,
                Some(QueryCall::Terminate) => 1nat,
                None => 0nat,
            },
    {
        match progress.query.next_call {
            Some(_) => self.run(self.after(progress, replies), replies),
            None => progress,
        }
    }

    /// What the request comes to, as long as PortAudio can be used.
    pub open spec fn selected<L>(self, replies: SelectReplies<L>) -> Result<UsableCard, i32> {
        match self.candidates(replies.listing) {
            Ok(cards) => self.chosen(cards, self.wanted_pcm(), replies.inventory),
            Err(error) => Err(error),
        }
    }
}

/// What selecting a device comes to. The runtime is borrowed before the host is read, and
/// is afterwards as it was before. The caller's structure names the selected device
/// where there is one, and stays cleared on any failure.
pub proof fn law_select_outcome<L>(
    select: UsbSelect,
    functions: usize,
    runtime: PortAudioRuntime,
    replies: SelectReplies<L>,
)
    requires
        runtime.well_formed(),
        runtime.references < usize::MAX,
    ensures
        ({
            let (query, entered) = Query {
                next_call: None,
                status: AUDIO_UNSUPPORTED,
                functions,
            }.entering(runtime, QueryCall::ReadListing);
            let first = SelectProgress {
                query,
                runtime: entered,
                cards: Seq::empty(),
                pcm_device: None,
                published: None,
            };
            let end = select.run(first, replies);
            let acquires = runtime.compatible(functions) && (runtime.references == 0
                ==> replies.code == PA_NO_ERROR);
            &&& end.query.next_call is None
            &&& end.runtime == runtime
            &&& end.query.status == if !acquires {
                AUDIO_PORTAUDIO_ERROR
            } else {
                match select.selected(replies) {
                    Ok(_) => AUDIO_OK,
                    Err(error) => error,
                }
            }
            &&& end.published == if !acquires {
                None
            } else {
                match select.selected(replies) {
                    Ok(usable) => Some(usable),
                    Err(_) => None,
                }
            }
        }),
{
    reveal_with_fuel(UsbSelect::run, 5);
    if runtime.compatible(functions) {
        crate::runtime::law_release_undoes_acquire(runtime, functions);
    }
}

/// Automatic selection takes the usable card with the lowest number: every card before
/// it in numerical order is one that PortAudio cannot serve.
pub proof fn law_automatic_selection_is_lowest<L>(
    inventory: DeviceInventory<L>,
    cards: Seq<CardIdentity>,
    input_channels: usize,
    output_channels: usize,
)
    requires
        crate::sysfs::sorted_by_card(cards),
    ensures
        crate::selection::first_usable(inventory, cards, None, input_channels, output_channels)
            matches Ok(usable) ==> cards.contains(usable.card) && forall|i: int|
            0 <= i < cards.len() && (#[trigger] cards[i]).card_index < usable.card.card_index
                ==> crate::selection::selected_devices(
                inventory,
                cards[i].card_index,
                None,
                input_channels,
                output_channels,
            ) == Err::<(i32, i32), i32>(AUDIO_UNSUPPORTED),
    decreases cards.len(),
{
    let found = crate::selection::first_usable(
        inventory,
        cards,
        None,
        input_channels,
        output_channels,
    );
    if let Ok(usable) = found {
        let first = crate::selection::selected_devices(
            inventory,
            cards[0].card_index,
            None,
            input_channels,
            output_channels,
        );
        if first is Ok {
            assert(cards[0] == usable.card);
        } else {
            let rest = cards.skip(1);
            assert forall|i: int, j: int| 0 <= i <= j < rest.len() implies (
            #[trigger] rest[i]).card_index <= (#[trigger] rest[j]).card_index by {
                assert(rest[i] == cards[i + 1] && rest[j] == cards[j + 1]);
            }
            law_automatic_selection_is_lowest(inventory, rest, input_channels, output_channels);
            let k = choose|k: int| 0 <= k < rest.len() && rest[k] == usable.card;
            assert(cards[k + 1] == usable.card);
            assert forall|i: int|
                0 <= i < cards.len() && (#[trigger] cards[i]).card_index
                    < usable.card.card_index implies crate::selection::selected_devices(
                inventory,
                cards[i].card_index,
                None,
                input_channels,
                output_channels,
            ) == Err::<(i32, i32), i32>(AUDIO_UNSUPPORTED) by {
                if i > 0 {
                    assert(rest[i - 1] == cards[i]);
                }
            }
        }
    }
}

/// Resolving an identity succeeds exactly where it names one card, PortAudio can be used and
/// the card has one pair of devices with the channels that the caller asked for, the input
/// with the input's and the output with the output's. Those are then what the caller reads.
pub proof fn law_resolve_serves_the_request<L>(
    identity: UsbDeviceIdentity,
    resolve: UsbResolve,
    runtime: PortAudioRuntime,
    struct_size: u32,
    listing: Option<Seq<SoundEntry>>,
    code: i32,
    inventory: DeviceInventory<L>,
    card_index: u32,
    input: i32,
    output: i32,
)
    requires
        runtime.well_formed(),
        runtime.references < usize::MAX,
        resolve.query.next_call == Some(QueryCall::ReadListing),
        resolve.identity.describes(identity),
    ensures
        ({
            let (end, end_runtime, selection) = resolve.run(
                runtime,
                UsbDeviceSelection::cleared(struct_size),
                listing,
                code,
                inventory,
            );
            let named = crate::sysfs::card_of_identity(
                listing,
                crate::selection::c_text(identity.usb_interface_path)->Ok_0,
                crate::selection::c_text(identity.usb_serial)->Ok_0,
            );
            &&& (end.query.status == 0 && selection.alsa_card_index == card_index
                && selection.input_device_index == input && selection.output_device_index
                == output) <==> {
                &&& named == Ok::<u32, i32>(card_index)
                &&& runtime.compatible(resolve.query.functions)
                &&& runtime.references == 0 ==> code == 0
                &&& crate::selection::is_the_pair(
                    inventory,
                    card_index,
                    None,
                    identity.input_device_channels as int,
                    identity.output_device_channels as int,
                    input,
                    output,
                )
            }
            &&& end.query.status != 0 ==> selection == UsbDeviceSelection::cleared(struct_size)
        }),
{
    law_resolve_outcome(resolve, runtime, struct_size, listing, code, inventory);
    let card = resolve.named_card(listing);
    let devices = UsbResolve { card_index: card->Ok_0, ..resolve }.devices(inventory);
    crate::selection::law_selected_pair_is_exact(
        inventory,
        card->Ok_0,
        None,
        resolve.identity.input_channels,
        resolve.identity.output_channels,
        input,
        output,
    );
}

/// What a caller reads of a selected device is one that serves the request: the two indexes
/// are the only pair of raw devices of that card, and of the PCM device that a native
/// selector asks for, with the channels that the caller asked for in each direction. A native
/// selector gets the card that it names, and a serial number a card that has it.
pub proof fn law_select_serves_the_request<L>(
    request: UsbDeviceSelector,
    select: UsbSelect,
    replies: SelectReplies<L>,
    struct_size: u32,
    device_match: UsbDeviceMatch,
)
    requires
        request.acceptable(),
        select.selector.describes(request),
        select.selected(replies) matches Ok(usable) && device_match.names(struct_size, usable),
    ensures
        device_match.struct_size == struct_size,
        device_match.abi_version == ABI_VERSION,
        device_match.selection.struct_size == 20,
        device_match.selection.abi_version == ABI_VERSION,
        ({
            let native = match crate::selection::c_text(request.device_identifier) {
                Ok(Some(text)) => match crate::selection::meaning_of(text) {
                    Some(crate::selection::Identifier::Hw(native)) => Some(native),
                    _ => None,
                },
                _ => None,
            };
            let serial = crate::selection::c_text(request.usb_serial)->Ok_0;
            &&& crate::selection::is_the_pair(
                replies.inventory,
                device_match.selection.alsa_card_index,
                match native {
                    Some(native) => native.pcm_device,
                    None => None,
                },
                request.input_device_channels as int,
                request.output_device_channels as int,
                device_match.selection.input_device_index,
                device_match.selection.output_device_index,
            )
            &&& native matches Some(native) ==> device_match.selection.alsa_card_index
                == native.card_index
            &&& serial matches Some(serial) ==> device_match.usb_serial@ == crate::text::padded(
                vstd::utf8::encode_utf8(serial),
                256,
            )
        }),
{
    let cards = select.candidates(replies.listing)->Ok_0;
    let pcm_device = select.wanted_pcm();
    crate::selection::law_search_finds_the_first_pair(
        replies.inventory,
        cards,
        pcm_device,
        select.selector.input_channels,
        select.selector.output_channels,
    );
    let identifier = crate::selection::meaning_of_identifier(select.selector.identifier);
    let serial = crate::sysfs::str_of(select.selector.usb_serial);
    if let Some(entries) = replies.listing {
        if let Ok(number) = crate::selection::exact_number(replies.listing, identifier, serial) {
            lemma_first_with_number_has_it(crate::sysfs::usb_cards(entries), number);
        }
    }
}

/// Where the choice is left to the lowest card, no USB sound card of the listing with a lower
/// number has a pair of devices for the request, and the selected card is one of the listing.
pub proof fn law_automatic_choice_is_the_lowest<L>(
    request: UsbDeviceSelector,
    select: UsbSelect,
    replies: SelectReplies<L>,
    struct_size: u32,
    device_match: UsbDeviceMatch,
    place: int,
    input: i32,
    output: i32,
)
    requires
        request.acceptable(),
        request.selection_policy == 1,
        select.selector.describes(request),
        select.selected(replies) matches Ok(usable) && device_match.names(struct_size, usable),
        0 <= place < replies.listing->0.len(),
        replies.listing->0[place].identity() matches Some(card) && card.card_index
            < device_match.selection.alsa_card_index,
    ensures
        replies.listing is Some,
        !crate::selection::is_the_pair(
            replies.inventory,
            replies.listing->0[place].identity()->0.card_index,
            None,
            request.input_device_channels as int,
            request.output_device_channels as int,
            input,
            output,
        ),
        exists|k: int|
            0 <= k < replies.listing->0.len() && ((
            #[trigger] replies.listing->0[k]).identity() matches Some(card) && card.card_index
                == device_match.selection.alsa_card_index),
{
    let entries = replies.listing->0;
    let cards = crate::sysfs::usb_cards(entries);
    let lower = entries[place].identity()->0;
    let usable = select.selected(replies)->Ok_0;
    crate::selection::law_search_finds_the_first_pair(
        replies.inventory,
        cards,
        None,
        select.selector.input_channels,
        select.selector.output_channels,
    );
    crate::sysfs::law_inventory_is_sorted(entries);
    crate::sysfs::law_inventory_is_complete(entries, lower);
    crate::sysfs::law_inventory_is_complete(entries, usable.card);
    assert(cards.contains(lower));
    let j = choose|j: int| 0 <= j < cards.len() && cards[j] == lower;
    let i = choose|i: int|
        {
            &&& 0 <= i < cards.len()
            &&& #[trigger] cards[i] == usable.card
            &&& forall|earlier: int, input: i32, output: i32|
                0 <= earlier < i ==> !#[trigger] crate::selection::is_the_pair(
                    replies.inventory,
                    cards[earlier].card_index,
                    None,
                    select.selector.input_channels as int,
                    select.selector.output_channels as int,
                    input,
                    output,
                )
        };
    assert(cards.contains(usable.card));
    if i <= j {
        assert(cards[i].card_index <= cards[j].card_index);
    }
    assert(j < i);
    let k = choose|k: int|
        0 <= k < entries.len() && (#[trigger] entries[k]).identity() == Some(usable.card);
    assert(entries[k].identity() == Some(usable.card));
}

/// A cleared structure has nothing but the caller's size; one that names a device has its
/// interface path and its serial number, ended and padded with zeros, and its indexes.
pub proof fn law_published_fields(
    struct_size: u32,
    cleared: UsbDeviceMatch,
    device_match: UsbDeviceMatch,
    usable: UsableCard,
    place: int,
)
    requires
        cleared.is_cleared(struct_size),
        device_match.names(struct_size, usable),
        0 <= place < 256,
    ensures
        cleared.struct_size == struct_size,
        cleared.abi_version == 0,
        cleared.usb_interface_path@[place] == 0,
        cleared.usb_serial@[place] == 0,
        cleared.selection == UsbDeviceSelection::cleared(0),
        ({
            let empty = UsbDeviceSelection::cleared(struct_size);
            &&& empty.struct_size == struct_size
            &&& empty.abi_version == 0
            &&& empty.alsa_card_index == 0
            &&& empty.input_device_index == 0
            &&& empty.output_device_index == 0
        }),
        ({
            let path = vstd::utf8::encode_utf8(usable.card.usb_interface_path);
            &&& device_match.usb_interface_path@[place] == if place < path.len() {
                path[place]
            } else {
                0
            }
            &&& device_match.usb_serial@[place] == match usable.card.usb_serial {
                Some(serial) => if place < vstd::utf8::encode_utf8(serial).len() {
                    vstd::utf8::encode_utf8(serial)[place]
                } else {
                    0
                },
                None => 0,
            }
            &&& device_match.selection.alsa_card_index == usable.card.card_index
            &&& device_match.selection.input_device_index == usable.input_device_index
            &&& device_match.selection.output_device_index == usable.output_device_index
        }),
{
    assert(crate::text::padded(Seq::<u8>::empty(), 256)[place] == 0);
}

/// The card that is selected exactly is the one that the request names: by a topology
/// component, with the serial number where there is one, or by the serial number alone. It is
/// a USB sound card of the listing, published with its own interface path.
pub proof fn law_exact_selection_names_its_card<L>(
    request: UsbDeviceSelector,
    select: UsbSelect,
    replies: SelectReplies<L>,
    usable: UsableCard,
)
    requires
        request.acceptable(),
        select.selector.describes(request),
        select.selected(replies) == Ok::<UsableCard, i32>(usable),
    ensures
        replies.listing is Some,
        exists|k: int|
            0 <= k < replies.listing->0.len() && (#[trigger] replies.listing->0[k]).identity()
                == Some(usable.card),
        ({
            let serial = crate::selection::c_text(request.usb_serial)->Ok_0;
            match crate::selection::c_text(request.device_identifier) {
                Ok(Some(text)) => !(text.len() >= 3 && text[0] == 'h' && text[1] == 'w' && text[2]
                    == ':') ==> crate::sysfs::card_of_identity(
                    replies.listing,
                    Some(text),
                    serial,
                ) == Ok::<u32, i32>(usable.card.card_index),
                _ => serial is Some ==> crate::sysfs::card_of_identity(
                    replies.listing,
                    None,
                    serial,
                ) == Ok::<u32, i32>(usable.card.card_index),
            }
        }),
        crate::selection::c_text(request.usb_serial) matches Ok(Some(serial))
            ==> usable.card.usb_serial == Some(serial),
{
    let cards = select.candidates(replies.listing)->Ok_0;
    crate::selection::law_search_finds_the_first_pair(
        replies.inventory,
        cards,
        select.wanted_pcm(),
        select.selector.input_channels,
        select.selector.output_channels,
    );
    let identifier = crate::selection::meaning_of_identifier(select.selector.identifier);
    let serial = crate::sysfs::str_of(select.selector.usb_serial);
    let entries = replies.listing->0;
    let all = crate::sysfs::usb_cards(entries);
    if select.selector.selection_policy != USB_SELECTION_AUTOMATIC_LOWEST_ALSA_CARD {
        let number = crate::selection::exact_number(replies.listing, identifier, serial)->Ok_0;
        lemma_first_with_number_has_it(all, number);
        lemma_first_with_number_is_listed(all, number);
        let i = choose|i: int| 0 <= i < all.len() && #[trigger] all[i] == usable.card;
        assert(all.contains(usable.card));
    } else {
        assert(all.contains(usable.card));
    }
    crate::sysfs::law_inventory_is_complete(entries, usable.card);
}

proof fn lemma_number_is_found(cards: Seq<CardIdentity>, place: int)
    requires
        0 <= place < cards.len(),
    ensures
        crate::sysfs::first_with_number(cards, cards[place].card_index) is Some,
    decreases cards.len(),
{
    if cards[0].card_index != cards[place].card_index {
        assert(cards.skip(1)[place - 1] == cards[place]);
        lemma_number_is_found(cards.skip(1), place - 1);
    }
}

/// A selection does not fail without a reason: where a USB sound card of the listing has a
/// pair of devices for the request, the choice of the lowest card finds one, and so does a
/// native selector that names this card and no serial number. The serial numbers have to fit
/// the caller's buffer.
pub proof fn law_selection_is_found<L>(
    request: UsbDeviceSelector,
    select: UsbSelect,
    replies: SelectReplies<L>,
    place: int,
    native: crate::text::LegacyHwSelector,
    input: i32,
    output: i32,
)
    requires
        request.acceptable(),
        select.selector.describes(request),
        replies.listing is Some,
        0 <= place < replies.listing->0.len(),
        replies.listing->0[place].identity() is Some,
        forall|k: int|
            0 <= k < replies.listing->0.len() && (
            #[trigger] replies.listing->0[k]).identity() is Some ==> serial_bytes(
                replies.listing->0[k].identity()->0,
            ).len() < 256,
        crate::selection::is_the_pair(
            replies.inventory,
            replies.listing->0[place].identity()->0.card_index,
            if request.selection_policy == 1 {
                None
            } else {
                native.pcm_device
            },
            request.input_device_channels as int,
            request.output_device_channels as int,
            input,
            output,
        ),
        request.selection_policy == 0 ==> {
            &&& request.usb_serial is Null
            &&& crate::selection::c_text(request.device_identifier) matches Ok(Some(text))
                && crate::selection::meaning_of(text) == Some(
                crate::selection::Identifier::Hw(native),
            )
            &&& native.card_index == replies.listing->0[place].identity()->0.card_index
        },
    ensures
        select.selected(replies) is Ok,
{
    let entries = replies.listing->0;
    let card = entries[place].identity()->0;
    let all = crate::sysfs::usb_cards(entries);
    crate::sysfs::law_inventory_is_complete(entries, card);
    assert(all.contains(card));
    let at = choose|at: int| 0 <= at < all.len() && all[at] == card;
    if request.selection_policy == 0 {
        lemma_number_is_found(all, at);
        lemma_first_with_number_has_it(all, card.card_index);
        lemma_first_with_number_is_listed(all, card.card_index);
    }
    let cards = select.candidates(replies.listing)->Ok_0;
    crate::selection::law_search_finds_the_first_pair(
        replies.inventory,
        cards,
        select.wanted_pcm(),
        select.selector.input_channels,
        select.selector.output_channels,
    );
    let found = crate::selection::first_usable(
        replies.inventory,
        cards,
        select.wanted_pcm(),
        select.selector.input_channels,
        select.selector.output_channels,
    );
    if found is Err {
        let there: int = if request.selection_policy == 0 {
            0
        } else {
            at
        };
        assert(cards[there].card_index == card.card_index);
        assert(!crate::selection::is_the_pair(
            replies.inventory,
            cards[there].card_index,
            select.wanted_pcm(),
            select.selector.input_channels as int,
            select.selector.output_channels as int,
            input,
            output,
        ));
    } else {
        let usable = found->Ok_0;
        assert(all.contains(usable.card));
        crate::sysfs::law_inventory_is_complete(entries, usable.card);
        let k = choose|k: int|
            0 <= k < entries.len() && (#[trigger] entries[k]).identity() == Some(usable.card);
        assert(serial_bytes(entries[k].identity()->0).len() < 256);
    }
}

} // verus!
