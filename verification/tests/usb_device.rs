//! USB identity resolution and device selection over a simulated host.
use rptadv_portaudio_alsa_adapter::abi::{
    ABI_VERSION, AUDIO_INVALID_ARGUMENT, AUDIO_OK, AUDIO_PORTAUDIO_ERROR, AUDIO_UNSUPPORTED,
};
use rptadv_portaudio_alsa_adapter::devices::{
    resolve_portaudio_device_for_alsa_card, resolve_portaudio_device_for_alsa_endpoint,
    DeviceInfo, DeviceInventory, DeviceName,
};
use rptadv_portaudio_alsa_adapter::runtime::{portaudio_runtime, PortAudioRuntime};
use rptadv_portaudio_alsa_adapter::selection::{
    optional_utf8_c_string, resolve_exact_usb_card, resolve_selected_portaudio_devices,
    UsbDeviceIdentity, UsbDeviceSelector, ValidatedUsbDeviceIdentity, ValidatedUsbDeviceSelector,
    USB_DEVICE_IDENTITY_SIZE, USB_DEVICE_MATCH_SIZE, USB_DEVICE_SELECTION_SIZE,
    USB_DEVICE_SELECTOR_SIZE, USB_SELECTION_AUTOMATIC_LOWEST_ALSA_CARD, USB_SELECTION_EXACT,
    USB_SERIAL_CAPACITY,
};
use rptadv_portaudio_alsa_adapter::sysfs::{
    enumerate_usb_cards_from_sysfs, resolve_alsa_card_index_from_sysfs,
    resolve_alsa_card_index_from_sysfs_identity, resolve_usb_card_from_alsa_card,
    usb_interface_from_device_path, usb_interface_path_from_device_path,
    usb_serial_from_device_path, DevicePath, SoundEntry,
};
use rptadv_portaudio_alsa_adapter::text::{
    copy_usb_identity_component, looks_like_usb_interface_component, CText,
};
use rptadv_portaudio_alsa_adapter::usb_device::{
    QueryCall, UsbDeviceMatch, UsbDeviceSelection, UsbResolve, UsbSelect,
};

const TEST_FUNCTIONS: usize = 1;

fn path(components: &[&str]) -> DevicePath {
    components.iter().map(|component| Some(component.to_string())).collect()
}

fn card_with_serial_text(
    card_index: u32,
    usb_interface_path: &str,
    serial_text: Option<&str>,
) -> SoundEntry {
    let topology = usb_interface_path
        .split_once(':')
        .map_or(usb_interface_path, |(topology, _)| topology);
    let bus = topology.split('-').next().expect("USB topology has a bus");
    let card = format!("card{card_index}");
    SoundEntry {
        device_path: Some(path(&[
            "/",
            "sys",
            "devices",
            &format!("usb{bus}"),
            topology,
            usb_interface_path,
            "sound",
            &card,
        ])),
        name: Some(card),
        serial_text: serial_text.map(|text| text.to_string()),
    }
}

fn card_with_serial(card_index: u32, usb_interface_path: &str, serial: &str) -> SoundEntry {
    card_with_serial_text(card_index, usb_interface_path, Some(&format!("{serial}\n")))
}

fn card(card_index: u32, usb_interface_path: &str) -> SoundEntry {
    card_with_serial_text(card_index, usb_interface_path, None)
}

fn nameless() -> SoundEntry {
    SoundEntry { name: None, device_path: None, serial_text: None }
}

fn unlinked(card_index: u32) -> SoundEntry {
    SoundEntry { name: Some(format!("card{card_index}")), device_path: None, serial_text: None }
}

#[derive(Clone, Copy, PartialEq)]
enum FirstName {
    Native,
    Plugin,
    Null,
    NotUtf8,
}

struct Host {
    runtime: PortAudioRuntime,
    listing: Option<Vec<SoundEntry>>,
    initialize_count: u32,
    terminate_count: u32,
    initialize_result: i32,
    device_count: i32,
    device_info_available: bool,
    first_name: FirstName,
    max_input_channels: i32,
    max_output_channels: i32,
}

fn host(listing: Vec<SoundEntry>) -> Host {
    Host {
        runtime: portaudio_runtime(),
        listing: Some(listing),
        initialize_count: 0,
        terminate_count: 0,
        initialize_result: 0,
        device_count: 2,
        device_info_available: true,
        first_name: FirstName::Native,
        max_input_channels: 2,
        max_output_channels: 2,
    }
}

impl Host {
    fn inventory(&self) -> DeviceInventory<f64> {
        let mut devices = Vec::new();
        for device in 0..self.device_count.max(0) {
            let name = match (device, self.first_name) {
                (1, _) => DeviceName::Text("Other (hw:7,0)".to_string()),
                (0, FirstName::Plugin) => DeviceName::Text("CM119 (plughw:4,0)".to_string()),
                (0, FirstName::Null) => DeviceName::Missing,
                (0, FirstName::NotUtf8) => DeviceName::NotUtf8,
                _ => DeviceName::Text("CM119 (hw:4,0)".to_string()),
            };
            devices.push(if self.device_info_available {
                Some(DeviceInfo {
                    name,
                    max_input_channels: self.max_input_channels,
                    max_output_channels: self.max_output_channels,
                    default_low_input_latency: 0.004,
                    default_low_output_latency: 0.006,
                })
            } else {
                None
            });
        }
        DeviceInventory {
            default_input_device: 0,
            default_output_device: 1,
            device_count: self.device_count,
            devices,
        }
    }

    fn call(&mut self, call: QueryCall) -> i32 {
        match call {
            QueryCall::Initialize => {
                self.initialize_count += 1;
                self.initialize_result
            }
            QueryCall::Terminate => {
                self.terminate_count += 1;
                0
            }
            _ => unreachable!(),
        }
    }

    fn resolve(
        &mut self,
        identity: Option<UsbDeviceIdentity<'_>>,
        selection: &mut UsbDeviceSelection,
    ) -> i32 {
        let mut resolve = match UsbResolve::begin(TEST_FUNCTIONS, identity, selection) {
            Ok(resolve) => resolve,
            Err(error) => return error,
        };
        while let Some(call) = resolve.query.next_call {
            match call {
                QueryCall::ReadListing => resolve.listing(&mut self.runtime, self.listing.as_ref()),
                QueryCall::ReadInventory => {
                    let inventory = self.inventory();
                    resolve.inventory(&mut self.runtime, selection, &inventory);
                }
                _ => {
                    let code = self.call(call);
                    resolve.reply(&mut self.runtime, code);
                }
            }
        }
        assert_eq!(self.runtime, portaudio_runtime());
        resolve.query.status
    }

    fn select(
        &mut self,
        selector: Option<UsbDeviceSelector<'_>>,
        device_match: &mut UsbDeviceMatch,
    ) -> i32 {
        let mut select =
            match UsbSelect::begin(&mut self.runtime, TEST_FUNCTIONS, selector, device_match) {
                Ok(select) => select,
                Err(error) => return error,
            };
        while let Some(call) = select.query.next_call {
            match call {
                QueryCall::ReadListing => select.listing(&mut self.runtime, self.listing.as_ref()),
                QueryCall::ReadInventory => {
                    let inventory = self.inventory();
                    select.inventory(&mut self.runtime, device_match, &inventory);
                }
                _ => {
                    let code = self.call(call);
                    select.reply(&mut self.runtime, code);
                }
            }
        }
        assert_eq!(self.runtime, portaudio_runtime());
        select.query.status
    }
}

fn identity<'a>(usb_interface_path: CText<'a>, usb_serial: CText<'a>) -> UsbDeviceIdentity<'a> {
    UsbDeviceIdentity {
        struct_size: USB_DEVICE_IDENTITY_SIZE,
        usb_interface_path,
        usb_serial,
        input_device_channels: 1,
        output_device_channels: 1,
    }
}

fn selector<'a>(
    selection_policy: u32,
    device_identifier: CText<'a>,
    usb_serial: CText<'a>,
) -> UsbDeviceSelector<'a> {
    UsbDeviceSelector {
        struct_size: USB_DEVICE_SELECTOR_SIZE,
        selection_policy,
        device_identifier,
        usb_serial,
        input_device_channels: 1,
        output_device_channels: 1,
    }
}

fn automatic() -> UsbDeviceSelector<'static> {
    selector(USB_SELECTION_AUTOMATIC_LOWEST_ALSA_CARD, CText::Null, CText::Null)
}

fn empty_selection() -> UsbDeviceSelection {
    UsbDeviceSelection {
        struct_size: USB_DEVICE_SELECTION_SIZE,
        abi_version: 0,
        alsa_card_index: 0,
        input_device_index: 0,
        output_device_index: 0,
    }
}

fn empty_match() -> UsbDeviceMatch {
    UsbDeviceMatch::cleared(USB_DEVICE_MATCH_SIZE)
}

fn component(value: &[u8]) -> &str {
    let length = value.iter().position(|byte| *byte == 0).expect("terminated component");
    std::str::from_utf8(&value[..length]).expect("test identity is UTF-8")
}

#[test]
fn usb_interface_mixer_resolution_rejects_missing_or_ambiguous_cards() {
    let missing = Vec::new();
    assert_eq!(
        resolve_alsa_card_index_from_sysfs(Some(&missing), "3-1:1.0"),
        Err(AUDIO_UNSUPPORTED)
    );
    assert_eq!(resolve_alsa_card_index_from_sysfs(None, "3-1:1.0"), Err(AUDIO_UNSUPPORTED));

    let ambiguous = vec![card(1, "3-1:1.0"), card(2, "3-1:1.0")];
    assert_eq!(
        resolve_alsa_card_index_from_sysfs(Some(&ambiguous), "3-1:1.0"),
        Err(AUDIO_UNSUPPORTED)
    );
}

#[test]
fn usb_device_identity_resolves_one_matching_card_and_raw_portaudio_device() {
    let mut host = host(vec![
        card_with_serial(4, "3-1:1.0", "CM119-A"),
        card_with_serial(7, "7-2:1.0", "OTHER"),
    ]);
    let mut selection = empty_selection();
    assert_eq!(
        host.resolve(
            Some(identity(CText::Text("3-1:1.0"), CText::Text("CM119-A"))),
            &mut selection
        ),
        AUDIO_OK
    );
    assert_eq!(selection.abi_version, ABI_VERSION);
    assert_eq!(selection.alsa_card_index, 4);
    assert_eq!(selection.input_device_index, 0);
    assert_eq!(selection.output_device_index, 0);
    assert_eq!(host.initialize_count, 1);
    assert_eq!(host.terminate_count, 1);

    let serial_only = identity(CText::Null, CText::Text("CM119-A"));
    assert_eq!(host.resolve(Some(serial_only), &mut selection), AUDIO_OK);
    assert_eq!(selection.alsa_card_index, 4);

    let topology_only = identity(CText::Text("3-1"), CText::Null);
    assert_eq!(host.resolve(Some(topology_only), &mut selection), AUDIO_OK);
    assert_eq!(selection.alsa_card_index, 4);

    let mismatch = identity(CText::Text("3-1:1.0"), CText::Text("OTHER"));
    assert_eq!(host.resolve(Some(mismatch), &mut selection), AUDIO_UNSUPPORTED);
}

#[test]
fn usb_identity_component_and_output_copy_validate_boundaries() {
    assert!(looks_like_usb_interface_component("3-1:1.0"));
    assert!(looks_like_usb_interface_component("1-1.2:2.0"));
    assert!(!looks_like_usb_interface_component("3-1"));
    assert!(!looks_like_usb_interface_component(":1.0"));
    assert!(!looks_like_usb_interface_component("3-1:"));
    assert!(!looks_like_usb_interface_component("0000:00:14.0"));
    assert!(!looks_like_usb_interface_component("3-x:1.0"));
    assert!(!looks_like_usb_interface_component("3-1:x"));
    assert_eq!(
        usb_interface_path_from_device_path(&path(&["/", "sys", "devices", "no-usb-interface"])),
        None
    );

    let mut copied = [0; 4];
    assert_eq!(copy_usb_identity_component(&mut copied, "abc"), Ok(()));
    assert_eq!(component(&copied), "abc");
    assert_eq!(copy_usb_identity_component(&mut copied, "abcd"), Err(AUDIO_UNSUPPORTED));
}

#[test]
fn usb_device_selector_maps_legacy_identifiers_and_returns_stable_identity() {
    let mut host = host(vec![
        card_with_serial(4, "3-1:1.0", "CM119-A"),
        card_with_serial(7, "7-2:1.0", "OTHER"),
    ]);
    let mut device_match = empty_match();
    let by_hw = selector(USB_SELECTION_EXACT, CText::Text("hw:7,0"), CText::Null);
    assert_eq!(host.select(Some(by_hw), &mut device_match), AUDIO_OK);
    assert_eq!(device_match.abi_version, ABI_VERSION);
    assert_eq!(component(&device_match.usb_interface_path), "7-2:1.0");
    assert_eq!(component(&device_match.usb_serial), "OTHER");
    assert_eq!(device_match.selection.abi_version, ABI_VERSION);
    assert_eq!(device_match.selection.struct_size, USB_DEVICE_SELECTION_SIZE);
    assert_eq!(device_match.selection.alsa_card_index, 7);
    assert_eq!(device_match.selection.input_device_index, 1);
    assert_eq!(device_match.selection.output_device_index, 1);

    let topology_and_serial =
        selector(USB_SELECTION_EXACT, CText::Text("3-1"), CText::Text("CM119-A"));
    assert_eq!(host.select(Some(topology_and_serial), &mut device_match), AUDIO_OK);
    assert_eq!(device_match.selection.alsa_card_index, 4);
    assert_eq!(component(&device_match.usb_interface_path), "3-1:1.0");
    assert_eq!(component(&device_match.usb_serial), "CM119-A");
}

#[test]
fn usb_device_selector_uses_lowest_usable_card_and_rejects_conflicts() {
    let mut host = host(vec![
        card_with_serial(4, "3-1:1.0", "CM119-A"),
        card_with_serial(7, "7-2:1.0", "OTHER"),
    ]);
    let mut device_match = empty_match();
    assert_eq!(host.select(Some(automatic()), &mut device_match), AUDIO_OK);
    assert_eq!(device_match.selection.alsa_card_index, 4);

    let mismatched = selector(USB_SELECTION_EXACT, CText::Text("hw:4"), CText::Text("OTHER"));
    assert_eq!(host.select(Some(mismatched), &mut device_match), AUDIO_UNSUPPORTED);
    assert_eq!(device_match.abi_version, 0);

    let unavailable_pcm = selector(USB_SELECTION_EXACT, CText::Text("hw:7,1"), CText::Null);
    assert_eq!(host.select(Some(unavailable_pcm), &mut device_match), AUDIO_UNSUPPORTED);
}

#[test]
fn usb_card_inventory_filters_non_usb_entries_and_returns_stable_order() {
    let listing = vec![
        card_with_serial(7, "7-2:1.0", "OTHER"),
        card(4, "3-1:1.0"),
        card_with_serial(6, "6-1:1.0", ""),
        unlinked(8),
        nameless(),
        SoundEntry {
            name: Some("card9".to_string()),
            device_path: Some(path(&["/", "sys", "devices", "non-usb", "sound", "card9"])),
            serial_text: None,
        },
    ];
    let cards = enumerate_usb_cards_from_sysfs(Some(&listing)).expect("enumerate USB sound cards");
    assert_eq!(cards.len(), 3);
    assert_eq!(cards[0].card_index, 4);
    assert_eq!(cards[0].usb_interface_path, "3-1:1.0");
    assert_eq!(cards[0].usb_serial, None);
    assert_eq!(cards[1].card_index, 6);
    assert_eq!(cards[1].usb_serial, None);
    assert_eq!(cards[2].card_index, 7);
    assert_eq!(cards[2].usb_serial.as_deref(), Some("OTHER"));
    assert_eq!(resolve_usb_card_from_alsa_card(Some(&listing), 8), Err(AUDIO_UNSUPPORTED));
    assert_eq!(enumerate_usb_cards_from_sysfs(None), Err(AUDIO_UNSUPPORTED));
    assert_eq!(resolve_usb_card_from_alsa_card(None, 4), Err(AUDIO_UNSUPPORTED));
}

#[test]
fn card_lookups_do_not_depend_on_the_listing_order() {
    let forward = vec![
        card_with_serial(7, "7-2:1.0", "OTHER"),
        card(4, "3-1:1.0"),
        card_with_serial(6, "6-1:1.0", "SIX"),
    ];
    let backward = vec![
        card_with_serial(6, "6-1:1.0", "SIX"),
        card(4, "3-1:1.0"),
        card_with_serial(7, "7-2:1.0", "OTHER"),
    ];
    assert_eq!(
        enumerate_usb_cards_from_sysfs(Some(&forward)),
        enumerate_usb_cards_from_sysfs(Some(&backward))
    );
    for serial in ["OTHER", "SIX", "NONE"] {
        assert_eq!(
            resolve_alsa_card_index_from_sysfs_identity(Some(&forward), None, Some(serial)),
            resolve_alsa_card_index_from_sysfs_identity(Some(&backward), None, Some(serial))
        );
    }
}

#[test]
fn usb_device_selector_supports_serial_only_and_empty_returned_serial() {
    let mut with_serial = host(vec![card_with_serial(4, "3-1:1.0", "CM119-A")]);
    let mut device_match = empty_match();
    let serial_only = selector(USB_SELECTION_EXACT, CText::Null, CText::Text("CM119-A"));
    assert_eq!(with_serial.select(Some(serial_only), &mut device_match), AUDIO_OK);
    assert_eq!(device_match.selection.alsa_card_index, 4);

    let mut without_serial = host(vec![card(4, "3-1:1.0")]);
    let hw_only = selector(USB_SELECTION_EXACT, CText::Text("hw:4"), CText::Null);
    assert_eq!(without_serial.select(Some(hw_only), &mut device_match), AUDIO_OK);
    assert_eq!(component(&device_match.usb_serial), "");
}

#[test]
fn usb_device_identity_never_inherits_an_upstream_hub_serial() {
    let listing = vec![card(4, "3-1:1.0")];
    let hub = SoundEntry {
        name: Some("card4".to_string()),
        device_path: Some(path(&["/", "sys", "devices", "usb3"])),
        serial_text: Some("xhci-hcd.1\n".to_string()),
    };
    // The serial belongs to the directory just above the interface.
    let device_path = listing[0].device_path.as_ref().unwrap();
    let interface = usb_interface_from_device_path(device_path).expect("interface component");
    assert_eq!(device_path[interface - 1].as_deref(), Some("3-1:1.0"));
    assert_eq!(device_path[interface - 2].as_deref(), Some("3-1"));
    assert_eq!(usb_serial_from_device_path(&listing[0]), None);
    assert_eq!(usb_serial_from_device_path(&hub), None);
    assert_eq!(
        resolve_alsa_card_index_from_sysfs_identity(Some(&listing), None, Some("xhci-hcd.1")),
        Err(AUDIO_UNSUPPORTED)
    );
    let mut without_serial = host(listing);
    let mut device_match = empty_match();
    assert_eq!(without_serial.select(Some(automatic()), &mut device_match), AUDIO_OK);
    assert_eq!(component(&device_match.usb_interface_path), "3-1:1.0");
    assert_eq!(component(&device_match.usb_serial), "");

    for invalid_serial in ["\n", "invalid\nserial\n"] {
        assert_eq!(
            usb_serial_from_device_path(&card_with_serial_text(4, "3-1:1.0", Some(invalid_serial))),
            None
        );
    }
    let listing = vec![card_with_serial_text(4, "3-1:1.0", Some("CM119-A\r\n"))];
    assert_eq!(usb_serial_from_device_path(&listing[0]).as_deref(), Some("CM119-A"));
    assert_eq!(
        resolve_alsa_card_index_from_sysfs_identity(Some(&listing), None, Some("CM119-A")),
        Ok(4)
    );
    assert_eq!(
        resolve_alsa_card_index_from_sysfs_identity(Some(&listing), None, Some("xhci-hcd.1")),
        Err(AUDIO_UNSUPPORTED)
    );
}

#[test]
fn the_interface_nearest_to_the_sound_device_identifies_it() {
    let nested = path(&["/", "sys", "1-1:1.0", "1-1.4", "1-1.4:1.2", "sound", "card2"]);
    assert_eq!(usb_interface_from_device_path(&nested), Some(5));
    assert_eq!(usb_interface_path_from_device_path(&nested).as_deref(), Some("1-1.4:1.2"));
    let mut unreadable = nested;
    unreadable[4] = None;
    assert_eq!(usb_interface_path_from_device_path(&unreadable).as_deref(), Some("1-1:1.0"));
}

#[test]
fn usb_device_selector_automatic_skips_unusable_cards_and_propagates_device_errors() {
    let mut skipping = host(vec![card(3, "2-1:1.0"), card(4, "3-1:1.0")]);
    let mut device_match = empty_match();
    assert_eq!(skipping.select(Some(automatic()), &mut device_match), AUDIO_OK);
    assert_eq!(device_match.selection.alsa_card_index, 4);

    let mut unusable = host(vec![card(3, "2-1:1.0")]);
    assert_eq!(unusable.select(Some(automatic()), &mut device_match), AUDIO_UNSUPPORTED);

    unusable.device_count = -1;
    assert_eq!(unusable.select(Some(automatic()), &mut device_match), AUDIO_PORTAUDIO_ERROR);
}

#[test]
fn usb_device_selector_rejects_unusable_output_and_oversized_serial() {
    let mut no_output = host(vec![card(4, "3-1:1.0")]);
    let by_hw = selector(USB_SELECTION_EXACT, CText::Text("hw:4"), CText::Null);
    let mut device_match = empty_match();
    let match_size = device_match.struct_size;
    no_output.max_output_channels = 0;
    assert_eq!(no_output.select(Some(by_hw), &mut device_match), AUDIO_UNSUPPORTED);

    let serial = "A".repeat(USB_SERIAL_CAPACITY);
    let mut oversized = host(vec![card_with_serial(4, "3-1:1.0", &serial)]);
    assert_eq!(oversized.select(Some(by_hw), &mut device_match), AUDIO_UNSUPPORTED);
    assert_eq!(device_match.struct_size, match_size);
    assert_eq!(device_match.abi_version, 0);
    assert_eq!(component(&device_match.usb_interface_path), "");
    assert_eq!(component(&device_match.usb_serial), "");
    assert_eq!(device_match.selection.abi_version, 0);
    assert_eq!(device_match.selection.alsa_card_index, 0);
    assert_eq!(device_match.selection.input_device_index, 0);
    assert_eq!(device_match.selection.output_device_index, 0);
}

#[test]
fn usb_device_selector_rejects_invalid_abi_and_selection_combinations() {
    let mut host = host(Vec::new());
    let valid = selector(USB_SELECTION_EXACT, CText::Text("hw:4"), CText::Null);
    let mut device_match = empty_match();
    assert_eq!(host.select(None, &mut device_match), AUDIO_INVALID_ARGUMENT);

    let mut reject = |mutate: fn(&mut UsbDeviceSelector<'static>)| {
        let mut candidate = selector(USB_SELECTION_EXACT, CText::Text("hw:4"), CText::Null);
        mutate(&mut candidate);
        assert_eq!(host.select(Some(candidate), &mut device_match), AUDIO_INVALID_ARGUMENT);
        assert_eq!(device_match.abi_version, 0);
    };
    reject(|value| value.struct_size = 0);
    reject(|value| value.selection_policy = 2);
    reject(|value| value.device_identifier = CText::Text("hw:4,abc"));
    reject(|value| value.device_identifier = CText::Text(""));
    reject(|value| value.device_identifier = CText::Text("../3-1:1.0"));
    reject(|value| value.device_identifier = CText::NotUtf8);
    reject(|value| value.usb_serial = CText::Text("bad\nserial"));
    reject(|value| value.usb_serial = CText::NotUtf8);
    reject(|value| value.input_device_channels = 0);
    reject(|value| value.output_device_channels = 3);

    let automatic_with_identifier =
        selector(USB_SELECTION_AUTOMATIC_LOWEST_ALSA_CARD, CText::Text("hw:4"), CText::Null);
    assert_eq!(
        host.select(Some(automatic_with_identifier), &mut device_match),
        AUDIO_INVALID_ARGUMENT
    );
    let automatic_with_serial =
        selector(USB_SELECTION_AUTOMATIC_LOWEST_ALSA_CARD, CText::Null, CText::Text("CM119-A"));
    assert_eq!(
        host.select(Some(automatic_with_serial), &mut device_match),
        AUDIO_INVALID_ARGUMENT
    );
    let exact_without_identity = selector(USB_SELECTION_EXACT, CText::Null, CText::Null);
    assert_eq!(
        host.select(Some(exact_without_identity), &mut device_match),
        AUDIO_INVALID_ARGUMENT
    );
    device_match.struct_size = 0;
    assert_eq!(host.select(Some(valid), &mut device_match), AUDIO_INVALID_ARGUMENT);
}

#[test]
fn usb_device_selector_propagates_exact_inventory_and_runtime_failures() {
    let mut host = host(vec![card_with_serial(4, "3-1:1.0", "CM119-A")]);
    let mut device_match = empty_match();
    let missing_topology = selector(USB_SELECTION_EXACT, CText::Text("missing"), CText::Null);
    assert_eq!(host.select(Some(missing_topology), &mut device_match), AUDIO_UNSUPPORTED);
    let missing_serial = selector(USB_SELECTION_EXACT, CText::Null, CText::Text("missing"));
    assert_eq!(host.select(Some(missing_serial), &mut device_match), AUDIO_UNSUPPORTED);
    let missing_card = selector(USB_SELECTION_EXACT, CText::Text("hw:99"), CText::Null);
    assert_eq!(host.select(Some(missing_card), &mut device_match), AUDIO_UNSUPPORTED);

    host.initialize_result = -90;
    let valid = selector(USB_SELECTION_EXACT, CText::Text("hw:4"), CText::Null);
    assert_eq!(host.select(Some(valid), &mut device_match), AUDIO_PORTAUDIO_ERROR);

    host.initialize_result = 0;
    host.listing = None;
    assert_eq!(host.select(Some(automatic()), &mut device_match), AUDIO_UNSUPPORTED);
}

#[test]
fn usb_device_identity_rejects_ambiguous_portaudio_matches() {
    let mut host = host(vec![card(4, "3-1:1.0")]);
    host.device_count = 3;
    let mut selection = empty_selection();
    assert_eq!(
        host.resolve(Some(identity(CText::Text("3-1:1.0"), CText::Null)), &mut selection),
        AUDIO_UNSUPPORTED
    );
    assert_eq!(selection.abi_version, 0);
}

#[test]
fn usb_device_identity_rejects_portaudio_plugin_aliases() {
    let mut host = host(vec![card(4, "3-1:1.0")]);
    host.first_name = FirstName::Plugin;
    let mut selection = empty_selection();
    assert_eq!(
        host.resolve(Some(identity(CText::Text("3-1"), CText::Null)), &mut selection),
        AUDIO_UNSUPPORTED
    );
}

#[test]
fn usb_device_resolver_rejects_unusable_portaudio_inventory_entries() {
    let outcome = |change: fn(&mut Host)| {
        let mut host = host(vec![card(4, "3-1:1.0")]);
        change(&mut host);
        let mut selection = empty_selection();
        host.resolve(Some(identity(CText::Text("3-1:1.0"), CText::Null)), &mut selection)
    };
    assert_eq!(outcome(|_| {}), AUDIO_OK);
    assert_eq!(outcome(|host| host.device_count = -1), AUDIO_PORTAUDIO_ERROR);
    assert_eq!(outcome(|host| host.device_info_available = false), AUDIO_PORTAUDIO_ERROR);
    assert_eq!(outcome(|host| host.first_name = FirstName::Null), AUDIO_PORTAUDIO_ERROR);
    assert_eq!(outcome(|host| host.first_name = FirstName::NotUtf8), AUDIO_UNSUPPORTED);
    assert_eq!(outcome(|host| host.max_input_channels = 0), AUDIO_UNSUPPORTED);
    assert_eq!(outcome(|host| host.max_output_channels = 0), AUDIO_UNSUPPORTED);
    assert_eq!(outcome(|host| host.initialize_result = -91), AUDIO_PORTAUDIO_ERROR);
}

#[test]
fn usb_sysfs_identity_rejects_missing_identity_and_unusable_entries() {
    let empty = Vec::new();
    assert_eq!(
        resolve_alsa_card_index_from_sysfs_identity(Some(&empty), None, None),
        Err(AUDIO_INVALID_ARGUMENT)
    );
    let unusable = vec![nameless(), unlinked(9)];
    assert_eq!(
        resolve_alsa_card_index_from_sysfs_identity(Some(&unusable), Some("3-1:1.0"), None),
        Err(AUDIO_UNSUPPORTED)
    );
}

#[test]
fn usb_device_identity_validates_all_identity_and_selection_arguments() {
    let mut host = host(Vec::new());
    let valid = identity(CText::Text("3-1:1.0"), CText::Null);
    let mut selection = empty_selection();
    assert_eq!(host.resolve(None, &mut selection), AUDIO_INVALID_ARGUMENT);

    let mut reject = |mutate: fn(&mut UsbDeviceIdentity<'static>)| {
        let mut candidate = identity(CText::Text("3-1:1.0"), CText::Null);
        mutate(&mut candidate);
        assert_eq!(host.resolve(Some(candidate), &mut selection), AUDIO_INVALID_ARGUMENT);
        assert_eq!(selection.abi_version, 0);
    };
    reject(|value| value.struct_size = 0);
    reject(|value| value.usb_interface_path = CText::Null);
    reject(|value| value.usb_serial = CText::Text(""));
    reject(|value| value.usb_serial = CText::Text("bad\nserial"));
    reject(|value| value.usb_interface_path = CText::NotUtf8);
    reject(|value| value.usb_serial = CText::NotUtf8);
    reject(|value| value.usb_interface_path = CText::Text("../3-1:1.0"));
    reject(|value| value.input_device_channels = 0);
    reject(|value| value.output_device_channels = 3);

    selection.struct_size = 0;
    assert_eq!(host.resolve(Some(valid), &mut selection), AUDIO_INVALID_ARGUMENT);
}

#[test]
fn optional_strings_are_absent_text_or_rejected() {
    assert_eq!(optional_utf8_c_string(CText::Null), Ok(None));
    assert_eq!(optional_utf8_c_string(CText::Text("3-1")), Ok(Some("3-1")));
    assert_eq!(optional_utf8_c_string(CText::NotUtf8), Err(AUDIO_INVALID_ARGUMENT));
}

#[test]
fn validated_requests_carry_the_callers_values() {
    let validated = ValidatedUsbDeviceIdentity::from_ffi(Some(identity(
        CText::Text("3-1:1.0"),
        CText::Text("CM119-A"),
    )))
    .unwrap();
    assert_eq!(validated.usb_interface_path, Some("3-1:1.0"));
    assert_eq!(validated.usb_serial, Some("CM119-A"));
    assert_eq!((validated.input_channels, validated.output_channels), (1, 1));

    let listing = vec![card_with_serial(4, "3-1:1.0", "CM119-A")];
    let validated = ValidatedUsbDeviceSelector::from_ffi(Some(selector(
        USB_SELECTION_EXACT,
        CText::Text("hw:4,0"),
        CText::Text("CM119-A"),
    )))
    .unwrap();
    let (found, pcm_device) = resolve_exact_usb_card(Some(&listing), &validated).unwrap();
    assert_eq!(found.card_index, 4);
    assert_eq!(pcm_device, Some(0));
    let inventory = host(Vec::new()).inventory();
    assert_eq!(
        resolve_selected_portaudio_devices(&inventory, &found, pcm_device, &validated),
        Ok((0, 0))
    );
    assert_eq!(
        resolve_selected_portaudio_devices(&inventory, &found, Some(1), &validated),
        Err(AUDIO_UNSUPPORTED)
    );
}

#[test]
fn an_alsa_card_resolves_to_its_only_native_device() {
    let inventory = host(Vec::new()).inventory();
    assert_eq!(resolve_portaudio_device_for_alsa_card(&inventory, 7, 2, true), Ok(1));
    assert_eq!(
        resolve_portaudio_device_for_alsa_card(&inventory, 7, 3, true),
        Err(AUDIO_UNSUPPORTED)
    );
    assert_eq!(
        resolve_portaudio_device_for_alsa_endpoint(&inventory, 4, Some(0), 1, false),
        Ok(0)
    );
    assert_eq!(
        resolve_portaudio_device_for_alsa_endpoint(&inventory, 4, Some(1), 1, false),
        Err(AUDIO_UNSUPPORTED)
    );
}
